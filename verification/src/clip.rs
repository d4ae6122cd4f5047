//! Length limits on outgoing text: the reply preview kept with each route and
//! the byte limit of platform messages, both measured as Rust measures them
//! (characters for previews, UTF-8 bytes for message limits).

use vstd::prelude::*;
use vstd::utf8::encode_utf8;

use crate::text::{chars_of, push_char, push_chars, string_of};

verus! {

broadcast use vstd::utf8::char_is_scalar;

/// `...`
pub open spec fn ellipsis() -> Seq<char> {
    seq!['.', '.', '.']
}

/// Number of bytes in the UTF-8 encoding of `c`.
pub open spec fn char_width(c: char) -> nat {
    let u = c as u32;
    if u <= 0x7F {
        1
    } else if u <= 0x7FF {
        2
    } else if u <= 0xFFFF {
        3
    } else {
        4
    }
}

/// Number of bytes in the UTF-8 encoding of `s` (what `str::len` returns).
pub open spec fn utf8_len(s: Seq<char>) -> nat
    decreases s.len(),
{
    if s.len() == 0 {
        0
    } else {
        char_width(s[0]) + utf8_len(s.drop_first())
    }
}

/// `utf8_len` is the length of vstd's UTF-8 encoding of the characters.
pub proof fn lemma_utf8_len_is_encoded_len(s: Seq<char>)
    ensures
        encode_utf8(s).len() == utf8_len(s),
    decreases s.len(),
{
    if s.len() > 0 {
        lemma_utf8_len_is_encoded_len(s.drop_first());
        vstd::utf8::char_is_scalar(s[0]);
    }
}

pub proof fn lemma_utf8_len_push(s: Seq<char>, c: char)
    ensures
        utf8_len(s.push(c)) == utf8_len(s) + char_width(c),
    decreases s.len(),
{
    let t = s.push(c);
    if s.len() > 0 {
        assert(t.drop_first() =~= s.drop_first().push(c));
        assert(t[0] == s[0]);
        lemma_utf8_len_push(s.drop_first(), c);
        assert(utf8_len(t) == char_width(t[0]) + utf8_len(t.drop_first()));
        assert(utf8_len(s) == char_width(s[0]) + utf8_len(s.drop_first()));
    } else {
        assert(t.drop_first() =~= Seq::<char>::empty());
        assert(utf8_len(t) == char_width(t[0]) + utf8_len(t.drop_first()));
        assert(utf8_len(t.drop_first()) == 0);
        assert(t[0] == c);
    }
}

/// The number of leading characters of `s` whose encoding fits in `budget`
/// bytes.
pub open spec fn fit_count(s: Seq<char>, budget: int) -> nat
    decreases s.len(),
{
    if s.len() == 0 || char_width(s[0]) > budget {
        0
    } else {
        1 + fit_count(s.drop_first(), budget - char_width(s[0]))
    }
}

proof fn lemma_fit_count_skip(s: Seq<char>, budget: int, k: int)
    requires
        0 <= k < s.len(),
        char_width(s[k]) <= budget - utf8_len(s.take(k)),
        fit_count(s, budget) == k + fit_count(s.skip(k), budget - utf8_len(s.take(k))),
    ensures
        fit_count(s, budget) == (k + 1) + fit_count(
            s.skip(k + 1),
            budget - utf8_len(s.take(k + 1)),
        ),
{
    let t = s.skip(k);
    assert(t[0] == s[k]);
    assert(t.drop_first() =~= s.skip(k + 1));
    assert(s.take(k + 1) =~= s.take(k).push(s[k]));
    lemma_utf8_len_push(s.take(k), s[k]);
}

/// Width of one character, in UTF-8 bytes.
pub fn width_of(c: char) -> (w: usize)
    ensures
        w == char_width(c),
{
    let u = c as u32;
    if u <= 0x7F {
        1
    } else if u <= 0x7FF {
        2
    } else if u <= 0xFFFF {
        3
    } else {
        4
    }
}

/// The number of bytes in the UTF-8 encoding of `s`.
pub fn encoded_len(s: &[char]) -> (n: u128)
    ensures
        n == utf8_len(s@),
{
    let mut n: u128 = 0;
    let mut i: usize = 0;
    assert(s@.take(0) =~= Seq::<char>::empty());
    while i < s.len()
        invariant
            i <= s@.len(),
            n == utf8_len(s@.take(i as int)),
            n <= 4 * i,
        decreases s@.len() - i,
    {
        proof {
            assert(s@.take(i + 1) =~= s@.take(i as int).push(s@[i as int]));
            lemma_utf8_len_push(s@.take(i as int), s@[i as int]);
        }
        n = n + width_of(s[i]) as u128;
        i = i + 1;
    }
    assert(s@.take(s@.len() as int) =~= s@);
    n
}

/// How many leading characters of `s` fit in `budget` bytes.
pub fn fitting_prefix(s: &[char], budget: usize) -> (k: usize)
    ensures
        k == fit_count(s@, budget as int),
        k <= s@.len(),
{
    let mut k: usize = 0;
    let mut used: usize = 0;
    assert(s@.skip(0) =~= s@);
    assert(s@.take(0) =~= Seq::<char>::empty());
    while k < s.len() && width_of(s[k]) <= budget - used
        invariant
            k <= s@.len(),
            used <= budget,
            used == utf8_len(s@.take(k as int)),
            fit_count(s@, budget as int) == k + fit_count(s@.skip(k as int), budget - used),
        decreases s@.len() - k,
    {
        proof {
            lemma_fit_count_skip(s@, budget as int, k as int);
            assert(s@.take(k + 1) =~= s@.take(k as int).push(s@[k as int]));
            lemma_utf8_len_push(s@.take(k as int), s@[k as int]);
        }
        used = used + width_of(s[k]);
        k = k + 1;
    }
    if k < s.len() {
        assert(s@.skip(k as int)[0] == s@[k as int]);
    }
    k
}

/// What `preview` returns: at most `limit` characters, with `...` appended
/// when the content was longer.
pub open spec fn preview_of(content: Seq<char>, limit: nat) -> Seq<char> {
    if content.len() > limit {
        content.take(limit as int) + ellipsis()
    } else {
        content
    }
}

/// The first `limit` characters of `content`, followed by `...` if anything
/// was cut off.
pub fn preview(content: &str, limit: usize) -> (r: String)
    ensures
        r@ == preview_of(content@, limit as nat),
{
    let cs = chars_of(content);
    if cs.len() > limit {
        let head = crate::text::slice_chars(cs.as_slice(), 0, limit);
        let mut s = string_of(head.as_slice());
        push_char(&mut s, '.');
        push_char(&mut s, '.');
        push_char(&mut s, '.');
        assert(s@ =~= content@.take(limit as int) + ellipsis());
        s
    } else {
        assert(cs@ =~= content@);
        string_of(cs.as_slice())
    }
}

/// What `truncate_to_limit` leaves: the text itself when its UTF-8 encoding
/// fits in `limit` bytes; otherwise the longest character prefix that fits in
/// `limit - 3` bytes (saturating), followed by `...`.
pub open spec fn truncated(s: Seq<char>, limit: nat) -> Seq<char> {
    if utf8_len(s) <= limit {
        s
    } else {
        let budget: int = if limit >= 3 { limit - 3 } else { 0 };
        s.take(fit_count(s, budget) as int) + ellipsis()
    }
}

/// Cuts `s` down so that it fits in `limit` bytes, marking the cut with `...`.
pub fn truncate_to_limit(s: &mut String, limit: usize)
    ensures
        final(s)@ == truncated(old(s)@, limit as nat),
{
    let cs = chars_of(s.as_str());
    let bytes = encoded_len(cs.as_slice());
    if bytes <= limit as u128 {
        return ;
    }
    let budget: usize = if limit >= 3 {
        limit - 3
    } else {
        0
    };
    let k = fitting_prefix(cs.as_slice(), budget);
    let head = crate::text::slice_chars(cs.as_slice(), 0, k);
    let mut out = string_of(head.as_slice());
    let dots: Vec<char> = vec!['.', '.', '.'];
    push_chars(&mut out, dots.as_slice());
    assert(out@ =~= old(s)@.take(k as int) + ellipsis());
    *s = out;
}

} // verus!
