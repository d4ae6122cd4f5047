//! Character-level text utilities shared by the message pipeline: conversion
//! between strings and character vectors, Unicode whitespace trimming,
//! searching, comma/`=` field splitting, trimming of prefixes and suffixes,
//! and HTML escaping.

use vstd::prelude::*;
use vstd::std_specs::iter::IteratorSpec;

verus! {

broadcast use vstd::string::group_string_axioms;

// ---------------------------------------------------------------------------
// Strings <-> characters
// ---------------------------------------------------------------------------

/// Appends one character to a `String` through `String::push`. Trusted:
/// the standard library documents that `push` appends the character to the
/// end of the string; vstd gives `String::push` no specification.
#[verifier::external_body]
pub(crate) fn push_char(s: &mut String, c: char)
    ensures
        final(s)@ == old(s)@.push(c),
{
    s.push(c);
}

/// The characters of a string slice, in order.
pub fn chars_of(s: &str) -> (v: Vec<char>)
    ensures
        v@ == s@,
{
    let mut v: Vec<char> = Vec::new();
    let mut it = s.chars();
    loop
        invariant
            it.remaining() == s@.skip(v@.len() as int),
            v@ == s@.take(v@.len() as int),
            v@.len() <= s@.len(),
        ensures
            v@ == s@,
        decreases s@.len() - v@.len(),
    {
        match it.next() {
            Some(c) => {
                v.push(c);
            },
            None => {
                assert(v@ =~= s@);
                break ;
            },
        }
    }
    v
}

/// Builds a `String` holding exactly the given characters.
pub fn string_of(cs: &[char]) -> (s: String)
    ensures
        s@ == cs@,
{
    let mut s = String::new();
    let mut i: usize = 0;
    while i < cs.len()
        invariant
            i <= cs@.len(),
            s@ == cs@.take(i as int),
        decreases cs@.len() - i,
    {
        push_char(&mut s, cs[i]);
        i = i + 1;
        assert(s@ =~= cs@.take(i as int));
    }
    assert(cs@.take(cs@.len() as int) =~= cs@);
    s
}

/// Appends all characters of `cs` to `s`.
pub fn push_chars(s: &mut String, cs: &[char])
    ensures
        final(s)@ == old(s)@ + cs@,
{
    let ghost s0 = s@;
    let mut i: usize = 0;
    while i < cs.len()
        invariant
            i <= cs@.len(),
            s@ == s0 + cs@.take(i as int),
        decreases cs@.len() - i,
    {
        push_char(s, cs[i]);
        i = i + 1;
        assert(s@ =~= s0 + cs@.take(i as int));
    }
    assert(cs@.take(cs@.len() as int) =~= cs@);
}

/// Appends a string slice to `s`.
pub fn push_str(s: &mut String, t: &str)
    ensures
        final(s)@ == old(s)@ + t@,
{
    s.append(t);
}

// ---------------------------------------------------------------------------
// Whitespace and trimming
// ---------------------------------------------------------------------------

/// The Unicode `White_Space` property, which `char::is_whitespace` tests.
pub open spec fn is_ws(c: char) -> bool {
    let u = c as u32;
    ||| (0x09 <= u && u <= 0x0D)
    ||| u == 0x20
    ||| u == 0x85
    ||| u == 0xA0
    ||| u == 0x1680
    ||| (0x2000 <= u && u <= 0x200A)
    ||| u == 0x2028
    ||| u == 0x2029
    ||| u == 0x202F
    ||| u == 0x205F
    ||| u == 0x3000
}

/// Whether `c` is Unicode whitespace.
pub fn is_whitespace(c: char) -> (r: bool)
    ensures
        r == is_ws(c),
{
    let u = c as u32;
    (0x09 <= u && u <= 0x0D) || u == 0x20 || u == 0x85 || u == 0xA0 || u == 0x1680 || (0x2000
        <= u && u <= 0x200A) || u == 0x2028 || u == 0x2029 || u == 0x202F || u == 0x205F || u
        == 0x3000
}

/// Index of the first non-whitespace character at or after `i`.
pub open spec fn trim_lo(s: Seq<char>, i: int) -> int
    decreases s.len() - i,
{
    if 0 <= i < s.len() && is_ws(s[i]) {
        trim_lo(s, i + 1)
    } else {
        i
    }
}

/// One past the last non-whitespace character at or before `j - 1`.
pub open spec fn trim_hi(s: Seq<char>, j: int) -> int
    decreases j,
{
    if 0 < j <= s.len() && is_ws(s[j - 1]) {
        trim_hi(s, j - 1)
    } else {
        j
    }
}

/// `s` without leading and trailing whitespace (`str::trim`).
pub open spec fn trimmed(s: Seq<char>) -> Seq<char> {
    let lo = trim_lo(s, 0);
    let hi = trim_hi(s, s.len() as int);
    if hi <= lo {
        Seq::empty()
    } else {
        s.subrange(lo, hi)
    }
}

/// Removes leading and trailing Unicode whitespace.
pub fn trim_chars(s: &[char]) -> (r: Vec<char>)
    ensures
        r@ == trimmed(s@),
{
    let mut lo: usize = 0;
    while lo < s.len() && is_whitespace(s[lo])
        invariant
            lo <= s@.len(),
            trim_lo(s@, lo as int) == trim_lo(s@, 0),
        decreases s@.len() - lo,
    {
        lo = lo + 1;
    }
    let mut hi: usize = s.len();
    while hi > 0 && is_whitespace(s[hi - 1])
        invariant
            hi <= s@.len(),
            trim_hi(s@, hi as int) == trim_hi(s@, s@.len() as int),
        decreases hi,
    {
        hi = hi - 1;
    }
    let mut r: Vec<char> = Vec::new();
    if hi > lo {
        let mut i = lo;
        while i < hi
            invariant
                lo <= i <= hi <= s@.len(),
                r@ == s@.subrange(lo as int, i as int),
            decreases hi - i,
        {
            r.push(s[i]);
            i = i + 1;
            assert(r@ =~= s@.subrange(lo as int, i as int));
        }
    }
    r
}

/// `str::trim`, returned as a new `String`.
pub fn trim_str(s: &str) -> (r: String)
    ensures
        r@ == trimmed(s@),
{
    let cs = chars_of(s);
    let t = trim_chars(cs.as_slice());
    string_of(t.as_slice())
}

// ---------------------------------------------------------------------------
// Searching and splitting
// ---------------------------------------------------------------------------

/// Whether `p` occurs in `s` starting at index `i`.
pub open spec fn occurs_at(s: Seq<char>, p: Seq<char>, i: int) -> bool {
    0 <= i && i + p.len() <= s.len() && s.subrange(i, i + p.len() as int) == p
}

/// The first index at or after `from` where `p` occurs in `s`.
pub open spec fn find_from(s: Seq<char>, p: Seq<char>, from: int) -> Option<int>
    decreases s.len() + 1 - from,
{
    if from < 0 || from + p.len() > s.len() {
        None
    } else if occurs_at(s, p, from) {
        Some(from)
    } else {
        find_from(s, p, from + 1)
    }
}

/// The first index at or after `from` holding the character `c`.
pub open spec fn find_char_from(s: Seq<char>, c: char, from: int) -> Option<int>
    decreases s.len() - from,
{
    if from < 0 || from >= s.len() {
        None
    } else if s[from] == c {
        Some(from)
    } else {
        find_char_from(s, c, from + 1)
    }
}

pub proof fn lemma_find_char_from(s: Seq<char>, c: char, from: int)
    requires
        0 <= from,
    ensures
        find_char_from(s, c, from) matches Some(k) ==> from <= k < s.len() && s[k] == c
            && forall|j: int| from <= j < k ==> s[j] != c,
        find_char_from(s, c, from) is None ==> forall|j: int| from <= j < s.len() ==> s[j] != c,
    decreases s.len() - from,
{
    if from < s.len() && s[from] != c {
        lemma_find_char_from(s, c, from + 1);
    }
}

pub proof fn lemma_find_from(s: Seq<char>, p: Seq<char>, from: int)
    requires
        0 <= from,
    ensures
        find_from(s, p, from) matches Some(k) ==> from <= k && occurs_at(s, p, k) && forall|
            j: int,
        | from <= j < k ==> !occurs_at(s, p, j),
        find_from(s, p, from) is None ==> forall|j: int| from <= j ==> !occurs_at(s, p, j),
    decreases s.len() + 1 - from,
{
    if from + p.len() <= s.len() && !occurs_at(s, p, from) {
        lemma_find_from(s, p, from + 1);
    }
}

/// Whether `p` occurs in `s` at index `i` (executable).
pub fn matches_at(s: &[char], p: &[char], i: usize) -> (r: bool)
    ensures
        r == occurs_at(s@, p@, i as int),
{
    if i > s.len() || p.len() > s.len() - i {
        return false;
    }
    let mut j: usize = 0;
    while j < p.len()
        invariant
            i + p@.len() <= s@.len(),
            i <= s.len(),
            p.len() <= s.len() - i,
            j <= p@.len(),
            forall|k: int| 0 <= k < j ==> s@[i + k] == p@[k],
        decreases p@.len() - j,
    {
        if s[i + j] != p[j] {
            assert(s@.subrange(i as int, i + p@.len())[j as int] != p@[j as int]);
            return false;
        }
        j = j + 1;
    }
    assert(s@.subrange(i as int, i + p@.len()) =~= p@);
    true
}

/// The first occurrence of `p` in `s` at or after `from`.
pub fn find_seq(s: &[char], p: &[char], from: usize) -> (r: Option<usize>)
    ensures
        r matches Some(k) ==> find_from(s@, p@, from as int) == Some(k as int),
        r is None ==> find_from(s@, p@, from as int) is None,
{
    let mut i = from;
    while i <= s.len() && p.len() <= s.len() - i
        invariant
            from <= i,
            find_from(s@, p@, i as int) == find_from(s@, p@, from as int),
        decreases s@.len() + 1 - i,
    {
        if matches_at(s, p, i) {
            return Some(i);
        }
        if i == s.len() {
            assert(s@.subrange(i as int, i as int) =~= p@);
        }
        i = i + 1;
    }
    None
}

/// The first occurrence of the character `c` in `s` at or after `from`.
pub fn find_char(s: &[char], c: char, from: usize) -> (r: Option<usize>)
    ensures
        r matches Some(k) ==> find_char_from(s@, c, from as int) == Some(k as int),
        r is None ==> find_char_from(s@, c, from as int) is None,
{
    let mut i = from;
    while i < s.len()
        invariant
            from <= i,
            find_char_from(s@, c, i as int) == find_char_from(s@, c, from as int),
        decreases s@.len() - i,
    {
        if s[i] == c {
            return Some(i);
        }
        i = i + 1;
    }
    None
}

/// Whether `s` contains the character `c`.
pub fn contains_char(s: &[char], c: char) -> (r: bool)
    ensures
        r == s@.contains(c),
{
    let mut i: usize = 0;
    while i < s.len()
        invariant
            i <= s@.len(),
            forall|k: int| 0 <= k < i ==> s@[k] != c,
        decreases s@.len() - i,
    {
        if s[i] == c {
            assert(s@[i as int] == c);
            return true;
        }
        i = i + 1;
    }
    false
}

/// The pieces of `s` between occurrences of `sep` (`str::split` on a character).
pub open spec fn split_on(s: Seq<char>, sep: char) -> Seq<Seq<char>>
    decreases s.len(),
{
    match find_char_from(s, sep, 0) {
        None => seq![s],
        Some(k) => if 0 <= k < s.len() {
            seq![s.take(k)] + split_on(s.skip(k + 1), sep)
        } else {
            seq![s]
        },
    }
}

/// The key of a `key=value` field: everything before the first `=`.
pub open spec fn field_key(part: Seq<char>) -> Seq<char> {
    match find_char_from(part, '=', 0) {
        None => part,
        Some(k) => part.take(k),
    }
}

/// The value of a `key=value` field: everything after the first `=`, if any.
pub open spec fn field_value(part: Seq<char>) -> Option<Seq<char>> {
    match find_char_from(part, '=', 0) {
        None => None,
        Some(k) => Some(part.skip(k + 1)),
    }
}

/// The value of the first field in `parts` whose key is `key`.
pub open spec fn first_field(parts: Seq<Seq<char>>, key: Seq<char>) -> Option<Seq<char>>
    decreases parts.len(),
{
    if parts.len() == 0 {
        None
    } else if field_key(parts[0]) == key && field_value(parts[0]) is Some {
        field_value(parts[0])
    } else {
        first_field(parts.drop_first(), key)
    }
}

/// The value of the last field in `parts` whose key is `key`.
pub open spec fn last_field(parts: Seq<Seq<char>>, key: Seq<char>) -> Option<Seq<char>>
    decreases parts.len(),
{
    if parts.len() == 0 {
        None
    } else if field_key(parts.last()) == key && field_value(parts.last()) is Some {
        field_value(parts.last())
    } else {
        last_field(parts.drop_last(), key)
    }
}


pub proof fn lemma_find_char_exact(t: Seq<char>, c: char, i: int, k: int)
    requires
        0 <= i <= k < t.len(),
        t[k] == c,
        forall|j: int| i <= j < k ==> t[j] != c,
    ensures
        find_char_from(t, c, i) == Some(k),
    decreases k - i,
{
    if i < k {
        lemma_find_char_exact(t, c, i + 1, k);
    }
}

pub proof fn lemma_find_char_none(t: Seq<char>, c: char, i: int)
    requires
        0 <= i,
        forall|j: int| i <= j < t.len() ==> t[j] != c,
    ensures
        find_char_from(t, c, i) is None,
    decreases t.len() - i,
{
    if i < t.len() {
        lemma_find_char_none(t, c, i + 1);
    }
}

/// Copies `s[lo..hi]` into a new vector.
pub fn slice_chars(s: &[char], lo: usize, hi: usize) -> (r: Vec<char>)
    requires
        lo <= hi <= s@.len(),
    ensures
        r@ == s@.subrange(lo as int, hi as int),
{
    let mut r: Vec<char> = Vec::new();
    let mut i = lo;
    while i < hi
        invariant
            lo <= i <= hi <= s@.len(),
            r@ == s@.subrange(lo as int, i as int),
        decreases hi - i,
    {
        r.push(s[i]);
        i = i + 1;
        assert(r@ =~= s@.subrange(lo as int, i as int));
    }
    r
}

/// The character sequences held by a vector of character vectors.
pub open spec fn views(parts: Seq<Vec<char>>) -> Seq<Seq<char>> {
    parts.map_values(|v: Vec<char>| v@)
}

/// Splits `s` at every occurrence of `sep` (`str::split` with a character).
pub fn split_chars(s: &[char], sep: char) -> (parts: Vec<Vec<char>>)
    ensures
        views(parts@) == split_on(s@, sep),
{
    let mut parts: Vec<Vec<char>> = Vec::new();
    let mut start: usize = 0;
    let mut j: usize = 0;
    assert(s@.skip(0) =~= s@);
    assert(views(parts@) + split_on(s@, sep) =~= split_on(s@, sep));
    while j < s.len()
        invariant
            start <= j <= s@.len(),
            views(parts@) + split_on(s@.skip(start as int), sep) == split_on(s@, sep),
            forall|k: int| start <= k < j ==> s@[k] != sep,
        decreases s@.len() - j,
    {
        if s[j] == sep {
            let part = slice_chars(s, start, j);
            let ghost t = s@.skip(start as int);
            proof {
                lemma_find_char_exact(t, sep, 0, j - start);
                assert(t.take(j - start) =~= part@);
                assert(t.skip(j - start + 1) =~= s@.skip(j + 1));
                assert(split_on(t, sep) == seq![t.take(j - start)] + split_on(
                    t.skip(j - start + 1),
                    sep,
                ));
            }
            let ghost before = views(parts@);
            parts.push(part);
            assert(views(parts@) =~= before.push(t.take(j - start)));
            assert(before.push(part@) + split_on(s@.skip(j + 1), sep) =~= before + (seq![part@]
                + split_on(s@.skip(j + 1), sep)));
            start = j + 1;
        }
        j = j + 1;
    }
    let part = slice_chars(s, start, s.len());
    let ghost t = s@.skip(start as int);
    proof {
        lemma_find_char_none(t, sep, 0);
        assert(t =~= part@);
    }
    let ghost before = views(parts@);
    parts.push(part);
    assert(views(parts@) =~= before.push(part@));
    assert(before + seq![part@] =~= before.push(part@));
    parts
}

/// The key of a `key=value` field.
pub fn key_of(part: &[char]) -> (r: Vec<char>)
    ensures
        r@ == field_key(part@),
{
    match find_char(part, '=', 0) {
        None => slice_chars(part, 0, part.len()),
        Some(k) => {
            proof {
                lemma_find_char_from(part@, '=', 0);
            }
            slice_chars(part, 0, k)
        },
    }
}

/// The value of a `key=value` field, if the field has one.
pub fn value_of(part: &[char]) -> (r: Option<Vec<char>>)
    ensures
        r matches Some(v) ==> field_value(part@) == Some(v@),
        r is None ==> field_value(part@) is None,
{
    match find_char(part, '=', 0) {
        None => None,
        Some(k) => {
            proof {
                lemma_find_char_from(part@, '=', 0);
            }
            let n = part.len();
            assert(k < n);
            Some(slice_chars(part, k + 1, n))
        },
    }
}

/// Whether two character slices are equal.
pub fn chars_eq(a: &[char], b: &[char]) -> (r: bool)
    ensures
        r == (a@ == b@),
{
    if a.len() != b.len() {
        return false;
    }
    let mut i: usize = 0;
    while i < a.len()
        invariant
            a@.len() == b@.len(),
            i <= a@.len(),
            forall|k: int| 0 <= k < i ==> a@[k] == b@[k],
        decreases a@.len() - i,
    {
        if a[i] != b[i] {
            return false;
        }
        i = i + 1;
    }
    assert(a@ =~= b@);
    true
}

/// The value of the first field named `key` among `parts`.
pub fn find_first_field(parts: &Vec<Vec<char>>, key: &[char]) -> (r: Option<Vec<char>>)
    ensures
        r matches Some(v) ==> first_field(views(parts@), key@) == Some(v@),
        r is None ==> first_field(views(parts@), key@) is None,
{
    let ghost dv = views(parts@);
    let mut i: usize = 0;
    assert(dv.skip(0) =~= dv);
    while i < parts.len()
        invariant
            i <= parts@.len(),
            dv == views(parts@),
            first_field(dv.skip(i as int), key@) == first_field(dv, key@),
        decreases parts@.len() - i,
    {
        assert(dv.skip(i as int).drop_first() =~= dv.skip(i + 1));
        assert(dv.skip(i as int)[0] == parts[i as int]@);
        let k = key_of(parts[i].as_slice());
        if chars_eq(k.as_slice(), key) {
            match value_of(parts[i].as_slice()) {
                Some(v) => {
                    return Some(v);
                },
                None => {},
            }
        }
        i = i + 1;
    }
    None
}

/// The value of the last field named `key` among `parts`.
pub fn find_last_field(parts: &Vec<Vec<char>>, key: &[char]) -> (r: Option<Vec<char>>)
    ensures
        r matches Some(v) ==> last_field(views(parts@), key@) == Some(v@),
        r is None ==> last_field(views(parts@), key@) is None,
{
    let ghost dv = views(parts@);
    let mut found: Option<Vec<char>> = None;
    let mut i: usize = 0;
    while i < parts.len()
        invariant
            i <= parts@.len(),
            dv == views(parts@),
            found matches Some(v) ==> last_field(dv.take(i as int), key@) == Some(v@),
            found is None ==> last_field(dv.take(i as int), key@) is None,
        decreases parts@.len() - i,
    {
        assert(dv.take(i + 1).drop_last() =~= dv.take(i as int));
        assert(dv.take(i + 1).last() == parts[i as int]@);
        let k = key_of(parts[i].as_slice());
        if chars_eq(k.as_slice(), key) {
            match value_of(parts[i].as_slice()) {
                Some(v) => {
                    found = Some(v);
                },
                None => {},
            }
        }
        i = i + 1;
    }
    assert(dv.take(parts@.len() as int) =~= dv);
    found
}


/// `s` with every trailing `c` removed (`str::trim_end_matches` with a
/// character).
pub open spec fn trim_end_char(s: Seq<char>, c: char) -> Seq<char>
    decreases s.len(),
{
    if s.len() > 0 && s.last() == c {
        trim_end_char(s.drop_last(), c)
    } else {
        s
    }
}

/// `s` with every leading occurrence of the non-empty pattern `p` removed
/// (`str::trim_start_matches`).
pub open spec fn trim_start_seq(s: Seq<char>, p: Seq<char>) -> Seq<char>
    decreases s.len(),
{
    if p.len() > 0 && s.len() >= p.len() && s.take(p.len() as int) == p {
        trim_start_seq(s.skip(p.len() as int), p)
    } else {
        s
    }
}

/// `str::trim_end_matches` with a character.
pub fn trim_end_matches_char(s: &str, c: char) -> (r: String)
    ensures
        r@ == trim_end_char(s@, c),
{
    let cs = chars_of(s);
    let mut n = cs.len();
    assert(cs@.take(n as int) =~= cs@);
    while n > 0 && cs[n - 1] == c
        invariant
            n <= cs@.len(),
            trim_end_char(cs@.take(n as int), c) == trim_end_char(s@, c),
            cs@ == s@,
        decreases n,
    {
        assert(cs@.take(n as int).drop_last() =~= cs@.take(n - 1));
        n = n - 1;
    }
    let head = slice_chars(cs.as_slice(), 0, n);
    assert(head@ =~= cs@.take(n as int));
    string_of(head.as_slice())
}

/// `str::trim_start_matches` with a non-empty string pattern.
pub fn trim_start_matches_seq(s: &str, p: &[char]) -> (r: String)
    requires
        p@.len() > 0,
    ensures
        r@ == trim_start_seq(s@, p@),
{
    let cs = chars_of(s);
    let n = cs.len();
    let mut i: usize = 0;
    assert(cs@.skip(0) =~= cs@);
    while matches_at(cs.as_slice(), p, i)
        invariant
            i <= cs@.len(),
            n == cs@.len(),
            cs@ == s@,
            p@.len() > 0,
            trim_start_seq(cs@.skip(i as int), p@) == trim_start_seq(s@, p@),
        decreases cs@.len() - i,
    {
        let ghost t = cs@.skip(i as int);
        assert(t.take(p@.len() as int) =~= cs@.subrange(i as int, i + p@.len()));
        assert(t.skip(p@.len() as int) =~= cs@.skip(i + p@.len()));
        i = i + p.len();
    }
    proof {
        let t = cs@.skip(i as int);
        if p@.len() <= t.len() {
            assert(t.take(p@.len() as int) =~= cs@.subrange(i as int, i + p@.len()));
        }
    }
    let rest = slice_chars(cs.as_slice(), i, cs.len());
    assert(rest@ =~= cs@.skip(i as int));
    string_of(rest.as_slice())
}

/// `s` with `&`, `<` and `>` replaced by their HTML entities.
pub open spec fn html_escaped(s: Seq<char>) -> Seq<char>
    decreases s.len(),
{
    if s.len() == 0 {
        Seq::empty()
    } else {
        html_escaped(s.drop_last()) + if s.last() == '&' {
            seq!['&', 'a', 'm', 'p', ';']
        } else if s.last() == '<' {
            seq!['&', 'l', 't', ';']
        } else if s.last() == '>' {
            seq!['&', 'g', 't', ';']
        } else {
            seq![s.last()]
        }
    }
}

/// Replaces `&`, `<` and `>` by `&amp;`, `&lt;` and `&gt;`.
pub fn escape_html(s: &str) -> (r: String)
    ensures
        r@ == html_escaped(s@),
{
    let cs = chars_of(s);
    let mut out = String::new();
    let mut i: usize = 0;
    assert(cs@.take(0) =~= Seq::<char>::empty());
    while i < cs.len()
        invariant
            i <= cs@.len(),
            cs@ == s@,
            out@ == html_escaped(cs@.take(i as int)),
        decreases cs@.len() - i,
    {
        let c = cs[i];
        let ghost before = out@;
        assert(cs@.take(i + 1).drop_last() =~= cs@.take(i as int));
        assert(cs@.take(i + 1).last() == c);
        if c == '&' {
            let rep: Vec<char> = vec!['&', 'a', 'm', 'p', ';'];
            push_chars(&mut out, rep.as_slice());
            assert(rep@ =~= seq!['&', 'a', 'm', 'p', ';']);
        } else if c == '<' {
            let rep: Vec<char> = vec!['&', 'l', 't', ';'];
            push_chars(&mut out, rep.as_slice());
            assert(rep@ =~= seq!['&', 'l', 't', ';']);
        } else if c == '>' {
            let rep: Vec<char> = vec!['&', 'g', 't', ';'];
            push_chars(&mut out, rep.as_slice());
            assert(rep@ =~= seq!['&', 'g', 't', ';']);
        } else {
            push_char(&mut out, c);
            assert(before.push(c) =~= before + seq![c]);
        }
        i = i + 1;
    }
    assert(cs@.take(cs@.len() as int) =~= cs@);
    out
}

/// Builds a `String` from a character vector literal.
pub fn string_from_chars(cs: Vec<char>) -> (s: String)
    ensures
        s@ == cs@,
{
    string_of(cs.as_slice())
}


/// `s` with every trailing occurrence of the non-empty pattern `p` removed
/// (`str::trim_end_matches`).
pub open spec fn trim_end_seq(s: Seq<char>, p: Seq<char>) -> Seq<char>
    decreases s.len(),
{
    if p.len() > 0 && s.len() >= p.len() && s.skip(s.len() - p.len()) == p {
        trim_end_seq(s.take(s.len() - p.len()), p)
    } else {
        s
    }
}

/// `str::trim_end_matches` with a non-empty string pattern.
pub fn trim_end_matches_seq(s: &str, p: &[char]) -> (r: String)
    requires
        p@.len() > 0,
    ensures
        r@ == trim_end_seq(s@, p@),
{
    let cs = chars_of(s);
    let mut n = cs.len();
    assert(cs@.take(n as int) =~= cs@);
    while n >= p.len() && matches_at(cs.as_slice(), p, n - p.len())
        invariant
            n <= cs@.len(),
            cs@ == s@,
            p@.len() > 0,
            trim_end_seq(cs@.take(n as int), p@) == trim_end_seq(s@, p@),
        decreases n,
    {
        let ghost t = cs@.take(n as int);
        assert(t.skip(t.len() - p@.len()) =~= cs@.subrange(n - p@.len(), n as int));
        assert(t.take(t.len() - p@.len()) =~= cs@.take(n - p@.len()));
        n = n - p.len();
    }
    proof {
        let t = cs@.take(n as int);
        if n >= p@.len() {
            assert(t.skip(t.len() - p@.len()) =~= cs@.subrange(n - p@.len(), n as int));
        }
    }
    let head = slice_chars(cs.as_slice(), 0, n);
    assert(head@ =~= cs@.take(n as int));
    string_of(head.as_slice())
}

/// Whether `p` occurs anywhere in `s`.
pub open spec fn contains_seq(s: Seq<char>, p: Seq<char>) -> bool {
    exists|i: int| #[trigger] occurs_at(s, p, i)
}

/// Whether `p` occurs anywhere in `s` (`str::contains`).
pub fn contains_str(s: &[char], p: &[char]) -> (r: bool)
    ensures
        r == contains_seq(s@, p@),
{
    match find_seq(s, p, 0) {
        Some(k) => {
            proof {
                lemma_find_from(s@, p@, 0);
            }
            true
        },
        None => {
            proof {
                lemma_find_from(s@, p@, 0);
            }
            false
        },
    }
}

} // verus!
