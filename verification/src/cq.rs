//! OneBot v11 CQ codes: reply markers, image blocks, and stripping of all
//! `[CQ:...]` blocks from message text.

use vstd::prelude::*;

use crate::message::Attachment;
use crate::text::{
    chars_of, find_char, find_char_from, find_first_field, find_from, find_last_field,
    find_seq, first_field, last_field, lemma_find_char_from, lemma_find_from, matches_at,
    occurs_at, slice_chars, split_chars, split_on, string_of, trim_chars, trimmed,
};

verus! {

/// `[CQ:reply,`
pub open spec fn reply_marker() -> Seq<char> {
    seq!['[', 'C', 'Q', ':', 'r', 'e', 'p', 'l', 'y', ',']
}

/// `[CQ:image,`
pub open spec fn image_marker() -> Seq<char> {
    seq!['[', 'C', 'Q', ':', 'i', 'm', 'a', 'g', 'e', ',']
}

/// Whether a CQ block (`[CQ:`) opens at index `i`.
pub open spec fn cq_open_at(c: Seq<char>, i: int) -> bool {
    0 <= i && i + 4 <= c.len() && c[i] == '[' && c[i + 1] == 'C' && c[i + 2] == 'Q' && c[i + 3]
        == ':'
}

/// Scanning forward from `i` with `depth` unclosed brackets, the index just
/// past the bracket that closes the block (or the end of the text).
pub open spec fn skip_block(c: Seq<char>, i: int, depth: nat) -> int
    decreases c.len() - i,
{
    if i < 0 || i >= c.len() || depth == 0 {
        i
    } else if c[i] == '[' {
        skip_block(c, i + 1, depth + 1)
    } else if c[i] == ']' {
        skip_block(c, i + 1, (depth - 1) as nat)
    } else {
        skip_block(c, i + 1, depth)
    }
}

pub proof fn lemma_skip_block_bounds(c: Seq<char>, i: int, depth: nat)
    requires
        0 <= i,
    ensures
        i <= skip_block(c, i, depth),
        skip_block(c, i, depth) <= if i <= c.len() { c.len() as int } else { i },
    decreases c.len() - i,
{
    if i < c.len() && depth != 0 {
        if c[i] == '[' {
            lemma_skip_block_bounds(c, i + 1, depth + 1);
        } else if c[i] == ']' {
            lemma_skip_block_bounds(c, i + 1, (depth - 1) as nat);
        } else {
            lemma_skip_block_bounds(c, i + 1, depth);
        }
    }
}

/// The text from index `i` on with every CQ block removed.
pub open spec fn strip_from(c: Seq<char>, i: int) -> Seq<char>
    decreases c.len() - i,
{
    if i < 0 || i >= c.len() {
        Seq::empty()
    } else if cq_open_at(c, i) {
        let e = skip_block(c, i + 4, 1);
        if i < e <= c.len() {
            strip_from(c, e)
        } else {
            Seq::empty()
        }
    } else {
        seq![c[i]] + strip_from(c, i + 1)
    }
}

/// What `strip_cq_codes` returns: the text without CQ blocks, trimmed.
pub open spec fn stripped(m: Seq<char>) -> Seq<char> {
    trimmed(strip_from(m, 0))
}

/// Runs the block scanner from `j` with `depth` open brackets.
fn skip_block_exec(c: &[char], j: usize, depth: usize) -> (r: usize)
    requires
        j <= c@.len(),
        depth <= j,
    ensures
        r == skip_block(c@, j as int, depth as nat),
        j <= r <= c@.len(),
{
    let mut i = j;
    let mut d = depth;
    proof {
        lemma_skip_block_bounds(c@, j as int, depth as nat);
    }
    while i < c.len() && d > 0
        invariant
            j <= i <= c@.len(),
            d <= i,
            skip_block(c@, i as int, d as nat) == skip_block(c@, j as int, depth as nat),
        decreases c@.len() - i,
    {
        if c[i] == '[' {
            d = d + 1;
        } else if c[i] == ']' {
            d = d - 1;
        }
        i = i + 1;
    }
    i
}

/// Removes every `[CQ:...]` block (with nested brackets) and trims the result.
pub fn strip_cq_codes(msg: &str) -> (r: String)
    ensures
        r@ == stripped(msg@),
{
    let chars = chars_of(msg);
    let c = chars.as_slice();
    let mut result: Vec<char> = Vec::new();
    let mut i: usize = 0;
    assert(result@ + strip_from(c@, 0) =~= strip_from(c@, 0));
    while i < c.len()
        invariant
            i <= c@.len(),
            result@ + strip_from(c@, i as int) == strip_from(c@, 0),
        decreases c@.len() - i,
    {
        if c.len() - i >= 4 && c[i] == '[' && c[i + 1] == 'C' && c[i + 2] == 'Q' && c[i + 3]
            == ':' {
            let e = skip_block_exec(c, i + 4, 1);
            proof {
                lemma_skip_block_bounds(c@, i + 4, 1);
            }
            i = e;
        } else {
            let ghost before = result@;
            result.push(c[i]);
            assert(result@ + strip_from(c@, i + 1) =~= before + strip_from(c@, i as int));
            i = i + 1;
        }
    }
    assert(result@ =~= strip_from(c@, 0));
    let t = trim_chars(result.as_slice());
    string_of(t.as_slice())
}

/// The reply target named by the first `[CQ:reply,...]` code.
pub open spec fn reply_id_of(m: Seq<char>) -> Option<Seq<char>> {
    match find_from(m, reply_marker(), 0) {
        None => None,
        Some(k) => match find_char_from(m, ']', k) {
            None => None,
            Some(e) => match first_field(split_on(m.subrange(k + 10, e), ','), seq!['i', 'd']) {
                None => None,
                Some(v) => Some(trimmed(v)),
            },
        },
    }
}

/// Extracts the reply target message ID from a `[CQ:reply,id=<id>]` code.
/// OneBot v11 encodes reply info as a CQ code inside the message body.
pub fn extract_reply_id(msg: &str) -> (r: Option<String>)
    ensures
        r matches Some(s) ==> reply_id_of(msg@) == Some(s@),
        r is None ==> reply_id_of(msg@) is None,
{
    let chars = chars_of(msg);
    let c = chars.as_slice();
    let marker: Vec<char> = vec!['[', 'C', 'Q', ':', 'r', 'e', 'p', 'l', 'y', ','];
    assert(marker@ =~= reply_marker());
    let k = match find_seq(c, marker.as_slice(), 0) {
        None => {
            return None;
        },
        Some(k) => k,
    };
    proof {
        lemma_find_from(c@, reply_marker(), 0);
    }
    let e = match find_char(c, ']', k) {
        None => {
            return None;
        },
        Some(e) => e,
    };
    proof {
        lemma_find_char_from(c@, ']', k as int);
        if e < k + 10 {
            assert(c@.subrange(k as int, k + 10)[e - k] == reply_marker()[e - k]);
            assert(c@[e as int] != ']');
        }
    }
    let inner = slice_chars(c, k + 10, e);
    let parts = split_chars(inner.as_slice(), ',');
    let key: Vec<char> = vec!['i', 'd'];
    assert(key@ =~= seq!['i', 'd']);
    match find_first_field(&parts, key.as_slice()) {
        None => None,
        Some(v) => {
            let t = trim_chars(v.as_slice());
            Some(string_of(t.as_slice()))
        },
    }
}

/// Whether `[CQ:image,` opens at index `i`.
pub open spec fn image_open_at(c: Seq<char>, i: int) -> bool {
    occurs_at(c, image_marker(), i)
}

/// The image URLs of the `[CQ:image,...]` blocks from index `i` on, in order.
/// `None` when the scan meets an image marker that ends the text, where the
/// block's inner range would be empty and reversed.
pub open spec fn image_urls_from(c: Seq<char>, i: int) -> Option<Seq<Seq<char>>>
    decreases c.len() - i,
{
    if i < 0 || i >= c.len() {
        Some(Seq::empty())
    } else if image_open_at(c, i) {
        let e = skip_block(c, i + 10, 1);
        if e - 1 < i + 10 || e > c.len() {
            None
        } else {
            match image_urls_from(c, e) {
                None => None,
                Some(rest) => match last_field(
                    split_on(c.subrange(i + 10, e - 1), ','),
                    seq!['u', 'r', 'l'],
                ) {
                    Some(u) => Some(seq![trimmed(u)] + rest),
                    None => Some(rest),
                },
            }
        }
    } else {
        image_urls_from(c, i + 1)
    }
}

/// The image URLs of all `[CQ:image,...]` blocks in `m`.
pub open spec fn image_urls(m: Seq<char>) -> Option<Seq<Seq<char>>> {
    image_urls_from(m, 0)
}

/// The attachment built for a CQ image with URL `u`.
pub open spec fn is_cq_image(a: Attachment, u: Seq<char>) -> bool {
    &&& a.url matches Some(x) && x@ == u
    &&& a.data is None
    &&& a.filename@ == "image.jpg"@
    &&& a.content_type matches Some(t) && t@ == "image/jpeg"@
}

/// The attachments `atts` are the CQ images with URLs `urls`, in order.
pub open spec fn are_cq_images(atts: Seq<Attachment>, urls: Seq<Seq<char>>) -> bool {
    &&& atts.len() == urls.len()
    &&& forall|k: int| 0 <= k < atts.len() ==> #[trigger] is_cq_image(atts[k], urls[k])
}

/// The attachment for a CQ image with the given URL.
pub fn cq_image(url: String) -> (a: Attachment)
    ensures
        is_cq_image(a, url@),
{
    Attachment {
        url: Some(url),
        filename: String::from_str("image.jpg"),
        content_type: Some(String::from_str("image/jpeg")),
        data: None,
    }
}

/// Extracts `[CQ:image,...]` blocks and returns their `url` fields as
/// attachments; `None` exactly where the block scan fails (an image marker
/// that ends the text).
pub fn try_extract_images(msg: &str) -> (r: Option<Vec<Attachment>>)
    ensures
        r matches Some(v) ==> image_urls(msg@) matches Some(us) && are_cq_images(v@, us),
        r is None ==> image_urls(msg@) is None,
{
    let chars = chars_of(msg);
    let c = chars.as_slice();
    let marker: Vec<char> = vec!['[', 'C', 'Q', ':', 'i', 'm', 'a', 'g', 'e', ','];
    assert(marker@ =~= image_marker());
    let url_key: Vec<char> = vec!['u', 'r', 'l'];
    assert(url_key@ =~= seq!['u', 'r', 'l']);
    let mut images: Vec<Attachment> = Vec::new();
    let ghost mut urls: Seq<Seq<char>> = Seq::empty();
    let mut i: usize = 0;
    while i < c.len()
        invariant
            i <= c@.len(),
            c@ == msg@,
            marker@ == image_marker(),
            url_key@ == seq!['u', 'r', 'l'],
            are_cq_images(images@, urls),
            image_urls_from(c@, 0) == match image_urls_from(c@, i as int) {
                None => None::<Seq<Seq<char>>>,
                Some(rest) => Some(urls + rest),
            },
        decreases c@.len() - i,
    {
        if matches_at(c, marker.as_slice(), i) {
            let e = skip_block_exec(c, i + 10, 1);
            proof {
                lemma_skip_block_bounds(c@, i + 10, 1);
            }
            if e - 1 < i + 10 {
                assert(image_urls_from(c@, i as int) is None);
                assert(image_urls_from(c@, 0) is None);
                assert(c@ == msg@);
                return None;
            }
            let inner = slice_chars(c, i + 10, e - 1);
            let parts = split_chars(inner.as_slice(), ',');
            let found = find_last_field(&parts, url_key.as_slice());
            match found {
                Some(u) => {
                    let t = trim_chars(u.as_slice());
                    let a = cq_image(string_of(t.as_slice()));
                    let ghost old_urls = urls;
                    let ghost old_images = images@;
                    images.push(a);
                    proof {
                        urls = urls.push(t@);
                        assert(urls =~= old_urls + seq![t@]);
                        assert forall|k: int| 0 <= k < images@.len() implies #[trigger] is_cq_image(
                            images@[k],
                            urls[k],
                        ) by {
                            if k < old_images.len() {
                                assert(images@[k] == old_images[k]);
                                assert(is_cq_image(old_images[k], old_urls[k]));
                            }
                        }
                        match image_urls_from(c@, e as int) {
                            None => {},
                            Some(rest) => {
                                assert(old_urls + (seq![t@] + rest) =~= urls + rest);
                            },
                        }
                    }
                },
                None => {},
            }
            i = e;
        } else {
            i = i + 1;
        }
    }
    assert(urls + Seq::<Seq<char>>::empty() =~= urls);
    Some(images)
}

/// Extracts `[CQ:image,...]` blocks and returns their `url` fields as
/// attachments, in order of appearance (the last `url` field of a block wins).
pub fn extract_images(msg: &str) -> (r: Vec<Attachment>)
    requires
        image_urls(msg@) is Some,
    ensures
        image_urls(msg@) matches Some(us) && are_cq_images(r@, us),
{
    match try_extract_images(msg) {
        Some(v) => v,
        None => Vec::new(),
    }
}

} // verus!
