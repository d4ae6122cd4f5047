//! Matrix specifics: display names of user IDs, media URLs, image types and
//! file names of uploads, the HTML form of message text, and the decision
//! what to do with an event from a room's timeline.

use vstd::prelude::*;

use crate::bridge::{any_matrix, last_matrix, Bridges};
use crate::message::{opt_view, Attachment, Platform};
use crate::outgoing::{copy_bytes, fetched_view, header, header_of, kept, with_placeholders};
use crate::text::{
    chars_eq, chars_of, contains_char, find_char, find_char_from, find_seq, html_escaped,
    escape_html, lemma_find_char_from, push_char, push_chars, push_str, slice_chars,
    string_of, trim_end_char, trim_end_matches_char,
};

verus! {

/// A Matrix user ID shortened for display: `@alice:matrix.org` becomes
/// `alice`; IDs without the leading `@` are kept.
pub open spec fn display_name_of(user_id: Seq<char>) -> Seq<char> {
    if user_id.len() > 0 && user_id[0] == '@' {
        let s = user_id.drop_first();
        match find_char_from(s, ':', 0) {
            Some(k) => s.take(k),
            None => s,
        }
    } else {
        user_id
    }
}

/// Strips the homeserver suffix from a Matrix user ID for display.
pub fn display_name(user_id: &str) -> (r: String)
    ensures
        r@ == display_name_of(user_id@),
{
    let cs = chars_of(user_id);
    if cs.len() > 0 && cs[0] == '@' {
        let rest = slice_chars(cs.as_slice(), 1, cs.len());
        assert(rest@ =~= user_id@.drop_first());
        match find_char(rest.as_slice(), ':', 0) {
            Some(k) => {
                proof {
                    lemma_find_char_from(rest@, ':', 0);
                }
                let head = slice_chars(rest.as_slice(), 0, k);
                string_of(head.as_slice())
            },
            None => string_of(rest.as_slice()),
        }
    } else {
        string_of(cs.as_slice())
    }
}

/// `/_matrix/media/v3/download/`
pub open spec fn download_path() -> Seq<char> {
    seq![
        '/', '_', 'm', 'a', 't', 'r', 'i', 'x', '/', 'm', 'e', 'd', 'i', 'a', '/', 'v', '3', '/',
        'd', 'o', 'w', 'n', 'l', 'o', 'a', 'd', '/',
    ]
}

/// `mxc://`
pub open spec fn mxc_scheme() -> Seq<char> {
    seq!['m', 'x', 'c', ':', '/', '/']
}

/// The download URL of an `mxc://server/media` URI on the homeserver.
pub open spec fn mxc_url_of(homeserver: Seq<char>, mxc: Seq<char>) -> Option<Seq<char>> {
    if mxc.len() >= 6 && mxc.take(6) == mxc_scheme() {
        let rest = mxc.skip(6);
        match find_char_from(rest, '/', 0) {
            Some(k) => Some(
                trim_end_char(homeserver, '/') + download_path() + rest.take(k) + seq!['/']
                    + rest.skip(k + 1),
            ),
            None => None,
        }
    } else {
        None
    }
}

/// Builds a download URL for an `mxc://` URI.
pub fn mxc_download_url(homeserver_url: &str, mxc: &str) -> (r: Option<String>)
    ensures
        opt_view(r) == mxc_url_of(homeserver_url@, mxc@),
{
    let cs = chars_of(mxc);
    let scheme: Vec<char> = vec!['m', 'x', 'c', ':', '/', '/'];
    if cs.len() < 6 {
        return None;
    }
    let head = slice_chars(cs.as_slice(), 0, 6);
    assert(head@ =~= mxc@.take(6));
    assert(scheme@ =~= mxc_scheme());
    if !chars_eq(head.as_slice(), scheme.as_slice()) {
        return None;
    }
    let rest = slice_chars(cs.as_slice(), 6, cs.len());
    assert(rest@ =~= mxc@.skip(6));
    match find_char(rest.as_slice(), '/', 0) {
        None => None,
        Some(k) => {
            proof {
                lemma_find_char_from(rest@, '/', 0);
            }
            let server = slice_chars(rest.as_slice(), 0, k);
            let media = slice_chars(rest.as_slice(), k + 1, rest.len());
            let mut url = trim_end_matches_char(homeserver_url, '/');
            let path: Vec<char> = vec![
                '/', '_', 'm', 'a', 't', 'r', 'i', 'x', '/', 'm', 'e', 'd', 'i', 'a', '/', 'v',
                '3', '/', 'd', 'o', 'w', 'n', 'l', 'o', 'a', 'd', '/',
            ];
            assert(path@ =~= download_path());
            push_chars(&mut url, path.as_slice());
            push_chars(&mut url, server.as_slice());
            push_char(&mut url, '/');
            push_chars(&mut url, media.as_slice());
            assert(rest@.skip(k + 1) =~= media@);
            assert(url@ =~= trim_end_char(homeserver_url@, '/') + download_path() + rest@.take(
                k as int,
            ) + seq!['/'] + rest@.skip(k + 1));
            Some(url)
        },
    }
}

/// The image types the bridge recognises.
#[derive(Debug, Clone, Copy, PartialEq, Eq, Structural)]
pub enum ImageKind {
    Png,
    Gif,
    Webp,
    Bmp,
    Jpeg,
}

/// The MIME type of an image kind.
pub open spec fn mime_of(k: ImageKind) -> Seq<char> {
    let image = seq!['i', 'm', 'a', 'g', 'e', '/'];
    image + match k {
        ImageKind::Png => seq!['p', 'n', 'g'],
        ImageKind::Gif => seq!['g', 'i', 'f'],
        ImageKind::Webp => seq!['w', 'e', 'b', 'p'],
        ImageKind::Bmp => seq!['b', 'm', 'p'],
        ImageKind::Jpeg => seq!['j', 'p', 'e', 'g'],
    }
}

/// The MIME type of an image kind.
pub fn mime_str(k: ImageKind) -> (r: String)
    ensures
        r@ == mime_of(k),
{
    let tail: Vec<char> = match k {
        ImageKind::Png => vec!['p', 'n', 'g'],
        ImageKind::Gif => vec!['g', 'i', 'f'],
        ImageKind::Webp => vec!['w', 'e', 'b', 'p'],
        ImageKind::Bmp => vec!['b', 'm', 'p'],
        ImageKind::Jpeg => vec!['j', 'p', 'e', 'g'],
    };
    let mut s = string_of(vec!['i', 'm', 'a', 'g', 'e', '/'].as_slice());
    push_chars(&mut s, tail.as_slice());
    assert(s@ =~= mime_of(k));
    s
}

/// The text after the last `.` of a file name (all of it without a dot).
pub open spec fn extension_of(name: Seq<char>) -> Seq<char>
    decreases name.len(),
{
    if name.len() == 0 {
        name
    } else if name.last() == '.' {
        Seq::empty()
    } else {
        extension_of(name.drop_last()).push(name.last())
    }
}

/// ASCII lower case (other characters unchanged).
pub open spec fn ascii_lower(c: char) -> char {
    if 'A' <= c && c <= 'Z' {
        ((c as u32) + 32) as char
    } else {
        c
    }
}

/// Whether `s`, lower-cased, equals the lower-case ASCII word `w`. As `w` is
/// ASCII, this decides the same as comparing `s.to_lowercase()` with `w`.
pub open spec fn lower_eq(s: Seq<char>, w: Seq<char>) -> bool {
    s.len() == w.len() && forall|i: int| 0 <= i < s.len() ==> ascii_lower(#[trigger] s[i]) == w[i]
}

/// The image kind read from the file name's extension, if it names one.
pub open spec fn kind_by_extension(name: Seq<char>) -> Option<ImageKind> {
    let e = extension_of(name);
    if lower_eq(e, seq!['p', 'n', 'g']) {
        Some(ImageKind::Png)
    } else if lower_eq(e, seq!['g', 'i', 'f']) {
        Some(ImageKind::Gif)
    } else if lower_eq(e, seq!['w', 'e', 'b', 'p']) {
        Some(ImageKind::Webp)
    } else if lower_eq(e, seq!['b', 'm', 'p']) {
        Some(ImageKind::Bmp)
    } else {
        None
    }
}

/// Whether `data` starts with the bytes `m`.
pub open spec fn starts_with_bytes(data: Seq<u8>, m: Seq<u8>) -> bool {
    data.len() >= m.len() && data.take(m.len() as int) == m
}

/// The image kind read from the leading bytes; JPEG when none matches.
pub open spec fn kind_by_magic(data: Seq<u8>) -> ImageKind {
    if starts_with_bytes(data, seq![0xFFu8, 0xD8u8, 0xFFu8]) {
        ImageKind::Jpeg
    } else if starts_with_bytes(data, seq![0x89u8, 0x50u8, 0x4Eu8, 0x47u8]) {
        ImageKind::Png
    } else if starts_with_bytes(data, seq![0x47u8, 0x49u8, 0x46u8, 0x38u8]) {
        ImageKind::Gif
    } else if starts_with_bytes(data, seq![0x52u8, 0x49u8, 0x46u8, 0x46u8]) {
        ImageKind::Webp
    } else {
        ImageKind::Jpeg
    }
}

/// The guessed image kind: by extension first, then by leading bytes.
pub open spec fn guessed_kind(data: Seq<u8>, name: Seq<char>) -> ImageKind {
    match kind_by_extension(name) {
        Some(k) => k,
        None => kind_by_magic(data),
    }
}

fn extension(name: &[char]) -> (r: Vec<char>)
    ensures
        r@ == extension_of(name@),
{
    let mut k = name.len();
    assert(name@.take(k as int) =~= name@);
    assert(name@.subrange(k as int, k as int) =~= Seq::<char>::empty());
    assert(extension_of(name@) + Seq::<char>::empty() =~= extension_of(name@));
    while k > 0 && name[k - 1] != '.'
        invariant
            k <= name@.len(),
            extension_of(name@) == extension_of(name@.take(k as int)) + name@.subrange(
                k as int,
                name@.len() as int,
            ),
        decreases k,
    {
        let ghost t = name@.take(k as int);
        assert(t.drop_last() =~= name@.take(k - 1));
        assert(t.last() == name@[k - 1]);
        assert(extension_of(t) == extension_of(name@.take(k - 1)).push(name@[k - 1]));
        assert(extension_of(name@.take(k - 1)).push(name@[k - 1]) + name@.subrange(
            k as int,
            name@.len() as int,
        ) =~= extension_of(name@.take(k - 1)) + name@.subrange(k - 1, name@.len() as int));
        k = k - 1;
    }
    proof {
        let t = name@.take(k as int);
        if k > 0 {
            assert(t.last() == '.');
        } else {
            assert(t =~= Seq::<char>::empty());
        }
        assert(extension_of(t) =~= Seq::<char>::empty());
    }
    let r = slice_chars(name, k, name.len());
    assert(Seq::<char>::empty() + name@.subrange(k as int, name@.len() as int) =~= r@);
    r
}

fn lower_equals(s: &[char], w: &[char]) -> (r: bool)
    ensures
        r == lower_eq(s@, w@),
{
    if s.len() != w.len() {
        return false;
    }
    let mut i: usize = 0;
    while i < s.len()
        invariant
            s@.len() == w@.len(),
            i <= s@.len(),
            forall|j: int| 0 <= j < i ==> ascii_lower(#[trigger] s@[j]) == w@[j],
        decreases s@.len() - i,
    {
        let c = s[i];
        let l = if 'A' <= c && c <= 'Z' {
            ((c as u32) + 32) as u8 as char
        } else {
            c
        };
        assert(l == ascii_lower(c)) by {
            if 'A' <= c && c <= 'Z' {
                assert(((c as u32) + 32) as u8 as char == ((c as u32) + 32) as char);
            }
        }
        if l != w[i] {
            return false;
        }
        i = i + 1;
    }
    true
}

fn starts_with(data: &[u8], m: &[u8]) -> (r: bool)
    ensures
        r == starts_with_bytes(data@, m@),
{
    if data.len() < m.len() {
        return false;
    }
    let mut i: usize = 0;
    while i < m.len()
        invariant
            data@.len() >= m@.len(),
            i <= m@.len(),
            forall|j: int| 0 <= j < i ==> data@[j] == m@[j],
        decreases m@.len() - i,
    {
        if data[i] != m[i] {
            assert(data@.take(m@.len() as int)[i as int] != m@[i as int]);
            return false;
        }
        i = i + 1;
    }
    assert(data@.take(m@.len() as int) =~= m@);
    true
}

/// Guesses an image's kind from its file name, then from its bytes.
pub fn guess_kind(data: &[u8], filename: &str) -> (r: ImageKind)
    ensures
        r == guessed_kind(data@, filename@),
{
    let name = chars_of(filename);
    let e = extension(name.as_slice());
    let png: Vec<char> = vec!['p', 'n', 'g'];
    let gif: Vec<char> = vec!['g', 'i', 'f'];
    let webp: Vec<char> = vec!['w', 'e', 'b', 'p'];
    let bmp: Vec<char> = vec!['b', 'm', 'p'];
    assert(png@ =~= seq!['p', 'n', 'g']);
    assert(gif@ =~= seq!['g', 'i', 'f']);
    assert(webp@ =~= seq!['w', 'e', 'b', 'p']);
    assert(bmp@ =~= seq!['b', 'm', 'p']);
    if lower_equals(e.as_slice(), png.as_slice()) {
        return ImageKind::Png;
    }
    if lower_equals(e.as_slice(), gif.as_slice()) {
        return ImageKind::Gif;
    }
    if lower_equals(e.as_slice(), webp.as_slice()) {
        return ImageKind::Webp;
    }
    if lower_equals(e.as_slice(), bmp.as_slice()) {
        return ImageKind::Bmp;
    }
    let jpeg_magic: Vec<u8> = vec![0xFFu8, 0xD8u8, 0xFFu8];
    let png_magic: Vec<u8> = vec![0x89u8, 0x50u8, 0x4Eu8, 0x47u8];
    let gif_magic: Vec<u8> = vec![0x47u8, 0x49u8, 0x46u8, 0x38u8];
    let riff_magic: Vec<u8> = vec![0x52u8, 0x49u8, 0x46u8, 0x46u8];
    assert(jpeg_magic@ =~= seq![0xFFu8, 0xD8u8, 0xFFu8]);
    assert(png_magic@ =~= seq![0x89u8, 0x50u8, 0x4Eu8, 0x47u8]);
    assert(gif_magic@ =~= seq![0x47u8, 0x49u8, 0x46u8, 0x38u8]);
    assert(riff_magic@ =~= seq![0x52u8, 0x49u8, 0x46u8, 0x46u8]);
    if starts_with(data, jpeg_magic.as_slice()) {
        ImageKind::Jpeg
    } else if starts_with(data, png_magic.as_slice()) {
        ImageKind::Png
    } else if starts_with(data, gif_magic.as_slice()) {
        ImageKind::Gif
    } else if starts_with(data, riff_magic.as_slice()) {
        ImageKind::Webp
    } else {
        ImageKind::Jpeg
    }
}

/// Guesses an image's MIME type from its file name, then from its bytes.
pub fn guess_mime(data: &[u8], filename: &str) -> (r: String)
    ensures
        r@ == mime_of(guessed_kind(data@, filename@)),
{
    mime_str(guess_kind(data, filename))
}

/// The MIME type sent for an upload: the attachment's own type when it is
/// non-empty and contains `/`, the guessed one otherwise.
pub open spec fn upload_mime(content_type: Option<Seq<char>>, data: Seq<u8>, name: Seq<char>) -> Seq<char> {
    match content_type {
        Some(t) => if t.len() > 0 && t.contains('/') {
            t
        } else {
            mime_of(guessed_kind(data, name))
        },
        None => mime_of(guessed_kind(data, name)),
    }
}

/// The extension added to a file name without one, by MIME type.
pub open spec fn extension_for(mime: Seq<char>) -> Seq<char> {
    if mime == mime_of(ImageKind::Png) {
        seq!['p', 'n', 'g']
    } else if mime == mime_of(ImageKind::Gif) {
        seq!['g', 'i', 'f']
    } else if mime == mime_of(ImageKind::Webp) {
        seq!['w', 'e', 'b', 'p']
    } else {
        seq!['j', 'p', 'g']
    }
}

/// The file name sent for an upload: kept when it contains `.`, otherwise
/// given the extension of its MIME type.
pub open spec fn upload_name(name: Seq<char>, mime: Seq<char>) -> Seq<char> {
    if name.contains('.') {
        name
    } else {
        name + seq!['.'] + extension_for(mime)
    }
}

/// One image uploaded to a Matrix room.
pub struct MatrixImage {
    pub data: Vec<u8>,
    pub filename: String,
    pub mime: String,
}

/// The MIME type and file name of an attachment's upload.
pub fn upload_meta(att: &Attachment, data: &[u8]) -> (r: (String, String))
    ensures
        r.0@ == upload_mime(opt_view(att.content_type), data@, att.filename@),
        r.1@ == upload_name(att.filename@, r.0@),
{
    let mime = match &att.content_type {
        Some(t) => {
            let tc = chars_of(t.as_str());
            if tc.len() > 0 && contains_char(tc.as_slice(), '/') {
                t.clone()
            } else {
                guess_mime(data, att.filename.as_str())
            }
        },
        None => guess_mime(data, att.filename.as_str()),
    };
    let name_chars = chars_of(att.filename.as_str());
    let filename = if contains_char(name_chars.as_slice(), '.') {
        att.filename.clone()
    } else {
        let mc = chars_of(mime.as_str());
        let png = mime_str(ImageKind::Png);
        let gif = mime_str(ImageKind::Gif);
        let webp = mime_str(ImageKind::Webp);
        let ext: Vec<char> = if mime == png {
            vec!['p', 'n', 'g']
        } else if mime == gif {
            vec!['g', 'i', 'f']
        } else if mime == webp {
            vec!['w', 'e', 'b', 'p']
        } else {
            vec!['j', 'p', 'g']
        };
        assert(ext@ =~= extension_for(mime@));
        let mut f = att.filename.clone();
        push_char(&mut f, '.');
        push_chars(&mut f, ext.as_slice());
        assert(f@ =~= att.filename@ + seq!['.'] + extension_for(mime@));
        f
    };
    (mime, filename)
}

/// `<strong>` + the escaped text + `</strong>`: the HTML body sent with a
/// message or caption.
pub open spec fn bold_html_of(text: Seq<char>) -> Seq<char> {
    seq!['<', 's', 't', 'r', 'o', 'n', 'g', '>'] + html_escaped(text) + seq![
        '<',
        '/',
        's',
        't',
        'r',
        'o',
        'n',
        'g',
        '>',
    ]
}

/// The HTML body of a message or caption.
pub fn bold_html(text: &str) -> (r: String)
    ensures
        r@ == bold_html_of(text@),
{
    let mut s = string_of(vec!['<', 's', 't', 'r', 'o', 'n', 'g', '>'].as_slice());
    let e = escape_html(text);
    push_str(&mut s, e.as_str());
    push_chars(&mut s, vec!['<', '/', 's', 't', 'r', 'o', 'n', 'g', '>'].as_slice());
    assert(s@ =~= bold_html_of(text@));
    s
}

/// What is sent to a Matrix room.
pub struct MatrixOutgoing {
    pub text: String,
    pub images: Vec<MatrixImage>,
}

/// The copy for a Matrix room: the header (the sender shown by display name)
/// with a placeholder per image that could not be fetched, and the fetched
/// images with their upload MIME types and file names.
pub fn compose_matrix(
    source: Platform,
    name: &str,
    content: &str,
    atts: &[Attachment],
    fetched: &[Option<Vec<u8>>],
) -> (r: MatrixOutgoing)
    requires
        source != Platform::Matrix,
        atts@.len() == fetched@.len(),
    ensures
        r.text@ == with_placeholders(
            header_of(Platform::Matrix, source, display_name_of(name@), content@),
            fetched_view(fetched@),
        ),
        r.images@.len() == kept(atts@, fetched_view(fetched@)).len(),
        forall|k: int| 0 <= k < r.images@.len() ==> {
            let (d, a) = #[trigger] kept(atts@, fetched_view(fetched@))[k];
            &&& r.images@[k].data@ == d
            &&& r.images@[k].mime@ == upload_mime(opt_view(a.content_type), d, a.filename@)
            &&& r.images@[k].filename@ == upload_name(a.filename@, r.images@[k].mime@)
        },
{
    let shown = display_name(name);
    let (text, _files) = crate::outgoing::compose_with_files(
        Platform::Matrix,
        source,
        shown.as_str(),
        content,
        atts,
        fetched,
    );
    let ghost fv = fetched_view(fetched@);
    let mut images: Vec<MatrixImage> = Vec::new();
    let mut i: usize = 0;
    assert(fv.take(0) =~= Seq::<Option<Seq<u8>>>::empty());
    while i < fetched.len()
        invariant
            i <= fetched@.len(),
            atts@.len() == fetched@.len(),
            fv == fetched_view(fetched@),
            images@.len() == kept(atts@.take(i as int), fv.take(i as int)).len(),
            forall|k: int| 0 <= k < images@.len() ==> {
                let (d, a) = #[trigger] kept(atts@.take(i as int), fv.take(i as int))[k];
                &&& images@[k].data@ == d
                &&& images@[k].mime@ == upload_mime(opt_view(a.content_type), d, a.filename@)
                &&& images@[k].filename@ == upload_name(a.filename@, images@[k].mime@)
            },
        decreases fetched@.len() - i,
    {
        assert(fv.take(i + 1).drop_last() =~= fv.take(i as int));
        assert(fv.take(i + 1).last() == fv[i as int]);
        assert(atts@.take(i + 1).take(i as int) =~= atts@.take(i as int));
        assert(atts@.take(i + 1)[i as int] == atts@[i as int]);
        let ghost k0 = kept(atts@.take(i as int), fv.take(i as int));
        let ghost kp = kept(atts@.take(i + 1), fv.take(i + 1));
        match &fetched[i] {
            Some(bytes) => {
                let (mime, filename) = upload_meta(&atts[i], bytes.as_slice());
                let ghost before = images@;
                images.push(MatrixImage { data: copy_bytes(bytes.as_slice()), filename, mime });
                proof {
                    assert(kp == k0.push((bytes@, atts@[i as int])));
                    assert forall|k: int| 0 <= k < images@.len() implies {
                        let (d, a) = #[trigger] kp[k];
                        &&& images@[k].data@ == d
                        &&& images@[k].mime@ == upload_mime(opt_view(a.content_type), d, a.filename@)
                        &&& images@[k].filename@ == upload_name(a.filename@, images@[k].mime@)
                    } by {
                        if k < before.len() {
                            assert(images@[k] == before[k]);
                            assert(kp[k] == k0[k]);
                        }
                    }
                }
            },
            None => {
                assert(kp == k0);
            },
        }
        i = i + 1;
    }
    assert(fv.take(fetched@.len() as int) =~= fv);
    assert(atts@.take(fetched@.len() as int) =~= atts@);
    MatrixOutgoing { text, images }
}


/// Where sending a copy to a Matrix room stands.
pub enum MatrixSendPhase {
    /// Not begun.
    Start,
    /// The text message is being sent.
    SendingText,
    /// Image `0` is being sent.
    SendingImage(usize),
    /// Nothing more to do.
    Finished,
}

/// What the caller reports back.
pub enum MatrixSendEvent {
    /// Begin.
    Begin,
    /// The last send produced this event ID, or failed (`None`).
    Sent(Option<String>),
}

/// What the caller does next.
pub enum MatrixSendAction {
    /// Send `text` as a text message; report `Sent`.
    SendText { text: String },
    /// Upload image `index` of the copy and send it with caption `caption`
    /// (no caption when empty); report `Sent`.
    SendImage { index: usize, caption: String },
    /// The copy is sent: its event ID, or `None` when sending it failed.
    Done(Option<String>),
}

/// Sending one composed copy: without images one text message; otherwise
/// one image message per image in order, the text as caption of the first
/// only. The copy's ID is that of the text or of the first image; a failed
/// first send ends the run, later failures do not change its result.
pub struct MatrixSending {
    pub text: String,
    pub images: usize,
    pub first: Option<String>,
    pub phase: MatrixSendPhase,
}

/// Moving on to image `k` (or finishing) with the copy's ID `first` so far.
pub open spec fn matrix_send_next(
    s: MatrixSending,
    k: int,
    first: Option<Seq<char>>,
    t: MatrixSending,
    a: MatrixSendAction,
) -> bool {
    &&& opt_view(t.first) == first
    &&& if k < s.images {
        &&& t.phase == MatrixSendPhase::SendingImage(k as usize)
        &&& a matches MatrixSendAction::SendImage { index, caption }
        &&& index == k
        &&& caption@ == (if k == 0 {
            s.text@
        } else {
            Seq::empty()
        })
    } else {
        &&& t.phase is Finished
        &&& a matches MatrixSendAction::Done(r) && opt_view(r) == first
    }
}

/// The effect of one step: state `s` becomes `t` after event `e`, and the
/// action is `a`.
pub open spec fn matrix_send_step(s: MatrixSending, e: MatrixSendEvent, t: MatrixSending, a: MatrixSendAction) -> bool {
    &&& t.text@ == s.text@
    &&& t.images == s.images
    &&& match (s.phase, e) {
        (MatrixSendPhase::Start, MatrixSendEvent::Begin) => if s.images == 0 {
            &&& opt_view(t.first) == opt_view(s.first)
            &&& t.phase is SendingText
            &&& a matches MatrixSendAction::SendText { text } && text@ == s.text@
        } else {
            matrix_send_next(s, 0, opt_view(s.first), t, a)
        },
        (MatrixSendPhase::SendingText, MatrixSendEvent::Sent(r)) => {
            &&& opt_view(t.first) == opt_view(s.first)
            &&& t.phase is Finished
            &&& a matches MatrixSendAction::Done(x) && opt_view(x) == opt_view(r)
        },
        (MatrixSendPhase::SendingImage(k), MatrixSendEvent::Sent(r)) => if k == 0 && r is None {
            &&& opt_view(t.first) == opt_view(s.first)
            &&& t.phase is Finished
            &&& a matches MatrixSendAction::Done(x) && x is None
        } else {
            matrix_send_next(
                s,
                k + 1,
                if k == 0 {
                    opt_view(r)
                } else {
                    opt_view(s.first)
                },
                t,
                a,
            )
        },
        _ => {
            &&& opt_view(t.first) == opt_view(s.first)
            &&& t.phase is Finished
            &&& a matches MatrixSendAction::Done(x) && x is None
        },
    }
}

fn copy_opt(o: &Option<String>) -> (r: Option<String>)
    ensures
        opt_view(r) == opt_view(*o),
{
    match o {
        Some(x) => Some(x.clone()),
        None => None,
    }
}

impl MatrixSending {
    /// A run sending `out`.
    pub fn new(out: &MatrixOutgoing) -> (r: Self)
        ensures
            r.text@ == out.text@,
            r.images == out.images@.len(),
            r.first is None,
            r.phase is Start,
    {
        MatrixSending { text: out.text.clone(), images: out.images.len(), first: None, phase: MatrixSendPhase::Start }
    }

    fn next(&mut self, k: usize, first: Option<String>) -> (a: MatrixSendAction)
        ensures
            matrix_send_next(*old(self), k as int, opt_view(first), *final(self), a),
            final(self).text@ == old(self).text@,
            final(self).images == old(self).images,
    {
        let result = copy_opt(&first);
        self.first = first;
        if k < self.images {
            self.phase = MatrixSendPhase::SendingImage(k);
            let caption = if k == 0 {
                self.text.clone()
            } else {
                String::new()
            };
            MatrixSendAction::SendImage { index: k, caption }
        } else {
            self.phase = MatrixSendPhase::Finished;
            MatrixSendAction::Done(result)
        }
    }

    /// Advances the run by one event.
    pub fn step(&mut self, e: MatrixSendEvent) -> (a: MatrixSendAction)
        ensures
            matrix_send_step(*old(self), e, *final(self), a),
    {
        let mut phase = MatrixSendPhase::Finished;
        std::mem::swap(&mut phase, &mut self.phase);
        match (phase, e) {
            (MatrixSendPhase::Start, MatrixSendEvent::Begin) => {
                if self.images == 0 {
                    self.phase = MatrixSendPhase::SendingText;
                    MatrixSendAction::SendText { text: self.text.clone() }
                } else {
                    let first = copy_opt(&self.first);
                    self.next(0, first)
                }
            },
            (MatrixSendPhase::SendingText, MatrixSendEvent::Sent(r)) => MatrixSendAction::Done(r),
            (MatrixSendPhase::SendingImage(k), MatrixSendEvent::Sent(r)) => {
                if k == 0 && r.is_none() {
                    MatrixSendAction::Done(None)
                } else if k < usize::MAX {
                    let first = if k == 0 {
                        r
                    } else {
                        copy_opt(&self.first)
                    };
                    self.next(k + 1, first)
                } else {
                    let first = copy_opt(&self.first);
                    let result = copy_opt(&first);
                    self.first = first;
                    MatrixSendAction::Done(result)
                }
            },
            _ => MatrixSendAction::Done(None),
        }
    }
}

/// Whether two strings are equal.
pub fn str_eq(a: &str, b: &str) -> (r: bool)
    ensures
        r == (a@ == b@),
{
    let x = chars_of(a);
    let y = chars_of(b);
    chars_eq(x.as_slice(), y.as_slice())
}

/// `homeserver` without trailing `/`, followed by `path` and `tail`.
pub open spec fn hs_url(homeserver: Seq<char>, path: Seq<char>, tail: Seq<char>) -> Seq<char> {
    trim_end_char(homeserver, '/') + path + tail
}

/// Joins the homeserver URL (without trailing `/`), a path, and a tail.
pub fn homeserver_url(homeserver: &str, path: &str, tail: &str) -> (r: String)
    ensures
        r@ == hs_url(homeserver@, path@, tail@),
{
    let mut u = trim_end_matches_char(homeserver, '/');
    push_str(&mut u, path);
    push_str(&mut u, tail);
    u
}

/// The URL of a room's client API: `<homeserver>/_matrix/client/v3/rooms/<room>`.
pub fn room_url(homeserver: &str, room_id: &str) -> (r: String)
    ensures
        r@ == hs_url(homeserver@, "/_matrix/client/v3/rooms/"@, room_id@),
{
    homeserver_url(homeserver, "/_matrix/client/v3/rooms/", room_id)
}

/// The media upload URL: `<homeserver>/_matrix/media/v3/upload?filename=<name>`.
pub fn upload_url(homeserver: &str, filename: &str) -> (r: String)
    ensures
        r@ == hs_url(homeserver@, "/_matrix/media/v3/upload?filename="@, filename@),
{
    homeserver_url(homeserver, "/_matrix/media/v3/upload?filename=", filename)
}

/// The `whoami` URL of the homeserver.
pub fn whoami_url(homeserver: &str) -> (r: String)
    ensures
        r@ == hs_url(homeserver@, "/_matrix/client/v3/account/whoami"@, ""@),
{
    homeserver_url(homeserver, "/_matrix/client/v3/account/whoami", "")
}

/// The sync URL, continuing after batch `since` when given.
pub fn sync_url(homeserver: &str, since: Option<&str>) -> (r: String)
    ensures
        r@ == hs_url(homeserver@, "/_matrix/client/v3/sync?timeout=30000"@, ""@) + match since {
            Some(s) => "&since="@ + s@,
            None => Seq::empty(),
        },
{
    let mut u = homeserver_url(homeserver, "/_matrix/client/v3/sync?timeout=30000", "");
    match since {
        Some(s) => {
            let ghost before = u@;
            push_str(&mut u, "&since=");
            push_str(&mut u, s);
            assert(u@ =~= before + ("&since="@ + s@));
        },
        None => {
            assert(u@ =~= u@ + Seq::<char>::empty());
        },
    }
    u
}

/// Source of transaction IDs for sending events: `anemone-0`, `anemone-1`, ...
pub struct TxnCounter {
    next: u64,
}

impl TxnCounter {
    pub closed spec fn spec_next(&self) -> u64 {
        self.next
    }

    /// A counter starting at zero.
    pub fn new() -> (r: Self)
        ensures
            r.spec_next() == 0,
    {
        TxnCounter { next: 0 }
    }

    /// The next transaction ID; the counter wraps around after `u64::MAX`.
    pub fn txn_id(&mut self) -> (r: String)
        ensures
            r@ == "anemone-"@ + crate::num::dec(old(self).spec_next() as nat),
            final(self).spec_next() == old(self).spec_next().wrapping_add(1),
    {
        let n = self.next;
        self.next = n.wrapping_add(1);
        let mut s = String::from_str("anemone-");
        crate::num::push_u64(&mut s, n);
        s
    }
}

/// The event-sending URL for transaction `txn` under a room URL.
pub fn send_url(base: &str, txn: &str) -> (r: String)
    ensures
        r@ == base@ + "/send/m.room.message/"@ + txn@,
{
    let mut u = String::from_str(base);
    push_str(&mut u, "/send/m.room.message/");
    push_str(&mut u, txn);
    u
}

/// The fields of a timeline event that the bridge reads. Absent fields are
/// `None`; `event_type` is empty when absent.
pub struct MatrixEvent {
    pub event_type: String,
    pub event_id: Option<String>,
    pub sender: Option<String>,
    pub redacts: Option<String>,
    pub msgtype: Option<String>,
    pub formatted_body: Option<String>,
    pub body: Option<String>,
    pub reply_to: Option<String>,
    pub url: Option<String>,
    pub mimetype: Option<String>,
}

/// An image of an incoming event, still to be downloaded.
pub struct MatrixImageRef {
    pub url: String,
    pub filename: String,
    pub content_type: Option<String>,
}

/// What to do with a timeline event.
pub enum MatrixDecision {
    /// Ignore it.
    Skip,
    /// A redaction of `redacts` in bridge `bridge`.
    Redact { bridge: usize, redacts: String },
    /// A message to forward through bridge `bridge`.
    Forward {
        bridge: usize,
        msg_id: String,
        sender_name: String,
        content: String,
        reply_to: Option<String>,
        image: Option<MatrixImageRef>,
    },
}

/// The value of an optional string, or `dflt`.
pub open spec fn or_default(o: Option<String>, dflt: Seq<char>) -> Seq<char> {
    match o {
        Some(s) => s@,
        None => dflt,
    }
}

/// The text of a message: its HTML body if present, else its plain body,
/// else empty.
pub open spec fn event_text(ev: MatrixEvent) -> Seq<char> {
    match ev.formatted_body {
        Some(f) => f@,
        None => or_default(ev.body, Seq::empty()),
    }
}

/// The download URL of the event's image, if it is an image message with an
/// `mxc://` URL.
pub open spec fn event_image_url(ev: MatrixEvent, homeserver: Seq<char>) -> Option<Seq<char>> {
    if or_default(ev.msgtype, "m.text"@) == "m.image"@ {
        match ev.url {
            Some(u) => mxc_url_of(homeserver, u@),
            None => None,
        }
    } else {
        None
    }
}

/// The decision for event `ev` in room `room_id`.
pub open spec fn matrix_decision_ok(
    bridges: Bridges,
    room_id: Seq<char>,
    ev: MatrixEvent,
    homeserver: Seq<char>,
    d: MatrixDecision,
) -> bool {
    let sender = or_default(ev.sender, "unknown"@);
    match last_matrix(bridges.spec_configs(), room_id) {
        None => d is Skip,
        Some(b) => if ev.event_type@ != "m.room.message"@ && ev.event_type@ != "m.room.redaction"@ {
            d is Skip
        } else if ev.event_id is None {
            d is Skip
        } else if ev.event_type@ == "m.room.redaction"@ {
            match ev.redacts {
                None => d is Skip,
                Some(r) => d matches MatrixDecision::Redact { bridge, redacts } && bridge == b
                    && redacts@ == r@,
            }
        } else if any_matrix(bridges.spec_configs()) && bridges.spec_ids().matrix == Some(sender) {
            d is Skip
        } else if event_text(ev).len() == 0 && event_image_url(ev, homeserver) is None {
            d is Skip
        } else {
            &&& d matches MatrixDecision::Forward {
                bridge,
                msg_id,
                sender_name,
                content,
                reply_to,
                image,
            }
            &&& bridge == b
            &&& msg_id@ == ev.event_id->0@
            &&& sender_name@ == display_name_of(sender)
            &&& content@ == event_text(ev)
            &&& opt_view(reply_to) == opt_view(ev.reply_to)
            &&& match event_image_url(ev, homeserver) {
                None => image is None,
                Some(u) => image matches Some(im) && im.url@ == u && im.filename@ == or_default(
                    ev.body,
                    "image.jpg"@,
                ) && opt_view(im.content_type) == Some(or_default(ev.mimetype, "image/jpeg"@)),
            }
        },
    }
}

fn clone_opt(o: &Option<String>) -> (r: Option<String>)
    ensures
        opt_view(r) == opt_view(*o),
{
    match o {
        Some(s) => Some(s.clone()),
        None => None,
    }
}

fn or_default_string(o: &Option<String>, dflt: &str) -> (r: String)
    ensures
        r@ == or_default(*o, dflt@),
{
    match o {
        Some(s) => s.clone(),
        None => String::from_str(dflt),
    }
}

/// Decides what to do with a timeline event of room `room_id`.
pub fn matrix_decision(bridges: &Bridges, room_id: &str, ev: &MatrixEvent, homeserver: &str) -> (d: MatrixDecision)
    ensures
        matrix_decision_ok(*bridges, room_id@, *ev, homeserver@, d),
{
    let b = match bridges.by_matrix(room_id) {
        None => {
            return MatrixDecision::Skip;
        },
        Some(b) => b,
    };
    let is_message = str_eq(ev.event_type.as_str(), "m.room.message");
    let is_redaction = str_eq(ev.event_type.as_str(), "m.room.redaction");
    if !is_message && !is_redaction {
        return MatrixDecision::Skip;
    }
    let event_id = match &ev.event_id {
        None => {
            return MatrixDecision::Skip;
        },
        Some(id) => id,
    };
    let sender = or_default_string(&ev.sender, "unknown");
    if is_redaction {
        return match &ev.redacts {
            None => MatrixDecision::Skip,
            Some(r) => MatrixDecision::Redact { bridge: b, redacts: r.clone() },
        };
    }
    if bridges.is_self_matrix(sender.as_str()) {
        return MatrixDecision::Skip;
    }
    let content = match &ev.formatted_body {
        Some(f) => f.clone(),
        None => or_default_string(&ev.body, ""),
    };
    proof {
        reveal_strlit("");
        assert(""@ =~= Seq::<char>::empty());
    }
    let msgtype = or_default_string(&ev.msgtype, "m.text");
    let image = if str_eq(msgtype.as_str(), "m.image") {
        match &ev.url {
            Some(u) => match mxc_download_url(homeserver, u.as_str()) {
                Some(dl) => Some(
                    MatrixImageRef {
                        url: dl,
                        filename: or_default_string(&ev.body, "image.jpg"),
                        content_type: Some(or_default_string(&ev.mimetype, "image/jpeg")),
                    },
                ),
                None => None,
            },
            None => None,
        }
    } else {
        None
    };
    let empty_text = content.as_str().is_empty();
    if empty_text && image.is_none() {
        return MatrixDecision::Skip;
    }
    MatrixDecision::Forward {
        bridge: b,
        msg_id: event_id.clone(),
        sender_name: display_name(sender.as_str()),
        content,
        reply_to: clone_opt(&ev.reply_to),
        image,
    }
}

/// Whether a redaction of `redacts` in bridge `bridge` should be recalled
/// on the other platforms: only for messages that originated on Matrix
/// (`is_source`), and not when it is the echo of the bridge's own deletion,
/// whose mark it then consumes.
pub fn redaction_should_recall(bridges: &mut Bridges, bridge: usize, is_source: bool, redacts: &str) -> (r: bool)
    requires
        old(bridges).wf(),
        bridge < old(bridges).spec_bridges().len(),
    ensures
        final(bridges).wf(),
        !is_source ==> !r && *final(bridges) == *old(bridges),
        is_source ==> r == !old(bridges).spec_bridges()[bridge as int].spec_recalls().dom().contains(
            (Platform::Matrix, redacts@),
        ) && final(bridges).spec_bridges()[bridge as int].spec_recalls() == old(
            bridges,
        ).spec_bridges()[bridge as int].spec_recalls().remove((Platform::Matrix, redacts@)),
{
    if !is_source {
        return false;
    }
    !bridges.take_suppressed_recall(bridge, Platform::Matrix, redacts)
}

} // verus!
