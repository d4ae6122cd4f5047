//! Composing the copy of a message that is sent to another platform: the
//! source tag and sender line, placeholders for images that could not be
//! fetched, inline images for QQ, attached files for the others, and the
//! reply target in each platform's form.

use vstd::prelude::*;

use base64::Engine;

use crate::clip::{truncate_to_limit, truncated};
use crate::message::{opt_view, Attachment, Platform};
use crate::num::{parse_i64, parse_i64_spec, parse_u64, parse_u64_spec};
use crate::text::{contains_char, chars_of, push_char, push_chars, push_str, string_of};

verus! {

/// The display label of a platform.
pub open spec fn label(p: Platform) -> Seq<char> {
    match p {
        Platform::QQ => seq!['Q', 'Q'],
        Platform::Discord => seq!['D', 'i', 's', 'c', 'o', 'r', 'd'],
        Platform::Telegram => seq!['T', 'e', 'l', 'e', 'g', 'r', 'a', 'm'],
        Platform::Matrix => seq!['M', 'a', 't', 'r', 'i', 'x'],
    }
}

/// The tag naming the source platform: `**[X]**` on Discord (bold), `[X]`
/// elsewhere.
pub open spec fn prefix_for(target: Platform, source: Platform) -> Seq<char> {
    if target == Platform::Discord {
        seq!['*', '*', '['] + label(source) + seq![']', '*', '*']
    } else {
        seq!['['] + label(source) + seq![']']
    }
}

/// The tag naming the source platform of a message sent to `target`.
pub fn source_prefix(target: Platform, source: Platform) -> (r: String)
    requires
        target != source,
    ensures
        r@ == prefix_for(target, source),
{
    let name: Vec<char> = match source {
        Platform::QQ => vec!['Q', 'Q'],
        Platform::Discord => vec!['D', 'i', 's', 'c', 'o', 'r', 'd'],
        Platform::Telegram => vec!['T', 'e', 'l', 'e', 'g', 'r', 'a', 'm'],
        Platform::Matrix => vec!['M', 'a', 't', 'r', 'i', 'x'],
    };
    assert(name@ =~= label(source));
    let mut s = String::new();
    if target == Platform::Discord {
        push_char(&mut s, '*');
        push_char(&mut s, '*');
        push_char(&mut s, '[');
        push_chars(&mut s, name.as_slice());
        push_char(&mut s, ']');
        push_char(&mut s, '*');
        push_char(&mut s, '*');
    } else {
        push_char(&mut s, '[');
        push_chars(&mut s, name.as_slice());
        push_char(&mut s, ']');
    }
    assert(s@ =~= prefix_for(target, source));
    s
}

/// `<tag> <sender>: <content>`
pub open spec fn header_of(target: Platform, source: Platform, name: Seq<char>, content: Seq<char>) -> Seq<char> {
    prefix_for(target, source) + seq![' '] + name + seq![':', ' '] + content
}

/// The header line of a copy sent to `target`.
pub fn header(target: Platform, source: Platform, name: &str, content: &str) -> (r: String)
    requires
        target != source,
    ensures
        r@ == header_of(target, source, name@, content@),
{
    let mut s = source_prefix(target, source);
    push_char(&mut s, ' ');
    push_str(&mut s, name);
    push_char(&mut s, ':');
    push_char(&mut s, ' ');
    push_str(&mut s, content);
    assert(s@ =~= header_of(target, source, name@, content@));
    s
}

/// How an attachment's bytes are obtained.
pub enum AttachmentFetch {
    /// The bytes came with the message.
    Inline,
    /// The bytes must be downloaded from this URL.
    Download(String),
    /// There is nothing to fetch.
    Missing,
}

/// Where an attachment's bytes come from: its own data if present, else its
/// URL, else nowhere.
pub fn attachment_fetch(att: &Attachment) -> (r: AttachmentFetch)
    ensures
        att.data is Some ==> r is Inline,
        att.data is None && att.url is Some ==> (r matches AttachmentFetch::Download(u) && u@
            == att.url->0@),
        att.data is None && att.url is None ==> r is Missing,
{
    match (&att.url, &att.data) {
        (_, Some(_)) => AttachmentFetch::Inline,
        (Some(url), None) => AttachmentFetch::Download(url.clone()),
        (None, None) => AttachmentFetch::Missing,
    }
}

/// `[图片]`, marking an image that could not be fetched.
pub open spec fn placeholder() -> Seq<char> {
    seq!['[', '\u{56fe}', '\u{7247}', ']']
}

/// The byte sequences of fetched attachments (`None` where fetching failed).
pub open spec fn fetched_view(f: Seq<Option<Vec<u8>>>) -> Seq<Option<Seq<u8>>> {
    f.map_values(|o: Option<Vec<u8>>| match o {
        Some(v) => Some(v@),
        None => None,
    })
}

/// `text` followed by a placeholder for every attachment that was not fetched.
pub open spec fn with_placeholders(text: Seq<char>, fetched: Seq<Option<Seq<u8>>>) -> Seq<char>
    decreases fetched.len(),
{
    if fetched.len() == 0 {
        text
    } else {
        with_placeholders(text, fetched.drop_last()) + if fetched.last() is None {
            placeholder()
        } else {
            Seq::empty()
        }
    }
}

/// The fetched attachments, each with its bytes, in order.
pub open spec fn kept(atts: Seq<Attachment>, fetched: Seq<Option<Seq<u8>>>) -> Seq<(Seq<u8>, Attachment)>
    decreases fetched.len(),
{
    if fetched.len() == 0 || atts.len() < fetched.len() {
        Seq::empty()
    } else {
        let before = kept(atts.take(fetched.len() - 1), fetched.drop_last());
        match fetched.last() {
            Some(d) => before.push((d, atts[fetched.len() - 1])),
            None => before,
        }
    }
}

/// The character of the standard base64 alphabet for the 6-bit value `v`:
/// `A`-`Z`, `a`-`z`, `0`-`9`, `+`, `/`.
pub open spec fn b64_digit(v: int) -> char {
    if v < 26 {
        (65 + v) as char
    } else if v < 52 {
        (97 + v - 26) as char
    } else if v < 62 {
        (48 + v - 52) as char
    } else if v == 62 {
        '+'
    } else {
        '/'
    }
}

/// Standard base64 with padding (RFC 4648): every three bytes become four
/// characters; a last group of one or two bytes is padded with `=`.
pub open spec fn base64_standard(d: Seq<u8>) -> Seq<char>
    decreases d.len(),
{
    if d.len() == 0 {
        Seq::empty()
    } else if d.len() == 1 {
        let a = d[0] as int;
        seq![b64_digit(a / 4), b64_digit((a % 4) * 16), '=', '=']
    } else if d.len() == 2 {
        let a = d[0] as int;
        let b = d[1] as int;
        seq![b64_digit(a / 4), b64_digit((a % 4) * 16 + b / 16), b64_digit((b % 16) * 4), '=']
    } else {
        let a = d[0] as int;
        let b = d[1] as int;
        let c = d[2] as int;
        seq![
            b64_digit(a / 4),
            b64_digit((a % 4) * 16 + b / 16),
            b64_digit((b % 16) * 4 + c / 64),
            b64_digit(c % 64),
        ] + base64_standard(d.skip(3))
    }
}

/// The padded base64 length of `n` bytes.
pub open spec fn b64_len(n: nat) -> nat {
    (n / 3) * 4 + if n % 3 > 0 {
        4nat
    } else {
        0nat
    }
}

/// Encodes `data` as standard padded base64 through the `base64` crate's
/// `STANDARD` engine (`Engine::encode`). Trusted: the result is the standard
/// alphabet with padding, `base64_standard` of the input; the call panics
/// when the padded length (`encoded_len`) overflows `usize`, which the
/// precondition rules out.
#[verifier::external_body]
fn base64_encode(data: &[u8]) -> (r: String)
    requires
        b64_len(data@.len()) <= usize::MAX,
    ensures
        r@ == base64_standard(data@),
{
    base64::engine::general_purpose::STANDARD.encode(data)
}

/// `[CQ:image,file=base64://<data>]`
pub open spec fn cq_image_code(data: Seq<u8>) -> Seq<char> {
    seq!['[', 'C', 'Q', ':', 'i', 'm', 'a', 'g', 'e', ',', 'f', 'i', 'l', 'e', '=', 'b', 'a', 's', 'e', '6', '4', ':', '/', '/']
        + base64_standard(data) + seq![']']
}

/// `text` followed, per attachment, by the image inline as a CQ code, or by a
/// placeholder when it was not fetched.
pub open spec fn qq_body(text: Seq<char>, fetched: Seq<Option<Seq<u8>>>) -> Seq<char>
    decreases fetched.len(),
{
    if fetched.len() == 0 {
        text
    } else {
        qq_body(text, fetched.drop_last()) + match fetched.last() {
            Some(d) => cq_image_code(d),
            None => placeholder(),
        }
    }
}

/// `[CQ:reply,id=<id>]`
pub open spec fn cq_reply_code(id: Seq<char>) -> Seq<char> {
    seq!['[', 'C', 'Q', ':', 'r', 'e', 'p', 'l', 'y', ',', 'i', 'd', '='] + id + seq![']']
}

/// The text of a message sent to QQ.
pub open spec fn qq_text(
    source: Platform,
    name: Seq<char>,
    content: Seq<char>,
    fetched: Seq<Option<Seq<u8>>>,
    reply_to: Option<Seq<char>>,
) -> Seq<char> {
    let body = qq_body(header_of(Platform::QQ, source, name, content), fetched);
    match reply_to {
        Some(id) => cq_reply_code(id) + body,
        None => body,
    }
}

/// Every fetched image is small enough to encode.
pub open spec fn encodable(fetched: Seq<Option<Seq<u8>>>) -> bool {
    forall|i: int|
        0 <= i < fetched.len() && #[trigger] fetched[i] is Some ==> b64_len(fetched[i]->0.len())
            <= usize::MAX
}

fn placeholder_chars() -> (r: Vec<char>)
    ensures
        r@ == placeholder(),
{
    let v: Vec<char> = vec!['[', '\u{56fe}', '\u{7247}', ']'];
    assert(v@ =~= placeholder());
    v
}

/// The text sent to a QQ group: the header, each image inline as a CQ code
/// (or a placeholder when it could not be fetched), and a leading reply code
/// when replying.
pub fn compose_qq_text(
    source: Platform,
    name: &str,
    content: &str,
    fetched: &[Option<Vec<u8>>],
    reply_to: Option<&str>,
) -> (r: String)
    requires
        source != Platform::QQ,
        encodable(fetched_view(fetched@)),
    ensures
        r@ == qq_text(
            source,
            name@,
            content@,
            fetched_view(fetched@),
            match reply_to {
                Some(s) => Some(s@),
                None => None,
            },
        ),
{
    let mut text = header(Platform::QQ, source, name, content);
    let ghost h = text@;
    let ghost fv = fetched_view(fetched@);
    let mut i: usize = 0;
    assert(fv.take(0) =~= Seq::<Option<Seq<u8>>>::empty());
    while i < fetched.len()
        invariant
            i <= fetched@.len(),
            fv == fetched_view(fetched@),
            encodable(fv),
            text@ == qq_body(h, fv.take(i as int)),
        decreases fetched@.len() - i,
    {
        assert(fv.take(i + 1).drop_last() =~= fv.take(i as int));
        assert(fv.take(i + 1).last() == fv[i as int]);
        match &fetched[i] {
            Some(bytes) => {
                assert(fv[i as int] is Some);
                let b64 = base64_encode(bytes.as_slice());
                let open: Vec<char> = vec![
                    '[', 'C', 'Q', ':', 'i', 'm', 'a', 'g', 'e', ',', 'f', 'i', 'l', 'e', '=', 'b',
                    'a', 's', 'e', '6', '4', ':', '/', '/',
                ];
                let ghost before = text@;
                push_chars(&mut text, open.as_slice());
                push_str(&mut text, b64.as_str());
                push_char(&mut text, ']');
                assert(text@ =~= before + cq_image_code(bytes@));
            },
            None => {
                let p = placeholder_chars();
                push_chars(&mut text, p.as_slice());
            },
        }
        i = i + 1;
    }
    assert(fv.take(fetched@.len() as int) =~= fv);
    match reply_to {
        Some(id) => {
            let mut out = string_from(vec!['[', 'C', 'Q', ':', 'r', 'e', 'p', 'l', 'y', ',', 'i', 'd', '=']);
            push_str(&mut out, id);
            push_char(&mut out, ']');
            let ghost code = out@;
            push_str(&mut out, text.as_str());
            assert(code =~= cq_reply_code(id@));
            out
        },
        None => text,
    }
}

fn string_from(cs: Vec<char>) -> (s: String)
    ensures
        s@ == cs@,
{
    string_of(cs.as_slice())
}

/// Copies a byte slice.
pub fn copy_bytes(v: &[u8]) -> (r: Vec<u8>)
    ensures
        r@ == v@,
{
    let mut r: Vec<u8> = Vec::new();
    let mut i: usize = 0;
    while i < v.len()
        invariant
            i <= v@.len(),
            r@ == v@.take(i as int),
        decreases v@.len() - i,
    {
        r.push(v[i]);
        i = i + 1;
        assert(r@ =~= v@.take(i as int));
    }
    assert(v@.take(v@.len() as int) =~= v@);
    r
}

/// A file sent along with a copy.
pub struct OutFile {
    pub data: Vec<u8>,
    pub filename: String,
}

/// The file name Discord receives: `.jpg` is appended to names without a dot.
pub open spec fn discord_filename(name: Seq<char>) -> Seq<char> {
    if name.contains('.') {
        name
    } else {
        name + seq!['.', 'j', 'p', 'g']
    }
}

/// The text and files of a copy for a platform that takes attachments as
/// files: the header with a placeholder per image that could not be fetched,
/// and each fetched image with its bytes and its attachment's file name.
pub fn compose_with_files(
    target: Platform,
    source: Platform,
    name: &str,
    content: &str,
    atts: &[Attachment],
    fetched: &[Option<Vec<u8>>],
) -> (r: (String, Vec<OutFile>))
    requires
        target != source,
        atts@.len() == fetched@.len(),
    ensures
        r.0@ == with_placeholders(header_of(target, source, name@, content@), fetched_view(fetched@)),
        r.1@.len() == kept(atts@, fetched_view(fetched@)).len(),
        forall|k: int|
            0 <= k < r.1@.len() ==> (#[trigger] r.1@[k]).data@ == kept(
                atts@,
                fetched_view(fetched@),
            )[k].0 && r.1@[k].filename@ == kept(atts@, fetched_view(fetched@))[k].1.filename@,
{
    let mut text = header(target, source, name, content);
    let ghost h = text@;
    let ghost fv = fetched_view(fetched@);
    let mut files: Vec<OutFile> = Vec::new();
    let mut i: usize = 0;
    assert(fv.take(0) =~= Seq::<Option<Seq<u8>>>::empty());
    while i < fetched.len()
        invariant
            i <= fetched@.len(),
            atts@.len() == fetched@.len(),
            fv == fetched_view(fetched@),
            text@ == with_placeholders(h, fv.take(i as int)),
            files@.len() == kept(atts@.take(i as int), fv.take(i as int)).len(),
            forall|k: int|
                0 <= k < files@.len() ==> (#[trigger] files@[k]).data@ == kept(
                    atts@.take(i as int),
                    fv.take(i as int),
                )[k].0 && files@[k].filename@ == kept(atts@.take(i as int), fv.take(i as int))[k].1.filename@,
        decreases fetched@.len() - i,
    {
        assert(fv.take(i + 1).drop_last() =~= fv.take(i as int));
        assert(fv.take(i + 1).last() == fv[i as int]);
        assert(atts@.take(i + 1).take(i as int) =~= atts@.take(i as int));
        assert(atts@.take(i + 1)[i as int] == atts@[i as int]);
        match &fetched[i] {
            Some(bytes) => {
                let ghost before = files@;
                files.push(OutFile { data: copy_bytes(bytes.as_slice()), filename: atts[i].filename.clone() });
                proof {
                    let kp = kept(atts@.take(i + 1), fv.take(i + 1));
                    let k0 = kept(atts@.take(i as int), fv.take(i as int));
                    assert(kp == k0.push((bytes@, atts@[i as int])));
                    assert forall|k: int| 0 <= k < files@.len() implies (#[trigger] files@[k]).data@ == kp[k].0
                        && files@[k].filename@ == kp[k].1.filename@ by {
                        if k < before.len() {
                            assert(files@[k] == before[k]);
                        }
                    }
                }
            },
            None => {
                let p = placeholder_chars();
                push_chars(&mut text, p.as_slice());
                proof {
                    let kp = kept(atts@.take(i + 1), fv.take(i + 1));
                    let k0 = kept(atts@.take(i as int), fv.take(i as int));
                    assert(kp == k0);
                }
            },
        }
        i = i + 1;
    }
    assert(fv.take(fetched@.len() as int) =~= fv);
    assert(atts@.take(fetched@.len() as int) =~= atts@);
    (text, files)
}

/// What is sent to a Discord channel.
pub struct DiscordOutgoing {
    pub text: String,
    pub files: Vec<OutFile>,
    pub reply_to: Option<u64>,
}

/// The copy for a Discord channel: header and placeholders cut to Discord's
/// 2000-byte limit, the fetched images as files (`.jpg` added to names
/// without a dot), and the reply target when it parses as a message ID.
pub fn compose_discord(
    source: Platform,
    name: &str,
    content: &str,
    atts: &[Attachment],
    fetched: &[Option<Vec<u8>>],
    reply_to: Option<&str>,
) -> (r: DiscordOutgoing)
    requires
        source != Platform::Discord,
        atts@.len() == fetched@.len(),
    ensures
        r.text@ == truncated(
            with_placeholders(header_of(Platform::Discord, source, name@, content@), fetched_view(fetched@)),
            2000,
        ),
        r.files@.len() == kept(atts@, fetched_view(fetched@)).len(),
        forall|k: int|
            0 <= k < r.files@.len() ==> (#[trigger] r.files@[k]).data@ == kept(
                atts@,
                fetched_view(fetched@),
            )[k].0 && r.files@[k].filename@ == discord_filename(
                kept(atts@, fetched_view(fetched@))[k].1.filename@,
            ),
        r.reply_to == match reply_to {
            Some(s) => parse_u64_spec(s@),
            None => None,
        },
{
    let (mut text, files) = compose_with_files(Platform::Discord, source, name, content, atts, fetched);
    truncate_to_limit(&mut text, 2000);
    let ghost kp = kept(atts@, fetched_view(fetched@));
    let mut out: Vec<OutFile> = Vec::new();
    let mut i: usize = 0;
    while i < files.len()
        invariant
            i <= files@.len(),
            files@.len() == kp.len(),
            forall|k: int| 0 <= k < files@.len() ==> (#[trigger] files@[k]).data@ == kp[k].0
                && files@[k].filename@ == kp[k].1.filename@,
            out@.len() == i,
            forall|k: int| 0 <= k < i ==> (#[trigger] out@[k]).data@ == kp[k].0
                && out@[k].filename@ == discord_filename(kp[k].1.filename@),
        decreases files@.len() - i,
    {
        let f = &files[i];
        let cs = chars_of(f.filename.as_str());
        let mut fname = f.filename.clone();
        if !contains_char(cs.as_slice(), '.') {
            push_chars(&mut fname, vec!['.', 'j', 'p', 'g'].as_slice());
            assert(fname@ =~= f.filename@ + seq!['.', 'j', 'p', 'g']);
        }
        let ghost before = out@;
        out.push(OutFile { data: copy_bytes(f.data.as_slice()), filename: fname });
        proof {
            assert forall|k: int| 0 <= k < i + 1 implies (#[trigger] out@[k]).data@ == kp[k].0
                && out@[k].filename@ == discord_filename(kp[k].1.filename@) by {
                if k < i {
                    assert(out@[k] == before[k]);
                }
            }
        }
        i = i + 1;
    }
    let reply = match reply_to {
        Some(s) => parse_u64(s),
        None => None,
    };
    DiscordOutgoing { text, files: out, reply_to: reply }
}

/// How a copy is sent to Telegram.
pub enum TelegramMode {
    /// `sendMessage` with the text.
    Text,
    /// `sendPhoto` with the text as caption.
    Photo,
    /// `sendMediaGroup`, the text as caption of the first photo.
    MediaGroup,
}

/// What is sent to a Telegram chat.
pub struct TelegramOutgoing {
    pub mode: TelegramMode,
    pub text: String,
    pub files: Vec<OutFile>,
    pub reply_to: Option<i64>,
}

/// The copy for a Telegram chat: header and placeholders, the fetched images
/// as files, the method chosen by the number of images, and the reply target
/// when it parses as a message ID.
pub fn compose_telegram(
    source: Platform,
    name: &str,
    content: &str,
    atts: &[Attachment],
    fetched: &[Option<Vec<u8>>],
    reply_to: Option<&str>,
) -> (r: TelegramOutgoing)
    requires
        source != Platform::Telegram,
        atts@.len() == fetched@.len(),
    ensures
        r.text@ == with_placeholders(header_of(Platform::Telegram, source, name@, content@), fetched_view(fetched@)),
        r.files@.len() == kept(atts@, fetched_view(fetched@)).len(),
        forall|k: int|
            0 <= k < r.files@.len() ==> (#[trigger] r.files@[k]).data@ == kept(
                atts@,
                fetched_view(fetched@),
            )[k].0 && r.files@[k].filename@ == kept(atts@, fetched_view(fetched@))[k].1.filename@,
        r.mode is Text <==> r.files@.len() == 0,
        r.mode is Photo <==> r.files@.len() == 1,
        r.mode is MediaGroup <==> r.files@.len() > 1,
        r.reply_to == match reply_to {
            Some(s) => parse_i64_spec(s@),
            None => None,
        },
{
    let (text, files) = compose_with_files(Platform::Telegram, source, name, content, atts, fetched);
    let mode = if files.len() == 0 {
        TelegramMode::Text
    } else if files.len() == 1 {
        TelegramMode::Photo
    } else {
        TelegramMode::MediaGroup
    };
    let reply = match reply_to {
        Some(s) => parse_i64(s),
        None => None,
    };
    TelegramOutgoing { mode, text, files, reply_to: reply }
}

} // verus!
