//! The record format of the message-route store: how platforms are named in
//! stored rows and how a stored route becomes a reply record. The rows
//! themselves live in SQLite, outside the library.

use vstd::prelude::*;

use crate::message::{Platform, ReplyRecord};
use crate::text::{chars_eq, chars_of};

verus! {

/// The name under which a platform is stored.
pub open spec fn plat_name(p: Platform) -> Seq<char> {
    match p {
        Platform::QQ => seq!['q', 'q'],
        Platform::Discord => seq!['d', 'i', 's', 'c', 'o', 'r', 'd'],
        Platform::Telegram => seq!['t', 'e', 'l', 'e', 'g', 'r', 'a', 'm'],
        Platform::Matrix => seq!['m', 'a', 't', 'r', 'i', 'x'],
    }
}

/// The platform stored under `s`, if `s` names one.
pub open spec fn named_platform(s: Seq<char>) -> Option<Platform> {
    if s == plat_name(Platform::QQ) {
        Some(Platform::QQ)
    } else if s == plat_name(Platform::Discord) {
        Some(Platform::Discord)
    } else if s == plat_name(Platform::Telegram) {
        Some(Platform::Telegram)
    } else if s == plat_name(Platform::Matrix) {
        Some(Platform::Matrix)
    } else {
        None
    }
}

/// The stored name of a platform.
pub fn plat_str(p: Platform) -> (r: String)
    ensures
        r@ == plat_name(p),
{
    let cs: Vec<char> = match p {
        Platform::QQ => vec!['q', 'q'],
        Platform::Discord => vec!['d', 'i', 's', 'c', 'o', 'r', 'd'],
        Platform::Telegram => vec!['t', 'e', 'l', 'e', 'g', 'r', 'a', 'm'],
        Platform::Matrix => vec!['m', 'a', 't', 'r', 'i', 'x'],
    };
    assert(cs@ =~= plat_name(p));
    crate::text::string_of(cs.as_slice())
}

/// The platform a stored name denotes, if any.
pub fn platform_named(s: &str) -> (r: Option<Platform>)
    ensures
        r == named_platform(s@),
{
    let cs = chars_of(s);
    let qq: Vec<char> = vec!['q', 'q'];
    let discord: Vec<char> = vec!['d', 'i', 's', 'c', 'o', 'r', 'd'];
    let telegram: Vec<char> = vec!['t', 'e', 'l', 'e', 'g', 'r', 'a', 'm'];
    let matrix: Vec<char> = vec!['m', 'a', 't', 'r', 'i', 'x'];
    assert(qq@ =~= plat_name(Platform::QQ));
    assert(discord@ =~= plat_name(Platform::Discord));
    assert(telegram@ =~= plat_name(Platform::Telegram));
    assert(matrix@ =~= plat_name(Platform::Matrix));
    if chars_eq(cs.as_slice(), qq.as_slice()) {
        Some(Platform::QQ)
    } else if chars_eq(cs.as_slice(), discord.as_slice()) {
        Some(Platform::Discord)
    } else if chars_eq(cs.as_slice(), telegram.as_slice()) {
        Some(Platform::Telegram)
    } else if chars_eq(cs.as_slice(), matrix.as_slice()) {
        Some(Platform::Matrix)
    } else {
        None
    }
}

/// The platform of a stored name; names that denote no platform read as QQ.
pub open spec fn plat_from_name(s: Seq<char>) -> Platform {
    match named_platform(s) {
        Some(p) => p,
        None => Platform::QQ,
    }
}

/// The platform of a stored name; names that denote no platform read as QQ.
pub fn plat_from_str(s: &str) -> (r: Platform)
    ensures
        r == plat_from_name(s@),
{
    match platform_named(s) {
        Some(p) => p,
        None => Platform::QQ,
    }
}

/// One stored route: a message forwarded from `src_plat` to `dst_plat`.
pub struct RouteRow {
    pub sender: String,
    pub preview: String,
    pub src_plat: String,
    pub src_msg_id: String,
    pub dst_plat: String,
    pub dst_msg_id: String,
}

/// The message ID a route records on platform `p`: the source ID on the
/// source platform and the destination ID on the destination platform, when
/// both platform names are known and differ.
pub open spec fn route_id_on(row: RouteRow, p: Platform) -> Option<Seq<char>> {
    match (named_platform(row.src_plat@), named_platform(row.dst_plat@)) {
        (Some(s), Some(d)) => if s == d {
            None
        } else if p == s {
            Some(row.src_msg_id@)
        } else if p == d {
            Some(row.dst_msg_id@)
        } else {
            None
        },
        _ => None,
    }
}

/// The reply record a stored route yields.
pub open spec fn record_matches_row(r: ReplyRecord, row: RouteRow) -> bool {
    &&& r.original_sender@ == row.sender@
    &&& r.original_content_preview@ == row.preview@
    &&& r.original_platform == plat_from_name(row.src_plat@)
    &&& forall|p: Platform| #[trigger] r.spec_id_on(p) == route_id_on(row, p)
}

fn id_if(hit: bool, id: &String) -> (r: Option<String>)
    ensures
        hit ==> (r matches Some(s) && s@ == id@),
        !hit ==> r is None,
{
    if hit {
        Some(id.clone())
    } else {
        None
    }
}

/// Turns a stored route into the reply record it describes.
pub fn reply_record_from_row(row: &RouteRow) -> (r: ReplyRecord)
    ensures
        record_matches_row(r, *row),
{
    let src = platform_named(row.src_plat.as_str());
    let dst = platform_named(row.dst_plat.as_str());
    let (s, d, known) = match (src, dst) {
        (Some(s), Some(d)) => (s, d, s != d),
        _ => (Platform::QQ, Platform::QQ, false),
    };
    let r = ReplyRecord {
        original_sender: row.sender.clone(),
        original_content_preview: row.preview.clone(),
        original_platform: plat_from_str(row.src_plat.as_str()),
        discord_msg_id: if known && s == Platform::Discord {
            id_if(true, &row.src_msg_id)
        } else {
            id_if(known && d == Platform::Discord, &row.dst_msg_id)
        },
        qq_msg_id: if known && s == Platform::QQ {
            id_if(true, &row.src_msg_id)
        } else {
            id_if(known && d == Platform::QQ, &row.dst_msg_id)
        },
        telegram_msg_id: if known && s == Platform::Telegram {
            id_if(true, &row.src_msg_id)
        } else {
            id_if(known && d == Platform::Telegram, &row.dst_msg_id)
        },
        matrix_msg_id: if known && s == Platform::Matrix {
            id_if(true, &row.src_msg_id)
        } else {
            id_if(known && d == Platform::Matrix, &row.dst_msg_id)
        },
    };
    assert forall|p: Platform| #[trigger] r.spec_id_on(p) == route_id_on(*row, p) by {
        match p {
            Platform::QQ => {},
            Platform::Discord => {},
            Platform::Telegram => {},
            Platform::Matrix => {},
        }
    }
    r
}

} // verus!
