//! Telegram specifics: the Bot API URLs, the sender name shown for a user,
//! the update cursor, what to do with an update, and how API responses are
//! read.

use vstd::prelude::*;

use crate::bridge::{any_telegram, last_telegram, Bridges};
use crate::error::{websocket_error, AnemoneBotError};
use crate::message::{opt_view, TelegramMessage};
use crate::num::{dec_int, i64_to_string, push_i64};
use crate::text::{push_char, push_str, trim_str, trimmed};

verus! {

/// `https://api.telegram.org/bot<token>`
pub open spec fn api_base_of(token: Seq<char>) -> Seq<char> {
    "https://api.telegram.org/bot"@ + token
}

/// The Bot API base URL for `token`.
pub fn api_base(token: &str) -> (r: String)
    ensures
        r@ == api_base_of(token@),
{
    let mut s = String::from_str("https://api.telegram.org/bot");
    push_str(&mut s, token);
    s
}

/// The URL of Bot API method `method`.
pub fn method_url(token: &str, method: &str) -> (r: String)
    ensures
        r@ == api_base_of(token@) + seq!['/'] + method@,
{
    let mut s = api_base(token);
    push_char(&mut s, '/');
    push_str(&mut s, method);
    assert(s@ =~= api_base_of(token@) + seq!['/'] + method@);
    s
}

/// The long-polling URL for updates after `offset`.
pub fn updates_url(token: &str, offset: i64) -> (r: String)
    ensures
        r@ == api_base_of(token@) + "/getUpdates?offset="@ + dec_int(offset as int)
            + "&timeout=30"@,
{
    let mut s = api_base(token);
    push_str(&mut s, "/getUpdates?offset=");
    push_i64(&mut s, offset);
    push_str(&mut s, "&timeout=30");
    s
}

/// The name shown for a Telegram user: first and last name joined by a
/// space (the first name alone when there is no last name); the username,
/// or `unknown`, when that is blank.
pub open spec fn tg_name(first: Option<String>, last: Option<String>, username: Option<String>) -> Seq<char> {
    let f = match first {
        Some(s) => s@,
        None => Seq::empty(),
    };
    let l = match last {
        Some(s) => s@,
        None => Seq::empty(),
    };
    let name = if l.len() == 0 {
        f
    } else {
        f + seq![' '] + l
    };
    if trimmed(name).len() == 0 {
        match username {
            Some(u) => u@,
            None => "unknown"@,
        }
    } else {
        name
    }
}

/// The display name of a Telegram user.
pub fn sender_name(first: &Option<String>, last: &Option<String>, username: &Option<String>) -> (r: String)
    ensures
        r@ == tg_name(*first, *last, *username),
{
    let mut name = match first {
        Some(s) => s.clone(),
        None => String::new(),
    };
    match last {
        Some(l) => {
            if !l.as_str().is_empty() {
                let ghost f = name@;
                push_char(&mut name, ' ');
                push_str(&mut name, l.as_str());
                assert(name@ =~= f + seq![' '] + l@);
            }
        },
        None => {},
    }
    let t = trim_str(name.as_str());
    if t.as_str().is_empty() {
        match username {
            Some(u) => u.clone(),
            None => String::from_str("unknown"),
        }
    } else {
        name
    }
}

/// The update cursor after seeing update `update_id` (absent IDs read as 0).
pub fn next_offset(offset: i64, update_id: Option<i64>) -> (r: i64)
    requires
        match update_id {
            Some(u) => u < i64::MAX,
            None => true,
        },
    ensures
        r == if offset >= (match update_id {
            Some(u) => u,
            None => 0,
        }) + 1 {
            offset as int
        } else {
            (match update_id {
                Some(u) => u,
                None => 0,
            }) + 1
        },
{
    let u = match update_id {
        Some(u) => u,
        None => 0,
    };
    let n = u + 1;
    if offset >= n {
        offset
    } else {
        n
    }
}

/// The fields of an incoming Telegram message that the bridge reads.
pub struct TelegramIncoming {
    pub chat_id: Option<i64>,
    pub from_id: Option<i64>,
    pub from_is_bot: Option<bool>,
    pub text: Option<String>,
    pub message_id: Option<i64>,
    pub first_name: Option<String>,
    pub last_name: Option<String>,
    pub username: Option<String>,
    pub reply_to_id: Option<i64>,
}

/// What to do with an update's message.
pub enum TelegramDecision {
    Skip,
    Forward { bridge: usize, message: TelegramMessage },
}

/// The value of an optional integer, or zero.
pub open spec fn or_zero(o: Option<i64>) -> i64 {
    match o {
        Some(v) => v,
        None => 0,
    }
}

/// The decision for message `m` (absent fields read as zero, false or empty).
pub open spec fn telegram_decision_ok(b: Bridges, m: TelegramIncoming, d: TelegramDecision) -> bool {
    let text = match m.text {
        Some(t) => t@,
        None => Seq::empty(),
    };
    if any_telegram(b.spec_configs()) && b.spec_ids().telegram == Some(or_zero(m.from_id)) {
        d is Skip
    } else if m.from_is_bot == Some(true) {
        d is Skip
    } else {
        match last_telegram(b.spec_configs(), or_zero(m.chat_id)) {
            None => d is Skip,
            Some(i) => if text.len() == 0 {
                d is Skip
            } else {
                &&& d matches TelegramDecision::Forward { bridge, message }
                &&& bridge == i
                &&& message.msg_id@ == dec_int(or_zero(m.message_id) as int)
                &&& message.sender_name@ == tg_name(m.first_name, m.last_name, m.username)
                &&& message.content@ == text
                &&& opt_view(message.reply_to_msg_id) == match m.reply_to_id {
                    Some(r) => Some(dec_int(r as int)),
                    None => None,
                }
                &&& message.attachments@.len() == 0
            },
        }
    }
}

/// Decides what to do with the message of an update: skip the bot's own
/// messages, other bots, unbridged chats and messages without text.
pub fn telegram_decision(m: &TelegramIncoming, bridges: &Bridges) -> (d: TelegramDecision)
    ensures
        telegram_decision_ok(*bridges, *m, d),
{
    let from = match m.from_id {
        Some(v) => v,
        None => 0,
    };
    if bridges.is_self_telegram(from) {
        return TelegramDecision::Skip;
    }
    if m.from_is_bot == Some(true) {
        return TelegramDecision::Skip;
    }
    let chat = match m.chat_id {
        Some(v) => v,
        None => 0,
    };
    let bridge = match bridges.by_telegram(chat) {
        None => {
            return TelegramDecision::Skip;
        },
        Some(i) => i,
    };
    let text = match &m.text {
        Some(t) => t.clone(),
        None => String::new(),
    };
    if text.as_str().is_empty() {
        return TelegramDecision::Skip;
    }
    let msg_id = match m.message_id {
        Some(v) => v,
        None => 0,
    };
    TelegramDecision::Forward {
        bridge,
        message: TelegramMessage {
            msg_id: i64_to_string(msg_id),
            sender_name: sender_name(&m.first_name, &m.last_name, &m.username),
            content: text,
            reply_to_msg_id: match m.reply_to_id {
                Some(r) => Some(i64_to_string(r)),
                None => None,
            },
            attachments: Vec::new(),
        },
    }
}

/// The outcome of a Bot API call that creates a message: an error naming
/// `method` and the API's description unless the response is `ok`, else the
/// message ID, or the error `missing` when there is none.
pub fn message_result(
    ok: Option<bool>,
    description: Option<&str>,
    message_id: Option<i64>,
    method: &str,
    missing: &str,
) -> (r: Result<String, AnemoneBotError>)
    ensures
        ok != Some(true) ==> (r matches Err(AnemoneBotError::WebSocket(e)) && e@ == "telegram "@
            + method@ + " failed: "@ + match description {
            Some(d) => d@,
            None => "unknown"@,
        }),
        ok == Some(true) && message_id is Some ==> (r matches Ok(s) && s@ == dec_int(
            message_id->0 as int,
        )),
        ok == Some(true) && message_id is None ==> (r matches Err(AnemoneBotError::WebSocket(e))
            && e@ == missing@),
{
    if ok != Some(true) {
        let mut e = String::from_str("telegram ");
        push_str(&mut e, method);
        push_str(&mut e, " failed: ");
        match description {
            Some(d) => push_str(&mut e, d),
            None => push_str(&mut e, "unknown"),
        }
        return Err(AnemoneBotError::WebSocket(e));
    }
    match message_id {
        Some(id) => Ok(i64_to_string(id)),
        None => Err(websocket_error(missing)),
    }
}

} // verus!
