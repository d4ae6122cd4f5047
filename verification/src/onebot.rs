//! QQ through a OneBot v11 connection: the event fields the bridge reads,
//! the IDs that pair API requests with responses, how incoming frames are
//! told apart, and what to do with a group message.

use vstd::prelude::*;

use crate::bridge::{any_qq, last_qq, Bridges};
use crate::cq::{
    are_cq_images, extract_reply_id, image_urls, reply_id_of, strip_cq_codes, stripped,
    try_extract_images,
};
use crate::error::{websocket_error, AnemoneBotError};
use crate::message::{opt_view, QQMessage};
use crate::num::{dec, dec_int, i64_to_string, parse_i64, parse_i64_spec, push_u64};
use crate::matrix::str_eq;

verus! {

/// The sender of a OneBot message.
pub struct Sender {
    pub nickname: String,
    pub card: String,
}

/// The reply information of a OneBot message.
pub struct ReplyInfo {
    pub message_id: i64,
}

/// A OneBot event; absent fields read as empty or zero.
pub struct Event {
    pub post_type: String,
    pub message_type: String,
    pub message_id: i64,
    pub user_id: i64,
    pub group_id: i64,
    pub message: String,
    pub sender: Option<Sender>,
    pub reply: Option<ReplyInfo>,
    pub self_id: i64,
    pub meta_event_type: String,
    pub sub_type: String,
}

/// Source of echo IDs pairing OneBot API calls with their responses:
/// `anemone_0`, `anemone_1`, ...
pub struct EchoCounter {
    next: u64,
}

impl EchoCounter {
    pub closed spec fn spec_next(&self) -> u64 {
        self.next
    }

    /// A counter starting at zero.
    pub fn new() -> (r: Self)
        ensures
            r.spec_next() == 0,
    {
        EchoCounter { next: 0 }
    }

    /// The next echo ID; the counter wraps around after `u64::MAX`.
    pub fn next_echo(&mut self) -> (r: String)
        ensures
            r@ == "anemone_"@ + dec(old(self).spec_next() as nat),
            final(self).spec_next() == old(self).spec_next().wrapping_add(1),
    {
        let n = self.next;
        self.next = n.wrapping_add(1);
        let mut s = String::from_str("anemone_");
        push_u64(&mut s, n);
        s
    }
}

/// Whether a frame is the response to an API call: it has an `echo` string
/// and a `status` field.
pub fn is_api_response(echo: Option<&str>, has_status: bool) -> (r: bool)
    ensures
        r == (echo is Some && has_status),
{
    echo.is_some() && has_status
}

/// What an incoming OneBot event is.
pub enum EventKind {
    /// A message.
    Message,
    /// The connection's lifecycle `connect` event, carrying the bot's own ID.
    Connect(i64),
    /// Anything else.
    Other,
}

/// Tells a message from the lifecycle `connect` event and other events.
pub fn classify_event(ev: &Event) -> (r: EventKind)
    ensures
        ev.post_type@ == "message"@ ==> r is Message,
        ev.post_type@ != "message"@ && ev.post_type@ == "meta_event"@ && ev.meta_event_type@
            == "lifecycle"@ && ev.sub_type@ == "connect"@ ==> r == EventKind::Connect(ev.self_id),
        ev.post_type@ != "message"@ && !(ev.post_type@ == "meta_event"@ && ev.meta_event_type@
            == "lifecycle"@ && ev.sub_type@ == "connect"@) ==> r is Other,
{
    if str_eq(ev.post_type.as_str(), "message") {
        EventKind::Message
    } else if str_eq(ev.post_type.as_str(), "meta_event") && str_eq(
        ev.meta_event_type.as_str(),
        "lifecycle",
    ) && str_eq(ev.sub_type.as_str(), "connect") {
        EventKind::Connect(ev.self_id)
    } else {
        EventKind::Other
    }
}

/// The result of decoding HTML entities in `s` with the `htmlescape` crate,
/// or `None` where it reports a malformed entity.
pub uninterp spec fn html_decoded(s: Seq<char>) -> Option<Seq<char>>;

/// Decodes HTML entities (`&amp;`, `&#20;`, ...) through
/// `htmlescape::decode_html`. Trusted: the result is named by `html_decoded`
/// of the input, and text without `&` comes back unchanged (the decoder's
/// normal state copies every other character).
#[verifier::external_body]
fn decode_html(s: &str) -> (r: Option<String>)
    ensures
        opt_view(r) == html_decoded(s@),
        !s@.contains('&') ==> opt_view(r) == Some(s@),
{
    htmlescape::decode_html(s).ok()
}

/// The message text after decoding HTML entities, the raw text where
/// decoding fails.
pub open spec fn decoded_text(raw: Seq<char>) -> Seq<char> {
    match html_decoded(raw) {
        Some(d) => d,
        None => raw,
    }
}

/// The name shown for a QQ sender: the group card, else the nickname, else
/// `unknown`.
pub open spec fn qq_name(sender: Option<Sender>) -> Seq<char> {
    match sender {
        None => "unknown"@,
        Some(s) => if s.card@.len() == 0 {
            s.nickname@
        } else {
            s.card@
        },
    }
}

/// The message replied to: the `[CQ:reply]` code's ID, else the event's
/// reply field.
pub open spec fn qq_reply_to(text: Seq<char>, reply: Option<ReplyInfo>) -> Option<Seq<char>> {
    match reply_id_of(text) {
        Some(id) => Some(id),
        None => match reply {
            Some(r) => Some(dec_int(r.message_id as int)),
            None => None,
        },
    }
}

/// What to do with a OneBot message event.
pub enum QqDecision {
    /// Ignore it.
    Drop,
    /// Forward `message` through bridge `bridge`.
    Forward { bridge: usize, message: QQMessage },
    /// The text holds an image code that ends the text, which the image
    /// scan cannot take apart.
    Malformed,
}

/// The decision for event `ev`, given the bridges `b`.
pub open spec fn qq_decision_ok(b: Bridges, ev: Event, d: QqDecision) -> bool {
    if any_qq(b.spec_configs()) && b.spec_ids().qq == Some(ev.user_id) {
        d is Drop
    } else if ev.message_type@ != "group"@ {
        d is Drop
    } else {
        match last_qq(b.spec_configs(), ev.group_id) {
            None => d is Drop,
            Some(i) => {
                let text = decoded_text(ev.message@);
                match image_urls(text) {
                    None => d is Malformed,
                    Some(urls) => if stripped(text).len() == 0 && urls.len() == 0 {
                        d is Drop
                    } else {
                        &&& d matches QqDecision::Forward { bridge, message }
                        &&& bridge == i
                        &&& message.msg_id@ == dec_int(ev.message_id as int)
                        &&& message.sender_name@ == qq_name(ev.sender)
                        &&& message.content@ == stripped(text)
                        &&& opt_view(message.reply_to_msg_id) == qq_reply_to(text, ev.reply)
                        &&& are_cq_images(message.attachments@, urls)
                    },
                }
            },
        }
    }
}

/// Decides what to do with a OneBot message event: drop the bot's own
/// messages, non-group messages and unbridged groups; otherwise decode
/// entities, read the reply target and images, strip CQ codes, and forward
/// unless nothing is left.
pub fn qq_decision(ev: &Event, bridges: &Bridges) -> (d: QqDecision)
    ensures
        qq_decision_ok(*bridges, *ev, d),
{
    if bridges.is_self_qq(ev.user_id) {
        return QqDecision::Drop;
    }
    if !str_eq(ev.message_type.as_str(), "group") {
        return QqDecision::Drop;
    }
    let bridge = match bridges.by_qq(ev.group_id) {
        None => {
            return QqDecision::Drop;
        },
        Some(i) => i,
    };
    let name = match &ev.sender {
        None => String::from_str("unknown"),
        Some(s) => if s.card.as_str().is_empty() {
            s.nickname.clone()
        } else {
            s.card.clone()
        },
    };
    let text = match decode_html(ev.message.as_str()) {
        Some(d) => d,
        None => ev.message.clone(),
    };
    let reply_to = match extract_reply_id(text.as_str()) {
        Some(id) => Some(id),
        None => match &ev.reply {
            Some(r) => Some(i64_to_string(r.message_id)),
            None => None,
        },
    };
    let images = match try_extract_images(text.as_str()) {
        None => {
            return QqDecision::Malformed;
        },
        Some(v) => v,
    };
    let filtered = strip_cq_codes(text.as_str());
    if filtered.as_str().is_empty() && images.len() == 0 {
        return QqDecision::Drop;
    }
    QqDecision::Forward {
        bridge,
        message: QQMessage {
            msg_id: i64_to_string(ev.message_id),
            sender_name: name,
            content: filtered,
            reply_to_msg_id: reply_to,
            attachments: images,
        },
    }
}

/// The numeric OneBot message ID of a bridged QQ message.
pub fn qq_message_id(msg_id: &str) -> (r: Result<i64, AnemoneBotError>)
    ensures
        parse_i64_spec(msg_id@) matches Some(v) ==> r == Ok::<i64, AnemoneBotError>(v),
        parse_i64_spec(msg_id@) is None ==> (r matches Err(AnemoneBotError::WebSocket(m)) && m@
            == "qq message id parse failed"@),
{
    match parse_i64(msg_id) {
        Some(v) => Ok(v),
        None => Err(websocket_error("qq message id parse failed")),
    }
}

/// The message ID in a `send_group_msg` response.
pub fn sent_message_id(data_message_id: Option<i64>) -> (r: Result<i64, AnemoneBotError>)
    ensures
        data_message_id matches Some(v) ==> r == Ok::<i64, AnemoneBotError>(v),
        data_message_id is None ==> (r matches Err(AnemoneBotError::WebSocket(m)) && m@
            == "missing message_id in onebot response"@),
{
    match data_message_id {
        Some(v) => Ok(v),
        None => Err(websocket_error("missing message_id in onebot response")),
    }
}

} // verus!
