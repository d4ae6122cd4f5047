//! Discord specifics: the gateway address, the HTTP CONNECT handshake used to
//! reach it through a proxy, gateway opcodes, and what to do with a created
//! message.

use vstd::prelude::*;
use vstd::utf8::{decode_utf8, valid_utf8};

use crate::bridge::{any_discord, last_discord, Bridges};
use crate::error::{websocket_error, AnemoneBotError};
use crate::message::{opt_view, DiscordMessage};
use crate::num::{dec, parse_u64, parse_u64_spec, push_u64};
use crate::text::{
    chars_of, contains_seq, contains_str, find_char, find_char_from, lemma_find_char_from,
    push_chars, push_str, slice_chars, string_of, trim_end_matches_seq, trim_end_seq,
    trim_start_matches_seq, trim_start_seq,
};

verus! {

/// `/?v=10&encoding=json`
pub open spec fn gateway_params() -> Seq<char> {
    seq!['/', '?', 'v', '=', '1', '0', '&', 'e', 'n', 'c', 'o', 'd', 'i', 'n', 'g', '=', 'j', 's', 'o', 'n']
}

fn gateway_params_chars() -> (r: Vec<char>)
    ensures
        r@ == gateway_params(),
{
    let v: Vec<char> = vec!['/', '?', 'v', '=', '1', '0', '&', 'e', 'n', 'c', 'o', 'd', 'i', 'n', 'g', '=', 'j', 's', 'o', 'n'];
    assert(v@ =~= gateway_params());
    v
}

/// The gateway URL with the API version and encoding appended.
pub fn gateway_connect_url(url: &str) -> (r: String)
    ensures
        r@ == url@ + gateway_params(),
{
    let mut s = String::from_str(url);
    push_chars(&mut s, gateway_params_chars().as_slice());
    s
}

/// The host of a gateway URL: without the `wss://` scheme and the query.
pub open spec fn gateway_host_of(url: Seq<char>) -> Seq<char> {
    trim_end_seq(trim_start_seq(url, seq!['w', 's', 's', ':', '/', '/']), gateway_params())
}

/// The host to open a TLS connection to for a gateway URL.
pub fn gateway_host(url: &str) -> (r: String)
    ensures
        r@ == gateway_host_of(url@),
{
    let scheme: Vec<char> = vec!['w', 's', 's', ':', '/', '/'];
    assert(scheme@ =~= seq!['w', 's', 's', ':', '/', '/']);
    let a = trim_start_matches_seq(url, scheme.as_slice());
    trim_end_matches_seq(a.as_str(), gateway_params_chars().as_slice())
}

/// The address of an HTTP proxy: the URL without `http://` and `https://`.
pub open spec fn proxy_address_of(url: Seq<char>) -> Seq<char> {
    trim_start_seq(
        trim_start_seq(url, seq!['h', 't', 't', 'p', ':', '/', '/']),
        seq!['h', 't', 't', 'p', 's', ':', '/', '/'],
    )
}

/// The `host:port` address to reach a proxy at.
pub fn proxy_address(url: &str) -> (r: String)
    ensures
        r@ == proxy_address_of(url@),
{
    let http: Vec<char> = vec!['h', 't', 't', 'p', ':', '/', '/'];
    let https: Vec<char> = vec!['h', 't', 't', 'p', 's', ':', '/', '/'];
    assert(http@ =~= seq!['h', 't', 't', 'p', ':', '/', '/']);
    assert(https@ =~= seq!['h', 't', 't', 'p', 's', ':', '/', '/']);
    let a = trim_start_matches_seq(url, http.as_slice());
    trim_start_matches_seq(a.as_str(), https.as_slice())
}

/// `CONNECT host:port HTTP/1.1\r\nHost: host:port\r\n\r\n`
pub open spec fn connect_request_of(host: Seq<char>, port: u16) -> Seq<char> {
    let target = host + seq![':'] + dec(port as nat);
    "CONNECT "@ + target + " HTTP/1.1\r\nHost: "@ + target + "\r\n\r\n"@
}

/// The HTTP CONNECT request opening a tunnel to `host:port`.
pub fn connect_request(host: &str, port: u16) -> (r: String)
    ensures
        r@ == connect_request_of(host@, port),
{
    let mut target = String::from_str(host);
    crate::text::push_char(&mut target, ':');
    push_u64(&mut target, port as u64);
    let mut s = String::from_str("CONNECT ");
    push_str(&mut s, target.as_str());
    push_str(&mut s, " HTTP/1.1\r\nHost: ");
    push_str(&mut s, target.as_str());
    push_str(&mut s, "\r\n\r\n");
    assert(target@ =~= host@ + seq![':'] + dec(port as nat));
    s
}

/// Decodes UTF-8 bytes (`std::str::from_utf8`), giving `None` for invalid
/// UTF-8. Trusted: per the standard library's documentation, decoding
/// succeeds exactly on valid UTF-8 and yields the encoded characters.
#[verifier::external_body]
fn utf8_chars(bytes: &[u8]) -> (r: Option<Vec<char>>)
    ensures
        r is Some <==> valid_utf8(bytes@),
        r matches Some(cs) ==> cs@ == decode_utf8(bytes@),
{
    match std::str::from_utf8(bytes) {
        Ok(s) => Some(s.chars().collect()),
        Err(_) => None,
    }
}

/// The text of a response buffer: its UTF-8 decoding, empty if invalid.
pub open spec fn response_text(buf: Seq<u8>) -> Seq<char> {
    if valid_utf8(buf) {
        decode_utf8(buf)
    } else {
        Seq::empty()
    }
}

fn response_chars(buf: &[u8]) -> (r: Vec<char>)
    ensures
        r@ == response_text(buf@),
{
    match utf8_chars(buf) {
        Some(cs) => cs,
        None => Vec::new(),
    }
}

/// Whether the proxy's reply so far holds its complete header (a blank line).
pub fn connect_reply_complete(buf: &[u8]) -> (r: bool)
    ensures
        r == contains_seq(response_text(buf@), seq!['\r', '\n', '\r', '\n']),
{
    let cs = response_chars(buf);
    let end: Vec<char> = vec!['\r', '\n', '\r', '\n'];
    assert(end@ =~= seq!['\r', '\n', '\r', '\n']);
    contains_str(cs.as_slice(), end.as_slice())
}

/// The first line of a text (`str::lines().next()`, empty when none): up to
/// the first line feed, without a carriage return before it.
pub open spec fn first_line(s: Seq<char>) -> Seq<char> {
    match find_char_from(s, '\n', 0) {
        None => s,
        Some(k) => if k > 0 && s[k - 1] == '\r' {
            s.take(k - 1)
        } else {
            s.take(k)
        },
    }
}

/// Accepts the proxy's reply when it contains `200`; otherwise the error
/// names the reply's first line.
pub fn connect_outcome(buf: &[u8]) -> (r: Result<(), AnemoneBotError>)
    ensures
        contains_seq(response_text(buf@), seq!['2', '0', '0']) ==> r is Ok,
        !contains_seq(response_text(buf@), seq!['2', '0', '0']) ==> (r matches Err(
            AnemoneBotError::WebSocket(m),
        ) && m@ == "proxy CONNECT rejected: "@ + first_line(response_text(buf@))),
{
    let cs = response_chars(buf);
    let ok: Vec<char> = vec!['2', '0', '0'];
    assert(ok@ =~= seq!['2', '0', '0']);
    if contains_str(cs.as_slice(), ok.as_slice()) {
        return Ok(());
    }
    let line = match find_char(cs.as_slice(), '\n', 0) {
        None => slice_chars(cs.as_slice(), 0, cs.len()),
        Some(k) => {
            proof {
                lemma_find_char_from(cs@, '\n', 0);
            }
            if k > 0 && cs[k - 1] == '\r' {
                slice_chars(cs.as_slice(), 0, k - 1)
            } else {
                slice_chars(cs.as_slice(), 0, k)
            }
        },
    };
    assert(cs@.take(cs@.len() as int) =~= cs@);
    let mut m = String::from_str("proxy CONNECT rejected: ");
    push_chars(&mut m, line.as_slice());
    Err(AnemoneBotError::WebSocket(m))
}

/// Gateway opcodes the bot acts on.
pub enum GatewayOp {
    /// 0: an event.
    Dispatch,
    /// 1: the server asks for a heartbeat.
    Heartbeat,
    /// 7: reconnect.
    Reconnect,
    /// 9: the session is invalid.
    InvalidSession,
    /// 10: hello, carrying the heartbeat interval.
    Hello,
    /// 11: heartbeat acknowledged.
    HeartbeatAck,
    /// Anything else (a missing opcode reads as -1).
    Other,
}

/// The kind of a gateway payload by its opcode.
pub fn gateway_op(op: Option<i64>) -> (r: GatewayOp)
    ensures
        op == Some(0i64) ==> r is Dispatch,
        op == Some(1i64) ==> r is Heartbeat,
        op == Some(7i64) ==> r is Reconnect,
        op == Some(9i64) ==> r is InvalidSession,
        op == Some(10i64) ==> r is Hello,
        op == Some(11i64) ==> r is HeartbeatAck,
        !(op == Some(0i64) || op == Some(1i64) || op == Some(7i64) || op == Some(9i64) || op
            == Some(10i64) || op == Some(11i64)) ==> r is Other,
{
    match op {
        Some(0) => GatewayOp::Dispatch,
        Some(1) => GatewayOp::Heartbeat,
        Some(7) => GatewayOp::Reconnect,
        Some(9) => GatewayOp::InvalidSession,
        Some(10) => GatewayOp::Hello,
        Some(11) => GatewayOp::HeartbeatAck,
        _ => GatewayOp::Other,
    }
}

/// The last sequence number after a payload carrying `seq`.
pub fn track_seq(last: Option<u64>, seq: Option<u64>) -> (r: Option<u64>)
    ensures
        r == if seq is Some {
            seq
        } else {
            last
        },
{
    if seq.is_some() {
        seq
    } else {
        last
    }
}

/// The heartbeat interval announced in hello, 45000 ms when absent.
pub fn heartbeat_interval(announced: Option<u64>) -> (r: u64)
    ensures
        r == match announced {
            Some(v) => v,
            None => 45000,
        },
{
    match announced {
        Some(v) => v,
        None => 45000,
    }
}

/// A snowflake ID given as a string: its value, 0 when absent or malformed.
pub open spec fn snowflake_of(s: Option<String>) -> u64 {
    match s {
        Some(t) => match parse_u64_spec(t@) {
            Some(v) => v,
            None => 0,
        },
        None => 0,
    }
}

/// Reads a snowflake ID, 0 when absent or malformed.
pub fn snowflake(s: &Option<String>) -> (r: u64)
    ensures
        r == snowflake_of(*s),
{
    match s {
        Some(t) => match parse_u64(t.as_str()) {
            Some(v) => v,
            None => 0,
        },
        None => 0,
    }
}

/// The fields of a `MESSAGE_CREATE` event that the bridge reads.
pub struct DiscordIncoming {
    pub channel_id: Option<String>,
    pub author_id: Option<String>,
    pub author_bot: Option<bool>,
    pub id: Option<String>,
    pub global_name: Option<String>,
    pub username: Option<String>,
    pub content: Option<String>,
    pub referenced_id: Option<String>,
    pub reference_message_id: Option<String>,
}

/// What to do with a created message.
pub enum DiscordDecision {
    Skip,
    Forward { bridge: usize, message: DiscordMessage },
}

/// The first present of two optional strings.
pub open spec fn first_of(a: Option<String>, b: Option<String>) -> Option<Seq<char>> {
    match a {
        Some(x) => Some(x@),
        None => opt_view(b),
    }
}

/// The decision for created message `m`.
pub open spec fn discord_decision_ok(b: Bridges, m: DiscordIncoming, d: DiscordDecision) -> bool {
    let content = match m.content {
        Some(c) => c@,
        None => Seq::empty(),
    };
    match last_discord(b.spec_configs(), snowflake_of(m.channel_id)) {
        None => d is Skip,
        Some(i) => if any_discord(b.spec_configs()) && b.spec_ids().discord == Some(
            snowflake_of(m.author_id),
        ) {
            d is Skip
        } else if m.author_bot == Some(true) {
            d is Skip
        } else if content.len() == 0 {
            d is Skip
        } else {
            &&& d matches DiscordDecision::Forward { bridge, message }
            &&& bridge == i
            &&& message.msg_id@ == match m.id {
                Some(x) => x@,
                None => "0"@,
            }
            &&& message.sender_name@ == match first_of(m.global_name, m.username) {
                Some(n) => n,
                None => "unknown"@,
            }
            &&& message.content@ == content
            &&& opt_view(message.reply_to_msg_id) == first_of(
                m.referenced_id,
                m.reference_message_id,
            )
            &&& message.attachments@.len() == 0
        },
    }
}

fn pick(a: &Option<String>, b: &Option<String>) -> (r: Option<String>)
    ensures
        opt_view(r) == first_of(*a, *b),
{
    match a {
        Some(x) => Some(x.clone()),
        None => match b {
            Some(y) => Some(y.clone()),
            None => None,
        },
    }
}

/// Decides what to do with a created message: skip unbridged channels, the
/// bot itself, other bots and messages without text.
pub fn discord_decision(m: &DiscordIncoming, bridges: &Bridges) -> (d: DiscordDecision)
    ensures
        discord_decision_ok(*bridges, *m, d),
{
    let ch = snowflake(&m.channel_id);
    let bridge = match bridges.by_discord(ch) {
        None => {
            return DiscordDecision::Skip;
        },
        Some(i) => i,
    };
    let author = snowflake(&m.author_id);
    if bridges.is_self_discord(author) {
        return DiscordDecision::Skip;
    }
    if m.author_bot == Some(true) {
        return DiscordDecision::Skip;
    }
    let content = match &m.content {
        Some(c) => c.clone(),
        None => String::new(),
    };
    if content.as_str().is_empty() {
        return DiscordDecision::Skip;
    }
    let msg_id = match &m.id {
        Some(x) => x.clone(),
        None => String::from_str("0"),
    };
    let name = match pick(&m.global_name, &m.username) {
        Some(n) => n,
        None => String::from_str("unknown"),
    };
    DiscordDecision::Forward {
        bridge,
        message: DiscordMessage {
            msg_id,
            sender_name: name,
            content,
            reply_to_msg_id: pick(&m.referenced_id, &m.reference_message_id),
            attachments: Vec::new(),
        },
    }
}

/// The numeric Discord message ID of a bridged message.
pub fn discord_message_id(msg_id: &str) -> (r: Result<u64, AnemoneBotError>)
    ensures
        parse_u64_spec(msg_id@) matches Some(v) ==> r == Ok::<u64, AnemoneBotError>(v),
        parse_u64_spec(msg_id@) is None ==> (r matches Err(AnemoneBotError::WebSocket(m)) && m@
            == "discord message id parse failed"@),
{
    match parse_u64(msg_id) {
        Some(v) => Ok(v),
        None => Err(websocket_error("discord message id parse failed")),
    }
}

} // verus!
