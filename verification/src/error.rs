//! The library's error type.

use vstd::prelude::*;

use crate::text::push_str;

verus! {

/// Errors of the bridge. Errors raised by outside libraries are carried as
/// their rendered message.
#[derive(Debug)]
pub enum AnemoneBotError {
    Io(String),
    Json(String),
    Tls(String),
    Http(String),
    Sqlite(String),
    Serenity(String),
    ChannelSend(String),
    WebSocket(String),
    Config(String),
    Env(String),
}

/// The label that starts an error's message.
pub open spec fn error_label(e: AnemoneBotError) -> Seq<char> {
    match e {
        AnemoneBotError::Io(_) => "io"@,
        AnemoneBotError::Json(_) => "json"@,
        AnemoneBotError::Tls(_) => "tls"@,
        AnemoneBotError::Http(_) => "http"@,
        AnemoneBotError::Sqlite(_) => "sqlite"@,
        AnemoneBotError::Serenity(_) => "serenity"@,
        AnemoneBotError::ChannelSend(_) => "channel"@,
        AnemoneBotError::WebSocket(_) => "websocket"@,
        AnemoneBotError::Config(_) => "config"@,
        AnemoneBotError::Env(_) => "env"@,
    }
}

/// The detail an error carries.
pub open spec fn error_detail(e: AnemoneBotError) -> Seq<char> {
    match e {
        AnemoneBotError::Io(s) => s@,
        AnemoneBotError::Json(s) => s@,
        AnemoneBotError::Tls(s) => s@,
        AnemoneBotError::Http(s) => s@,
        AnemoneBotError::Sqlite(s) => s@,
        AnemoneBotError::Serenity(s) => s@,
        AnemoneBotError::ChannelSend(s) => s@,
        AnemoneBotError::WebSocket(s) => s@,
        AnemoneBotError::Config(s) => s@,
        AnemoneBotError::Env(s) => s@,
    }
}

impl AnemoneBotError {
    /// The error's message: `<label>: <detail>`.
    pub fn message(&self) -> (r: String)
        ensures
            r@ == error_label(*self) + ": "@ + error_detail(*self),
    {
        let (label, detail) = match self {
            AnemoneBotError::Io(s) => ("io", s),
            AnemoneBotError::Json(s) => ("json", s),
            AnemoneBotError::Tls(s) => ("tls", s),
            AnemoneBotError::Http(s) => ("http", s),
            AnemoneBotError::Sqlite(s) => ("sqlite", s),
            AnemoneBotError::Serenity(s) => ("serenity", s),
            AnemoneBotError::ChannelSend(s) => ("channel", s),
            AnemoneBotError::WebSocket(s) => ("websocket", s),
            AnemoneBotError::Config(s) => ("config", s),
            AnemoneBotError::Env(s) => ("env", s),
        };
        let mut m = String::from_str(label);
        push_str(&mut m, ": ");
        push_str(&mut m, detail.as_str());
        m
    }
}

/// A websocket-class error with the given detail.
pub fn websocket_error(detail: &str) -> (e: AnemoneBotError)
    ensures
        e matches AnemoneBotError::WebSocket(s) && s@ == detail@,
{
    AnemoneBotError::WebSocket(String::from_str(detail))
}

/// A configuration error with the given detail.
pub fn config_error(detail: &str) -> (e: AnemoneBotError)
    ensures
        e matches AnemoneBotError::Config(s) && s@ == detail@,
{
    AnemoneBotError::Config(String::from_str(detail))
}

} // verus!
