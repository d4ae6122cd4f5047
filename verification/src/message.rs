//! Platform-agnostic message model: platforms, attachments, the incoming
//! message types of each platform, and reply records.

use vstd::prelude::*;

verus! {

/// The chat platforms the bridge connects.
#[derive(Debug, Clone, Copy, PartialEq, Eq, Structural)]
pub enum Platform {
    QQ,
    Discord,
    Telegram,
    Matrix,
}

/// Image or file attachment extracted from an incoming message.
#[derive(Debug, Clone)]
pub struct Attachment {
    pub url: Option<String>,
    pub data: Option<Vec<u8>>,
    pub filename: String,
    pub content_type: Option<String>,
}

/// Platform-agnostic message trait.
///
/// Each platform implements this trait on its own struct, so platform-specific
/// fields can be added without affecting other platforms.
pub trait Message {
    spec fn spec_msg_id(&self) -> Seq<char>;

    spec fn spec_sender_name(&self) -> Seq<char>;

    spec fn spec_content(&self) -> Seq<char>;

    spec fn spec_source(&self) -> Platform;

    spec fn spec_reply_to(&self) -> Option<Seq<char>>;

    spec fn spec_attachments(&self) -> Seq<Attachment>;

    fn msg_id(&self) -> (r: &str)
        ensures
            r@ == self.spec_msg_id(),
    ;

    fn sender_name(&self) -> (r: &str)
        ensures
            r@ == self.spec_sender_name(),
    ;

    fn content(&self) -> (r: &str)
        ensures
            r@ == self.spec_content(),
    ;

    fn source(&self) -> (r: Platform)
        ensures
            r == self.spec_source(),
    ;

    fn reply_to_msg_id(&self) -> (r: Option<&str>)
        ensures
            r matches Some(s) ==> self.spec_reply_to() == Some(s@),
            r is None ==> self.spec_reply_to() is None,
    ;

    fn attachments(&self) -> (r: &[Attachment])
        ensures
            r@ == self.spec_attachments(),
    ;
}

/// View of an optional string.
pub open spec fn opt_view(o: Option<String>) -> Option<Seq<char>> {
    match o {
        Some(s) => Some(s@),
        None => None,
    }
}

/// Borrows the contents of an optional string.
pub fn opt_as_str(o: &Option<String>) -> (r: Option<&str>)
    ensures
        r matches Some(s) ==> opt_view(*o) == Some(s@),
        r is None ==> o is None,
{
    match o {
        Some(s) => Some(s.as_str()),
        None => None,
    }
}

/// A message received from QQ.
pub struct QQMessage {
    pub msg_id: String,
    pub sender_name: String,
    pub content: String,
    pub reply_to_msg_id: Option<String>,
    pub attachments: Vec<Attachment>,
}

/// A message received from Discord.
pub struct DiscordMessage {
    pub msg_id: String,
    pub sender_name: String,
    pub content: String,
    pub reply_to_msg_id: Option<String>,
    pub attachments: Vec<Attachment>,
}

/// A message received from Telegram.
pub struct TelegramMessage {
    pub msg_id: String,
    pub sender_name: String,
    pub content: String,
    pub reply_to_msg_id: Option<String>,
    pub attachments: Vec<Attachment>,
}

/// A message received from Matrix.
pub struct MatrixMessage {
    pub msg_id: String,
    pub sender_name: String,
    pub content: String,
    pub reply_to_msg_id: Option<String>,
    pub attachments: Vec<Attachment>,
}

impl Message for QQMessage {
    open spec fn spec_msg_id(&self) -> Seq<char> {
        self.msg_id@
    }

    open spec fn spec_sender_name(&self) -> Seq<char> {
        self.sender_name@
    }

    open spec fn spec_content(&self) -> Seq<char> {
        self.content@
    }

    open spec fn spec_source(&self) -> Platform {
        Platform::QQ
    }

    open spec fn spec_reply_to(&self) -> Option<Seq<char>> {
        opt_view(self.reply_to_msg_id)
    }

    open spec fn spec_attachments(&self) -> Seq<Attachment> {
        self.attachments@
    }

    fn msg_id(&self) -> (r: &str) {
        self.msg_id.as_str()
    }

    fn sender_name(&self) -> (r: &str) {
        self.sender_name.as_str()
    }

    fn content(&self) -> (r: &str) {
        self.content.as_str()
    }

    fn source(&self) -> (r: Platform) {
        Platform::QQ
    }

    fn reply_to_msg_id(&self) -> (r: Option<&str>) {
        opt_as_str(&self.reply_to_msg_id)
    }

    fn attachments(&self) -> (r: &[Attachment]) {
        self.attachments.as_slice()
    }
}

impl Message for DiscordMessage {
    open spec fn spec_msg_id(&self) -> Seq<char> {
        self.msg_id@
    }

    open spec fn spec_sender_name(&self) -> Seq<char> {
        self.sender_name@
    }

    open spec fn spec_content(&self) -> Seq<char> {
        self.content@
    }

    open spec fn spec_source(&self) -> Platform {
        Platform::Discord
    }

    open spec fn spec_reply_to(&self) -> Option<Seq<char>> {
        opt_view(self.reply_to_msg_id)
    }

    open spec fn spec_attachments(&self) -> Seq<Attachment> {
        self.attachments@
    }

    fn msg_id(&self) -> (r: &str) {
        self.msg_id.as_str()
    }

    fn sender_name(&self) -> (r: &str) {
        self.sender_name.as_str()
    }

    fn content(&self) -> (r: &str) {
        self.content.as_str()
    }

    fn source(&self) -> (r: Platform) {
        Platform::Discord
    }

    fn reply_to_msg_id(&self) -> (r: Option<&str>) {
        opt_as_str(&self.reply_to_msg_id)
    }

    fn attachments(&self) -> (r: &[Attachment]) {
        self.attachments.as_slice()
    }
}

impl Message for TelegramMessage {
    open spec fn spec_msg_id(&self) -> Seq<char> {
        self.msg_id@
    }

    open spec fn spec_sender_name(&self) -> Seq<char> {
        self.sender_name@
    }

    open spec fn spec_content(&self) -> Seq<char> {
        self.content@
    }

    open spec fn spec_source(&self) -> Platform {
        Platform::Telegram
    }

    open spec fn spec_reply_to(&self) -> Option<Seq<char>> {
        opt_view(self.reply_to_msg_id)
    }

    open spec fn spec_attachments(&self) -> Seq<Attachment> {
        self.attachments@
    }

    fn msg_id(&self) -> (r: &str) {
        self.msg_id.as_str()
    }

    fn sender_name(&self) -> (r: &str) {
        self.sender_name.as_str()
    }

    fn content(&self) -> (r: &str) {
        self.content.as_str()
    }

    fn source(&self) -> (r: Platform) {
        Platform::Telegram
    }

    fn reply_to_msg_id(&self) -> (r: Option<&str>) {
        opt_as_str(&self.reply_to_msg_id)
    }

    fn attachments(&self) -> (r: &[Attachment]) {
        self.attachments.as_slice()
    }
}

impl Message for MatrixMessage {
    open spec fn spec_msg_id(&self) -> Seq<char> {
        self.msg_id@
    }

    open spec fn spec_sender_name(&self) -> Seq<char> {
        self.sender_name@
    }

    open spec fn spec_content(&self) -> Seq<char> {
        self.content@
    }

    open spec fn spec_source(&self) -> Platform {
        Platform::Matrix
    }

    open spec fn spec_reply_to(&self) -> Option<Seq<char>> {
        opt_view(self.reply_to_msg_id)
    }

    open spec fn spec_attachments(&self) -> Seq<Attachment> {
        self.attachments@
    }

    fn msg_id(&self) -> (r: &str) {
        self.msg_id.as_str()
    }

    fn sender_name(&self) -> (r: &str) {
        self.sender_name.as_str()
    }

    fn content(&self) -> (r: &str) {
        self.content.as_str()
    }

    fn source(&self) -> (r: Platform) {
        Platform::Matrix
    }

    fn reply_to_msg_id(&self) -> (r: Option<&str>) {
        opt_as_str(&self.reply_to_msg_id)
    }

    fn attachments(&self) -> (r: &[Attachment]) {
        self.attachments.as_slice()
    }
}

/// Resolved result of a reply lookup: maps one original message to IDs on all
/// known platforms.
#[derive(Debug, Clone)]
pub struct ReplyRecord {
    pub original_sender: String,
    pub original_content_preview: String,
    pub original_platform: Platform,
    pub discord_msg_id: Option<String>,
    pub qq_msg_id: Option<String>,
    pub telegram_msg_id: Option<String>,
    pub matrix_msg_id: Option<String>,
}

impl ReplyRecord {
    /// The recorded message ID on `platform`.
    pub open spec fn spec_id_on(&self, platform: Platform) -> Option<Seq<char>> {
        match platform {
            Platform::Discord => opt_view(self.discord_msg_id),
            Platform::QQ => opt_view(self.qq_msg_id),
            Platform::Telegram => opt_view(self.telegram_msg_id),
            Platform::Matrix => opt_view(self.matrix_msg_id),
        }
    }

    /// Get the message ID on the given platform, if known.
    pub fn id_on(&self, platform: Platform) -> (r: Option<&str>)
        ensures
            r matches Some(s) ==> self.spec_id_on(platform) == Some(s@),
            r is None ==> self.spec_id_on(platform) is None,
    {
        match platform {
            Platform::Discord => opt_as_str(&self.discord_msg_id),
            Platform::QQ => opt_as_str(&self.qq_msg_id),
            Platform::Telegram => opt_as_str(&self.telegram_msg_id),
            Platform::Matrix => opt_as_str(&self.matrix_msg_id),
        }
    }
}

} // verus!
