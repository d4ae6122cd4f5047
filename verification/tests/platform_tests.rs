use anemone_bot::bridge::{Bridges, PlatformSet};
use anemone_bot::config::BridgeConfig;
use anemone_bot::discord::{
    connect_outcome, connect_reply_complete, connect_request, discord_decision, discord_message_id,
    gateway_connect_url, gateway_host, gateway_op, heartbeat_interval, proxy_address, snowflake,
    track_seq, DiscordDecision, DiscordIncoming, GatewayOp,
};
use anemone_bot::error::AnemoneBotError;
use anemone_bot::matrix::{
    bold_html, compose_matrix, display_name, guess_kind, guess_mime, homeserver_url, matrix_decision,
    mime_str, mxc_download_url, redaction_should_recall, MatrixSendAction, MatrixSendEvent, MatrixSending, room_url, send_url, str_eq, sync_url,
    upload_meta, upload_url, whoami_url, ImageKind, MatrixDecision, MatrixEvent, TxnCounter,
};
use anemone_bot::message::{Attachment, DiscordMessage, MatrixMessage, Message, Platform, QQMessage, TelegramMessage};
use anemone_bot::onebot::{
    classify_event, is_api_response, qq_decision, qq_message_id, sent_message_id, EchoCounter, Event,
    EventKind, QqDecision, ReplyInfo, Sender,
};
use anemone_bot::outgoing::{
    attachment_fetch, compose_discord, compose_qq_text, compose_telegram, compose_with_files,
    copy_bytes, header, source_prefix, AttachmentFetch, TelegramMode,
};
use anemone_bot::telegram::{
    api_base, message_result, method_url, next_offset, sender_name, telegram_decision, updates_url,
    TelegramDecision, TelegramIncoming,
};

const ALL: PlatformSet = PlatformSet { discord: true, qq: true, telegram: true, matrix: true };

fn s(x: &str) -> String {
    String::from(x)
}

fn bridges() -> Bridges {
    let cfgs = vec![BridgeConfig {
        discord_channel_id: Some(100),
        qq_group_id: Some(200),
        telegram_group_id: Some(-300),
        matrix_room_id: Some(s("!r:hs")),
    }];
    Bridges::new(&cfgs, ALL)
}

fn att(url: Option<&str>, name: &str, ct: Option<&str>) -> Attachment {
    Attachment { url: url.map(String::from), data: None, filename: s(name), content_type: ct.map(String::from) }
}

fn event(msg: &str) -> Event {
    Event {
        post_type: s("message"),
        message_type: s("group"),
        message_id: 42,
        user_id: 7,
        group_id: 200,
        message: s(msg),
        sender: Some(Sender { nickname: s("nick"), card: s("") }),
        reply: None,
        self_id: 1,
        meta_event_type: s(""),
        sub_type: s(""),
    }
}

#[test]
fn message_trait_accessors() {
    let m = QQMessage {
        msg_id: s("1"),
        sender_name: s("a"),
        content: s("hi"),
        reply_to_msg_id: Some(s("0")),
        attachments: vec![],
    };
    assert_eq!((m.msg_id(), m.sender_name(), m.content()), ("1", "a", "hi"));
    assert_eq!(m.source(), Platform::QQ);
    assert_eq!(m.reply_to_msg_id(), Some("0"));
    let d = DiscordMessage { msg_id: s("2"), sender_name: s("b"), content: s("c"), reply_to_msg_id: None, attachments: vec![] };
    assert_eq!(d.source(), Platform::Discord);
    assert_eq!(d.reply_to_msg_id(), None);
    let t = TelegramMessage { msg_id: s("3"), sender_name: s("c"), content: s("d"), reply_to_msg_id: None, attachments: vec![] };
    assert_eq!(t.source(), Platform::Telegram);
    let x = MatrixMessage { msg_id: s("$4"), sender_name: s("e"), content: s("f"), reply_to_msg_id: None, attachments: vec![att(Some("u"), "p.png", None)] };
    assert_eq!(x.source(), Platform::Matrix);
    assert_eq!(x.attachments().len(), 1);
}

#[test]
fn echo_ids_count_up() {
    let mut c = EchoCounter::new();
    assert_eq!(c.next_echo(), "anemone_0");
    assert_eq!(c.next_echo(), "anemone_1");
    let mut t = TxnCounter::new();
    assert_eq!(t.txn_id(), "anemone-0");
    assert_eq!(t.txn_id(), "anemone-1");
}

#[test]
fn onebot_frames() {
    assert!(is_api_response(Some("anemone_3"), true));
    assert!(!is_api_response(Some("anemone_3"), false));
    assert!(!is_api_response(None, true));
    assert!(matches!(classify_event(&event("x")), EventKind::Message));
    let mut conn = event("");
    conn.post_type = s("meta_event");
    conn.meta_event_type = s("lifecycle");
    conn.sub_type = s("connect");
    conn.self_id = 99;
    assert!(matches!(classify_event(&conn), EventKind::Connect(99)));
    conn.sub_type = s("enable");
    assert!(matches!(classify_event(&conn), EventKind::Other));
}

#[test]
fn qq_events_are_forwarded() {
    let b = bridges();
    let mut ev = event("[CQ:reply,id=9]hello &amp; bye [CQ:image,url=https://i/1.png]");
    ev.sender = Some(Sender { nickname: s("nick"), card: s("Card") });
    match qq_decision(&ev, &b) {
        QqDecision::Forward { bridge, message } => {
            assert_eq!(bridge, 0);
            assert_eq!(message.msg_id, "42");
            assert_eq!(message.sender_name, "Card");
            assert_eq!(message.content, "hello & bye");
            assert_eq!(message.reply_to_msg_id.as_deref(), Some("9"));
            assert_eq!(message.attachments.len(), 1);
            assert_eq!(message.attachments[0].url.as_deref(), Some("https://i/1.png"));
        }
        _ => panic!("expected a forward"),
    }
}

#[test]
fn qq_events_that_are_dropped() {
    let mut b = bridges();
    let mut private = event("hi");
    private.message_type = s("private");
    assert!(matches!(qq_decision(&private, &b), QqDecision::Drop));
    let mut other_group = event("hi");
    other_group.group_id = 201;
    assert!(matches!(qq_decision(&other_group, &b), QqDecision::Drop));
    assert!(matches!(qq_decision(&event("[CQ:face,id=1]  "), &b), QqDecision::Drop));
    assert!(matches!(qq_decision(&event("x [CQ:image,"), &b), QqDecision::Malformed));
    b.set_qq_self_id(7);
    assert!(matches!(qq_decision(&event("hi"), &b), QqDecision::Drop));
}

#[test]
fn qq_reply_field_and_names() {
    let b = bridges();
    let mut ev = event("plain");
    ev.reply = Some(ReplyInfo { message_id: -5 });
    ev.sender = None;
    match qq_decision(&ev, &b) {
        QqDecision::Forward { message, .. } => {
            assert_eq!(message.reply_to_msg_id.as_deref(), Some("-5"));
            assert_eq!(message.sender_name, "unknown");
        }
        _ => panic!("expected a forward"),
    }
}

#[test]
fn qq_ids() {
    assert_eq!(qq_message_id("123").ok(), Some(123));
    match qq_message_id("abc") {
        Err(AnemoneBotError::WebSocket(m)) => assert!(!m.is_empty()),
        _ => panic!("expected an error"),
    }
    assert_eq!(sent_message_id(Some(8)).ok(), Some(8));
    assert!(sent_message_id(None).is_err());
}

fn tg(text: Option<&str>) -> TelegramIncoming {
    TelegramIncoming {
        chat_id: Some(-300),
        from_id: Some(5),
        from_is_bot: Some(false),
        text: text.map(String::from),
        message_id: Some(77),
        first_name: Some(s("Ann")),
        last_name: Some(s("Lee")),
        username: Some(s("ann_l")),
        reply_to_id: Some(70),
    }
}

#[test]
fn telegram_updates() {
    let b = bridges();
    match telegram_decision(&tg(Some("hey")), &b) {
        TelegramDecision::Forward { bridge, message } => {
            assert_eq!(bridge, 0);
            assert_eq!(message.msg_id, "77");
            assert_eq!(message.sender_name, "Ann Lee");
            assert_eq!(message.content, "hey");
            assert_eq!(message.reply_to_msg_id.as_deref(), Some("70"));
        }
        _ => panic!("expected a forward"),
    }
    assert!(matches!(telegram_decision(&tg(None), &b), TelegramDecision::Skip));
    let mut bot = tg(Some("hey"));
    bot.from_is_bot = Some(true);
    assert!(matches!(telegram_decision(&bot, &b), TelegramDecision::Skip));
    let mut elsewhere = tg(Some("hey"));
    elsewhere.chat_id = Some(1);
    assert!(matches!(telegram_decision(&elsewhere, &b), TelegramDecision::Skip));
}

#[test]
fn telegram_names_and_urls() {
    assert_eq!(sender_name(&Some(s("Ann")), &None, &None), "Ann");
    assert_eq!(sender_name(&Some(s(" ")), &Some(s("")), &Some(s("u1"))), "u1");
    assert_eq!(sender_name(&None, &None, &None), "unknown");
    assert_eq!(api_base("T"), "https://api.telegram.org/botT");
    assert_eq!(method_url("T", "sendMessage"), "https://api.telegram.org/botT/sendMessage");
    assert_eq!(updates_url("T", -1), "https://api.telegram.org/botT/getUpdates?offset=-1&timeout=30");
    assert_eq!(next_offset(0, Some(10)), 11);
    assert_eq!(next_offset(20, Some(10)), 20);
    assert_eq!(next_offset(0, None), 1);
}

#[test]
fn telegram_results() {
    assert_eq!(message_result(Some(true), None, Some(12), "sendMessage", "no id").ok(), Some(s("12")));
    match message_result(Some(false), Some("Bad Request"), None, "sendPhoto", "no id") {
        Err(AnemoneBotError::WebSocket(m)) => assert_eq!(m, "telegram sendPhoto failed: Bad Request"),
        _ => panic!("expected an error"),
    }
    match message_result(None, None, None, "sendMessage", "no id") {
        Err(AnemoneBotError::WebSocket(m)) => assert_eq!(m, "telegram sendMessage failed: unknown"),
        _ => panic!("expected an error"),
    }
    match message_result(Some(true), None, None, "sendMessage", "no id") {
        Err(AnemoneBotError::WebSocket(m)) => assert_eq!(m, "no id"),
        _ => panic!("expected an error"),
    }
}

fn dc(content: Option<&str>) -> DiscordIncoming {
    DiscordIncoming {
        channel_id: Some(s("100")),
        author_id: Some(s("55")),
        author_bot: None,
        id: Some(s("9001")),
        global_name: None,
        username: Some(s("carl")),
        content: content.map(String::from),
        referenced_id: None,
        reference_message_id: Some(s("8000")),
    }
}

#[test]
fn discord_messages() {
    let mut b = bridges();
    match discord_decision(&dc(Some("yo")), &b) {
        DiscordDecision::Forward { bridge, message } => {
            assert_eq!(bridge, 0);
            assert_eq!(message.msg_id, "9001");
            assert_eq!(message.sender_name, "carl");
            assert_eq!(message.content, "yo");
            assert_eq!(message.reply_to_msg_id.as_deref(), Some("8000"));
        }
        _ => panic!("expected a forward"),
    }
    assert!(matches!(discord_decision(&dc(Some("")), &b), DiscordDecision::Skip));
    b.set_discord_self_id(55);
    assert!(matches!(discord_decision(&dc(Some("yo")), &b), DiscordDecision::Skip));
}

#[test]
fn discord_gateway_helpers() {
    assert_eq!(gateway_connect_url("wss://gateway.discord.gg"), "wss://gateway.discord.gg/?v=10&encoding=json");
    assert_eq!(gateway_host("wss://gateway.discord.gg/?v=10&encoding=json"), "gateway.discord.gg");
    assert_eq!(proxy_address("http://127.0.0.1:7890"), "127.0.0.1:7890");
    assert_eq!(proxy_address("https://p:1"), "p:1");
    assert_eq!(
        connect_request("gateway.discord.gg", 443),
        "CONNECT gateway.discord.gg:443 HTTP/1.1\r\nHost: gateway.discord.gg:443\r\n\r\n"
    );
    assert!(connect_reply_complete(b"HTTP/1.1 200 OK\r\n\r\n"));
    assert!(!connect_reply_complete(b"HTTP/1.1 200 OK\r\n"));
    assert!(!connect_reply_complete(&[0xff, 0xfe]));
    assert!(connect_outcome(b"HTTP/1.1 200 Connection established\r\n\r\n").is_ok());
    match connect_outcome(b"HTTP/1.1 407 Proxy Auth\r\nX: y\r\n\r\n") {
        Err(AnemoneBotError::WebSocket(m)) => assert_eq!(m, "proxy CONNECT rejected: HTTP/1.1 407 Proxy Auth"),
        _ => panic!("expected a rejection"),
    }
    assert!(matches!(gateway_op(Some(10)), GatewayOp::Hello));
    assert!(matches!(gateway_op(Some(0)), GatewayOp::Dispatch));
    assert!(matches!(gateway_op(Some(3)), GatewayOp::Other));
    assert!(matches!(gateway_op(None), GatewayOp::Other));
    assert_eq!(track_seq(Some(4), None), Some(4));
    assert_eq!(track_seq(Some(4), Some(5)), Some(5));
    assert_eq!(heartbeat_interval(None), 45000);
    assert_eq!(heartbeat_interval(Some(41250)), 41250);
    assert_eq!(snowflake(&Some(s("123"))), 123);
    assert_eq!(snowflake(&Some(s("x"))), 0);
    assert_eq!(discord_message_id("77").ok(), Some(77));
    assert!(discord_message_id("-1").is_err());
}

#[test]
fn matrix_names_and_urls() {
    assert_eq!(display_name("@alice:matrix.org"), "alice");
    assert_eq!(display_name("bob"), "bob");
    assert_eq!(
        mxc_download_url("https://hs.org/", "mxc://hs.org/abc123").as_deref(),
        Some("https://hs.org/_matrix/media/v3/download/hs.org/abc123")
    );
    assert_eq!(mxc_download_url("https://hs.org", "http://x/y"), None);
    assert_eq!(mxc_download_url("https://hs.org", "mxc://nomedia"), None);
    assert_eq!(room_url("https://hs/", "!r:hs"), "https://hs/_matrix/client/v3/rooms/!r:hs");
    assert_eq!(upload_url("https://hs", "a.png"), "https://hs/_matrix/media/v3/upload?filename=a.png");
    assert_eq!(whoami_url("https://hs//"), "https://hs/_matrix/client/v3/account/whoami");
    assert_eq!(sync_url("https://hs", None), "https://hs/_matrix/client/v3/sync?timeout=30000");
    assert_eq!(sync_url("https://hs", Some("s1")), "https://hs/_matrix/client/v3/sync?timeout=30000&since=s1");
    assert_eq!(homeserver_url("https://hs/", "/p", "/t"), "https://hs/p/t");
    assert_eq!(send_url("https://hs/r", "anemone-0"), "https://hs/r/send/m.room.message/anemone-0");
    assert!(str_eq("a", "a") && !str_eq("a", "b"));
}

#[test]
fn matrix_mime_guessing() {
    assert_eq!(guess_mime(&[], "pic.PNG"), "image/png");
    assert_eq!(guess_mime(&[0xFF, 0xD8, 0xFF, 0x00], "noext"), "image/jpeg");
    assert_eq!(guess_mime(&[0x89, b'P', b'N', b'G'], "x"), "image/png");
    assert_eq!(guess_mime(b"GIF89a", "x"), "image/gif");
    assert_eq!(guess_mime(b"RIFF....", "x"), "image/webp");
    assert_eq!(guess_mime(b"????", "a.bmp"), "image/bmp");
    assert_eq!(guess_mime(b"????", "a.txt"), "image/jpeg");
    assert!(matches!(guess_kind(b"GIF8", "x"), ImageKind::Gif));
    assert_eq!(mime_str(ImageKind::Webp), "image/webp");
    let (mime, name) = upload_meta(&att(None, "photo", Some("")), b"GIF89a");
    assert_eq!((mime.as_str(), name.as_str()), ("image/gif", "photo.gif"));
    let (mime2, name2) = upload_meta(&att(None, "a.bin", Some("image/png")), b"x");
    assert_eq!((mime2.as_str(), name2.as_str()), ("image/png", "a.bin"));
}

#[test]
fn matrix_bold_body() {
    assert_eq!(bold_html("a<b"), "<strong>a&lt;b</strong>");
}

fn mev(event_type: &str, sender: &str) -> MatrixEvent {
    MatrixEvent {
        event_type: s(event_type),
        event_id: Some(s("$e1")),
        sender: Some(s(sender)),
        redacts: None,
        msgtype: Some(s("m.image")),
        formatted_body: None,
        body: Some(s("cat.png")),
        reply_to: Some(s("$e0")),
        url: Some(s("mxc://hs/m1")),
        mimetype: None,
    }
}

#[test]
fn matrix_events() {
    let mut b = bridges();
    match matrix_decision(&b, "!r:hs", &mev("m.room.message", "@zed:hs"), "https://hs") {
        MatrixDecision::Forward { bridge, msg_id, sender_name, content, reply_to, image } => {
            assert_eq!(bridge, 0);
            assert_eq!(msg_id, "$e1");
            assert_eq!(sender_name, "zed");
            assert_eq!(content, "cat.png");
            assert_eq!(reply_to.as_deref(), Some("$e0"));
            let im = image.unwrap();
            assert_eq!(im.url, "https://hs/_matrix/media/v3/download/hs/m1");
            assert_eq!(im.filename, "cat.png");
            assert_eq!(im.content_type.as_deref(), Some("image/jpeg"));
        }
        _ => panic!("expected a forward"),
    }
    assert!(matches!(matrix_decision(&b, "!other:hs", &mev("m.room.message", "@zed:hs"), "https://hs"), MatrixDecision::Skip));
    assert!(matches!(matrix_decision(&b, "!r:hs", &mev("m.reaction", "@zed:hs"), "https://hs"), MatrixDecision::Skip));
    let mut red = mev("m.room.redaction", "@zed:hs");
    red.redacts = Some(s("$gone"));
    match matrix_decision(&b, "!r:hs", &red, "https://hs") {
        MatrixDecision::Redact { bridge, redacts } => {
            assert_eq!(bridge, 0);
            assert_eq!(redacts, "$gone");
        }
        _ => panic!("expected a redaction"),
    }
    b.set_matrix_self_id(s("@zed:hs"));
    assert!(matches!(matrix_decision(&b, "!r:hs", &mev("m.room.message", "@zed:hs"), "https://hs"), MatrixDecision::Skip));
}

#[test]
fn matrix_redactions_of_own_deletions() {
    let mut b = bridges();
    b.suppress_recall(0, Platform::Matrix, "$x", 1);
    assert!(!redaction_should_recall(&mut b, 0, true, "$x"));
    assert!(redaction_should_recall(&mut b, 0, true, "$x"));
    assert!(!redaction_should_recall(&mut b, 0, false, "$y"));
}

#[test]
fn headers_and_prefixes() {
    assert_eq!(source_prefix(Platform::Discord, Platform::QQ), "**[QQ]**");
    assert_eq!(source_prefix(Platform::Telegram, Platform::Matrix), "[Matrix]");
    assert_eq!(header(Platform::QQ, Platform::Telegram, "ann", "hi"), "[Telegram] ann: hi");
}

#[test]
fn attachment_sources() {
    let mut a = att(Some("u"), "f", None);
    assert!(matches!(attachment_fetch(&a), AttachmentFetch::Download(ref u) if u == "u"));
    a.data = Some(vec![1]);
    assert!(matches!(attachment_fetch(&a), AttachmentFetch::Inline));
    assert!(matches!(attachment_fetch(&att(None, "f", None)), AttachmentFetch::Missing));
    assert_eq!(copy_bytes(&[1, 2, 3]), vec![1, 2, 3]);
}

#[test]
fn qq_text_inlines_images_as_base64() {
    let fetched = vec![Some(vec![1u8, 2, 3]), None];
    let t = compose_qq_text(Platform::Discord, "bob", "look", &fetched, Some("12"));
    assert_eq!(t, "[CQ:reply,id=12][Discord] bob: look[CQ:image,file=base64://AQID][图片]");
    let padded = compose_qq_text(Platform::Telegram, "t", "y", &[Some(vec![255u8]), Some(b"Ma".to_vec())], None);
    assert_eq!(padded, "[Telegram] t: y[CQ:image,file=base64:///w==][CQ:image,file=base64://TWE=]");
    let plain = compose_qq_text(Platform::Matrix, "m", "x", &[], None);
    assert_eq!(plain, "[Matrix] m: x");
}

#[test]
fn copies_with_files() {
    let atts = vec![att(Some("u1"), "one", None), att(Some("u2"), "two.png", None)];
    let fetched = vec![Some(vec![9u8]), None];
    let (text, files) = compose_with_files(Platform::Telegram, Platform::QQ, "q", "c", &atts, &fetched);
    assert_eq!(text, "[QQ] q: c[图片]");
    assert_eq!(files.len(), 1);
    assert_eq!(files[0].filename, "one");
    assert_eq!(files[0].data, vec![9u8]);

    let d = compose_discord(Platform::QQ, "q", "c", &atts, &vec![Some(vec![1u8]), Some(vec![2u8])], Some("123"));
    assert_eq!(d.text, "**[QQ]** q: c");
    assert_eq!(d.files[0].filename, "one.jpg");
    assert_eq!(d.files[1].filename, "two.png");
    assert_eq!(d.reply_to, Some(123));
    let bad = compose_discord(Platform::QQ, "q", "c", &[], &[], Some("$not"));
    assert_eq!(bad.reply_to, None);
    let long = "x".repeat(3000);
    let cut = compose_discord(Platform::Telegram, "q", &long, &[], &[], None);
    assert_eq!(cut.text.len(), 2000);
    assert!(cut.text.ends_with("..."));

    let t0 = compose_telegram(Platform::Discord, "d", "c", &[], &[], Some("-4"));
    assert!(matches!(t0.mode, TelegramMode::Text));
    assert_eq!(t0.reply_to, Some(-4));
    let t1 = compose_telegram(Platform::Discord, "d", "c", &atts[..1], &[Some(vec![1u8])], None);
    assert!(matches!(t1.mode, TelegramMode::Photo));
    let t2 = compose_telegram(Platform::Discord, "d", "c", &atts, &vec![Some(vec![1u8]), Some(vec![2u8])], None);
    assert!(matches!(t2.mode, TelegramMode::MediaGroup));
    assert_eq!(t2.text, "[Discord] d: c");

    let m = compose_matrix(Platform::Discord, "@u:hs", "c", &atts, &vec![Some(b"GIF89a".to_vec()), None]);
    assert_eq!(m.text, "[Discord] u: c[图片]");
    assert_eq!(m.images.len(), 1);
    assert_eq!(m.images[0].mime, "image/gif");
    assert_eq!(m.images[0].filename, "one.gif");
}

fn matrix_out(n: usize) -> anemone_bot::matrix::MatrixOutgoing {
    let atts: Vec<Attachment> = (0..n).map(|i| att(Some("u"), &format!("f{i}.png"), None)).collect();
    let fetched: Vec<Option<Vec<u8>>> = (0..n).map(|_| Some(vec![1u8])).collect();
    compose_matrix(Platform::QQ, "q", "hello", &atts, &fetched)
}

#[test]
fn matrix_text_copy_is_one_send() {
    let out = matrix_out(0);
    let mut run = MatrixSending::new(&out);
    match run.step(MatrixSendEvent::Begin) {
        MatrixSendAction::SendText { text } => assert_eq!(text, "[QQ] q: hello"),
        _ => panic!("expected a text send"),
    }
    match run.step(MatrixSendEvent::Sent(Some(s("$t")))) {
        MatrixSendAction::Done(r) => assert_eq!(r.as_deref(), Some("$t")),
        _ => panic!("expected the end"),
    }
}

#[test]
fn matrix_image_copies_caption_the_first_and_keep_its_id() {
    let out = matrix_out(3);
    let mut run = MatrixSending::new(&out);
    match run.step(MatrixSendEvent::Begin) {
        MatrixSendAction::SendImage { index, caption } => assert_eq!((index, caption.as_str()), (0, "[QQ] q: hello")),
        _ => panic!("expected an image send"),
    }
    match run.step(MatrixSendEvent::Sent(Some(s("$a")))) {
        MatrixSendAction::SendImage { index, caption } => assert_eq!((index, caption.as_str()), (1, "")),
        _ => panic!("expected an image send"),
    }
    match run.step(MatrixSendEvent::Sent(None)) {
        MatrixSendAction::SendImage { index, caption } => assert_eq!((index, caption.as_str()), (2, "")),
        _ => panic!("expected an image send"),
    }
    match run.step(MatrixSendEvent::Sent(Some(s("$c")))) {
        MatrixSendAction::Done(r) => assert_eq!(r.as_deref(), Some("$a")),
        _ => panic!("expected the end"),
    }
}

#[test]
fn matrix_failed_first_image_ends_the_send() {
    let out = matrix_out(2);
    let mut run = MatrixSending::new(&out);
    run.step(MatrixSendEvent::Begin);
    match run.step(MatrixSendEvent::Sent(None)) {
        MatrixSendAction::Done(r) => assert!(r.is_none()),
        _ => panic!("expected the end"),
    }
}
