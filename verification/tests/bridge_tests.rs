use anemone_bot::bridge::{bridge_key, Bridges, PlatformSet};
use anemone_bot::config::{copy_bridge_config, AppConfig, BridgeConfig};
use anemone_bot::controller::{
    copy_app_config, indicator_label, start_plan, validate_cli_config, BotController, BotStatus,
    StartPlan, RETENTION_SECS,
};
use anemone_bot::error::{config_error, websocket_error, AnemoneBotError};
use anemone_bot::fanout::{
    recall_targets, ForwardAction, ForwardEvent, ForwardPhase, Forwarding, RecallAction, RecallEvent,
    RecallPhase, Recalling,
};
use anemone_bot::message::{Platform, ReplyRecord};
use anemone_bot::recall::SuppressedRecalls;
use anemone_bot::store::{plat_from_str, plat_str, platform_named, reply_record_from_row, RouteRow};

const ALL: PlatformSet = PlatformSet { discord: true, qq: true, telegram: true, matrix: true };

fn cfg(d: Option<u64>, q: Option<i64>, t: Option<i64>, m: Option<&str>) -> BridgeConfig {
    BridgeConfig {
        discord_channel_id: d,
        qq_group_id: q,
        telegram_group_id: t,
        matrix_room_id: m.map(String::from),
    }
}

fn s(x: &str) -> String {
    String::from(x)
}

#[test]
fn platform_names_round_trip() {
    for p in [Platform::QQ, Platform::Discord, Platform::Telegram, Platform::Matrix] {
        assert_eq!(plat_from_str(&plat_str(p)), p);
        assert_eq!(platform_named(&plat_str(p)), Some(p));
    }
    assert_eq!(plat_str(Platform::Discord), "discord");
    assert_eq!(plat_str(Platform::QQ), "qq");
    assert_eq!(platform_named("irc"), None);
    assert_eq!(plat_from_str("irc"), Platform::QQ);
}

#[test]
fn route_rows_become_reply_records() {
    let row = RouteRow {
        sender: s("alice"),
        preview: s("hi..."),
        src_plat: s("qq"),
        src_msg_id: s("123"),
        dst_plat: s("discord"),
        dst_msg_id: s("9876"),
    };
    let r: ReplyRecord = reply_record_from_row(&row);
    assert_eq!(r.original_sender, "alice");
    assert_eq!(r.original_content_preview, "hi...");
    assert_eq!(r.original_platform, Platform::QQ);
    assert_eq!(r.id_on(Platform::QQ), Some("123"));
    assert_eq!(r.id_on(Platform::Discord), Some("9876"));
    assert_eq!(r.id_on(Platform::Telegram), None);
    assert_eq!(r.id_on(Platform::Matrix), None);
    let odd = RouteRow { dst_plat: s("irc"), ..row };
    let r2 = reply_record_from_row(&odd);
    assert_eq!(r2.id_on(Platform::QQ), None);
    assert_eq!(r2.id_on(Platform::Discord), None);
}

#[test]
fn recall_marks_are_taken_once() {
    let mut m = SuppressedRecalls::new();
    assert!(!m.contains(Platform::Discord, "1"));
    m.suppress(Platform::Discord, "1", 100);
    m.suppress(Platform::QQ, "1", 100);
    assert!(m.contains(Platform::Discord, "1"));
    assert!(m.take(Platform::Discord, "1"));
    assert!(!m.take(Platform::Discord, "1"));
    assert!(m.contains(Platform::QQ, "1"));
}

#[test]
fn recall_marks_expire() {
    let mut m = SuppressedRecalls::new();
    m.suppress(Platform::Telegram, "old", 10);
    m.suppress(Platform::Telegram, "new", 55);
    m.prune(30, 60);
    assert!(!m.contains(Platform::Telegram, "old"));
    assert!(m.contains(Platform::Telegram, "new"));
    m.suppress(Platform::Matrix, "fresh", 70);
    m.prune(0, 70);
    assert!(m.contains(Platform::Matrix, "fresh"));
}

#[test]
fn bridge_keys_and_senders() {
    let c = cfg(Some(42), Some(-7), None, Some("!room:hs"));
    let (key, senders) = bridge_key(&c, ALL);
    assert_eq!(key, "d_42:q_-7:m_!room:hs");
    assert_eq!(senders, vec![Platform::Discord, Platform::QQ, Platform::Matrix]);
    let only = PlatformSet { discord: false, qq: true, telegram: true, matrix: false };
    let (key2, senders2) = bridge_key(&c, only);
    assert_eq!(key2, "q_-7");
    assert_eq!(senders2, vec![Platform::QQ]);
}

#[test]
fn bridge_lookup_prefers_later_bridges() {
    let cfgs = vec![
        cfg(Some(1), Some(10), None, None),
        cfg(Some(2), None, Some(20), Some("!a:hs")),
        cfg(Some(1), None, None, None),
    ];
    let b = Bridges::new(&cfgs, ALL);
    assert_eq!(b.len(), 3);
    assert_eq!(b.by_discord(1), Some(2));
    assert_eq!(b.by_discord(2), Some(1));
    assert_eq!(b.by_discord(3), None);
    assert_eq!(b.by_qq(10), Some(0));
    assert_eq!(b.by_telegram(20), Some(1));
    assert_eq!(b.by_matrix("!a:hs"), Some(1));
    assert_eq!(b.by_matrix("!b:hs"), None);
    assert_eq!(b.bridge(1).group_key(), "d_2:t_20:m_!a:hs");
    assert_eq!(b.bridge(0).senders(), &[Platform::Discord, Platform::QQ][..]);
}

#[test]
fn readiness_waits_for_every_platform() {
    let cfgs = vec![cfg(Some(1), Some(10), Some(20), Some("!a:hs"))];
    let mut b = Bridges::new(&cfgs, ALL);
    assert!(!b.is_ready());
    b.set_discord_self_id(5);
    b.set_qq_self_id(6);
    b.set_telegram_self_id(7);
    assert!(!b.is_ready());
    b.set_matrix_self_id(s("@bot:hs"));
    assert!(b.is_ready());
    assert!(b.is_self_discord(5));
    assert!(b.is_self_qq(6));
    assert!(b.is_self_telegram(7));
    assert!(b.is_self_matrix("@bot:hs"));
    b.set_discord_self_id(99);
    assert!(b.is_self_discord(5));
    assert!(!b.is_self_discord(99));
    assert!(b.is_ready());
}

#[test]
fn qq_and_telegram_share_an_id_without_their_clients() {
    let cfgs = vec![cfg(Some(1), Some(10), Some(20), None)];
    let avail = PlatformSet { discord: true, qq: false, telegram: false, matrix: false };
    let mut b = Bridges::new(&cfgs, avail);
    b.set_qq_self_id(33);
    assert!(b.is_self_telegram(33));
    b.note_qq_connection_self_id(44);
    assert!(b.is_self_qq(33));
}

#[test]
fn bridge_recall_marks() {
    let cfgs = vec![cfg(Some(1), Some(10), None, None), cfg(Some(2), Some(11), None, None)];
    let mut b = Bridges::new(&cfgs, ALL);
    b.suppress_recall(0, Platform::QQ, "m1", 5);
    assert!(b.bridge(0).is_suppressed(Platform::QQ, "m1"));
    assert!(!b.bridge(1).is_suppressed(Platform::QQ, "m1"));
    assert!(b.take_suppressed_recall(0, Platform::QQ, "m1"));
    assert!(!b.take_suppressed_recall(0, Platform::QQ, "m1"));
    b.suppress_recall(1, Platform::Discord, "m2", 5);
    b.prune_recall_state(10, 100);
    assert!(!b.bridge(1).is_suppressed(Platform::Discord, "m2"));
}

fn one_bridge() -> Bridges {
    Bridges::new(&[cfg(Some(1), Some(2), Some(3), Some("!r:hs"))], ALL)
}

fn run(f: &mut Forwarding, events: Vec<ForwardEvent>) -> Vec<ForwardAction> {
    let mut b = one_bridge();
    let mut out = Vec::new();
    for e in events {
        out.push(f.step(&mut b, 0, e));
    }
    out
}

#[test]
fn forwarding_skips_the_source_platform() {
    let mut f = Forwarding::new(
        0,
        Platform::QQ,
        vec![Platform::Discord, Platform::QQ, Platform::Telegram],
        None,
    );
    let acts = run(
        &mut f,
        vec![
            ForwardEvent::Ready(true),
            ForwardEvent::Recalled(false),
            ForwardEvent::Recalled(false),
            ForwardEvent::Sent(Some(s("d1"))),
            ForwardEvent::Recalled(false),
            ForwardEvent::Done,
            ForwardEvent::Recalled(false),
            ForwardEvent::Sent(None),
        ],
    );
    assert!(matches!(acts[0], ForwardAction::CheckRecalled));
    assert!(matches!(acts[1], ForwardAction::CheckRecalled));
    assert!(matches!(acts[2], ForwardAction::Send { sender: 0, reply_to: None }));
    assert!(matches!(acts[3], ForwardAction::CheckRecalled));
    match &acts[4] {
        ForwardAction::Record { sender, dst } => {
            assert_eq!(*sender, 0);
            assert_eq!(dst, "d1");
        }
        _ => panic!("expected a record"),
    }
    assert!(matches!(acts[5], ForwardAction::CheckRecalled));
    assert!(matches!(acts[6], ForwardAction::Send { sender: 2, reply_to: None }));
    assert!(matches!(acts[7], ForwardAction::Stop));
    assert!(matches!(f.phase, ForwardPhase::Finished));
}

#[test]
fn forwarding_replies_on_each_platform() {
    let mut f = Forwarding::new(
        0,
        Platform::Discord,
        vec![Platform::Discord, Platform::Telegram],
        Some(s("555")),
    );
    let rec = ReplyRecord {
        original_sender: s("bob"),
        original_content_preview: s("x"),
        original_platform: Platform::Discord,
        discord_msg_id: Some(s("555")),
        qq_msg_id: None,
        telegram_msg_id: Some(s("77")),
        matrix_msg_id: None,
    };
    let mut b = one_bridge();
    assert!(matches!(f.step(&mut b, 0, ForwardEvent::Ready(true)), ForwardAction::CheckRecalled));
    match f.step(&mut b, 0, ForwardEvent::Recalled(false)) {
        ForwardAction::LookupReply(id) => assert_eq!(id, "555"),
        _ => panic!("expected a lookup"),
    }
    assert!(matches!(f.step(&mut b, 0, ForwardEvent::ReplyFound(Some(rec))), ForwardAction::CheckRecalled));
    match f.step(&mut b, 0, ForwardEvent::Recalled(false)) {
        ForwardAction::Send { sender, reply_to } => {
            assert_eq!(sender, 1);
            assert_eq!(reply_to.as_deref(), Some("77"));
        }
        _ => panic!("expected a send"),
    }
}

#[test]
fn forwarding_stops_when_not_ready_or_recalled() {
    let mut b = one_bridge();
    let mut f = Forwarding::new(0, Platform::QQ, vec![Platform::Discord], None);
    assert!(matches!(f.step(&mut b, 0, ForwardEvent::Ready(false)), ForwardAction::Stop));
    let mut g = Forwarding::new(0, Platform::QQ, vec![Platform::Discord], None);
    g.step(&mut b, 0, ForwardEvent::Ready(true));
    assert!(matches!(g.step(&mut b, 0, ForwardEvent::Recalled(true)), ForwardAction::Stop));
}

#[test]
fn forwarding_deletes_late_copies() {
    let mut b = one_bridge();
    let mut f = Forwarding::new(0, Platform::QQ, vec![Platform::Matrix], None);
    f.step(&mut b, 0, ForwardEvent::Ready(true));
    f.step(&mut b, 0, ForwardEvent::Recalled(false));
    f.step(&mut b, 0, ForwardEvent::Recalled(false));
    f.step(&mut b, 0, ForwardEvent::Sent(Some(s("$ev"))));
    match f.step(&mut b, 1, ForwardEvent::Recalled(true)) {
        ForwardAction::DeleteLateCopy { sender, dst } => {
            assert_eq!(sender, 0);
            assert_eq!(dst, "$ev");
        }
        _ => panic!("expected a delete"),
    }
    assert!(b.bridge(0).is_suppressed(Platform::Matrix, "$ev"));
    match f.step(&mut b, 2, ForwardEvent::Deleted(false)) {
        ForwardAction::Record { sender, dst } => assert_eq!((sender, dst.as_str()), (0, "$ev")),
        _ => panic!("expected a record"),
    }
    assert!(!b.bridge(0).is_suppressed(Platform::Matrix, "$ev"));
    assert!(matches!(f.step(&mut b, 3, ForwardEvent::Done), ForwardAction::Stop));
}

#[test]
fn late_copy_mark_stays_after_a_successful_delete() {
    let mut b = one_bridge();
    let mut f = Forwarding::new(0, Platform::QQ, vec![Platform::Telegram], None);
    f.step(&mut b, 0, ForwardEvent::Ready(true));
    f.step(&mut b, 0, ForwardEvent::Recalled(false));
    f.step(&mut b, 0, ForwardEvent::Recalled(false));
    f.step(&mut b, 0, ForwardEvent::Sent(Some(s("55"))));
    f.step(&mut b, 1, ForwardEvent::Recalled(true));
    f.step(&mut b, 2, ForwardEvent::Deleted(true));
    assert!(b.bridge(0).is_suppressed(Platform::Telegram, "55"));
}

#[test]
fn recall_targets_skip_the_recalled_message() {
    let related = vec![
        (Platform::QQ, s("1")),
        (Platform::Discord, s("2")),
        (Platform::Telegram, s("3")),
        (Platform::Matrix, s("4")),
    ];
    let senders = vec![Platform::Discord, Platform::QQ, Platform::Telegram];
    let t = recall_targets(Platform::QQ, "1", &related, &senders);
    assert_eq!(t.len(), 2);
    assert_eq!((t[0].sender, t[0].platform, t[0].msg_id.as_str()), (0, Platform::Discord, "2"));
    assert_eq!((t[1].sender, t[1].platform, t[1].msg_id.as_str()), (2, Platform::Telegram, "3"));
}

fn app_config() -> AppConfig {
    let mut c = AppConfig::default();
    c.bind_addr = Some(s("0.0.0.0:8080"));
    c.discord_token = Some(s("dtok"));
    c.matrix_token = Some(s("mtok"));
    c.bridges = vec![cfg(Some(1), Some(2), None, None)];
    c
}

#[test]
fn controller_lifecycle() {
    let mut c = BotController::new(app_config());
    let st = c.status();
    assert!(!st.running);
    let plan = c.start().ok().unwrap();
    assert_eq!(plan, StartPlan { qq: true, discord: true, telegram: false, matrix: false });
    assert!(c.status().running);
    match c.start() {
        Err(AnemoneBotError::Config(m)) => assert_eq!(m, "bot is already running"),
        _ => panic!("second start must be refused"),
    }
    c.set_connected(Platform::Discord, true);
    let st: BotStatus = c.status();
    assert!(st.discord_connected && !st.qq_connected);
    assert!(st.discord_configured && st.qq_configured && st.matrix_configured);
    assert!(!st.telegram_configured);
    c.stop();
    assert!(!c.status().running);
    assert!(c.start().is_ok());
    assert!(!c.status().discord_connected);
}

#[test]
fn controller_config_updates() {
    let mut c = BotController::new(AppConfig::default());
    c.update_config(app_config());
    let got = c.config();
    assert_eq!(got.bind_addr.as_deref(), Some("0.0.0.0:8080"));
    assert_eq!(got.bridges.len(), 1);
    assert_eq!(got.bridges[0].qq_group_id, Some(2));
    let copy = copy_app_config(&got);
    assert_eq!(copy.discord_token.as_deref(), Some("dtok"));
    let b = copy_bridge_config(&copy.bridges[0]);
    assert_eq!(b.discord_channel_id, Some(1));
}

#[test]
fn matrix_needs_token_and_homeserver() {
    let mut c = app_config();
    assert!(!start_plan(&c).matrix);
    c.matrix_homeserver_url = Some(s("https://hs"));
    assert!(start_plan(&c).matrix);
}

#[test]
fn cli_config_needs_a_bridge() {
    assert!(validate_cli_config(&app_config()).is_ok());
    match validate_cli_config(&AppConfig::default()) {
        Err(AnemoneBotError::Config(m)) => assert_eq!(m, "at least one [[bridges]] required"),
        _ => panic!("expected a config error"),
    }
    assert_eq!(RETENTION_SECS, 7 * 24 * 3600);
}

#[test]
fn status_indicator_words() {
    assert_eq!(indicator_label(false, true), "-");
    assert_eq!(indicator_label(true, true), "connected");
    assert_eq!(indicator_label(true, false), "disconnected");
}

#[test]
fn error_messages() {
    assert_eq!(config_error("bad").message(), "config: bad");
    assert_eq!(websocket_error("closed").message(), "websocket: closed");
    assert_eq!(AnemoneBotError::Sqlite(s("locked")).message(), "sqlite: locked");
}

#[test]
fn failed_start_can_be_retried() {
    let mut c = BotController::new(app_config());
    assert!(c.start().is_ok());
    c.abort_start();
    assert!(!c.status().running);
    assert!(c.start().is_ok());
    assert!(c.status().running);
}

#[test]
fn recall_run_marks_then_unmarks_failed_deletes() {
    let cfgs = vec![cfg(Some(1), Some(10), Some(20), None)];
    let mut b = Bridges::new(&cfgs, ALL);
    let related = vec![(Platform::QQ, s("1")), (Platform::Discord, s("2")), (Platform::Telegram, s("3"))];
    let senders = vec![Platform::Discord, Platform::QQ, Platform::Telegram];
    let mut run = Recalling::new(0, Platform::QQ, "1", &related, &senders);
    match run.step(&mut b, RecallEvent::Begin { now: 5 }) {
        RecallAction::Delete { sender, platform, msg_id } => {
            assert_eq!((sender, platform, msg_id.as_str()), (0, Platform::Discord, "2"));
        }
        RecallAction::Stop => panic!("expected a delete"),
    }
    assert!(b.bridge(0).is_suppressed(Platform::Discord, "2"));
    match run.step(&mut b, RecallEvent::Deleted { ok: false, now: 6 }) {
        RecallAction::Delete { sender, platform, msg_id } => {
            assert_eq!((sender, platform, msg_id.as_str()), (2, Platform::Telegram, "3"));
        }
        RecallAction::Stop => panic!("expected a delete"),
    }
    assert!(!b.bridge(0).is_suppressed(Platform::Discord, "2"));
    assert!(b.bridge(0).is_suppressed(Platform::Telegram, "3"));
    assert!(matches!(run.step(&mut b, RecallEvent::Deleted { ok: true, now: 7 }), RecallAction::Stop));
    assert!(matches!(run.phase, RecallPhase::Finished));
    assert!(b.bridge(0).is_suppressed(Platform::Telegram, "3"));
    let mut empty = Recalling::new(0, Platform::QQ, "9", &[], &senders);
    assert!(matches!(empty.step(&mut b, RecallEvent::Begin { now: 8 }), RecallAction::Stop));
}
