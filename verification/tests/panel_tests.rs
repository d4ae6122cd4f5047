use anemone_bot::controller::BotStatus;
use anemone_bot::panel::{Panel, PanelAction, PanelEvent, MAX_LOG_LINES};

fn running(r: bool) -> BotStatus {
    BotStatus {
        running: r,
        discord_configured: true,
        qq_configured: false,
        telegram_configured: false,
        matrix_configured: false,
        discord_connected: r,
        qq_connected: false,
        telegram_connected: false,
        matrix_connected: false,
    }
}

fn feedback(p: &Panel) -> Option<(String, bool)> {
    p.feedback.as_ref().map(|f| (f.message.clone(), f.is_ok))
}

#[test]
fn toggle_starts_then_ignores_presses_until_done() {
    let mut p = Panel::new();
    assert!(matches!(p.update(PanelEvent::ToggleBot), PanelAction::StartBot));
    assert!(p.pending);
    assert!(matches!(p.update(PanelEvent::ToggleBot), PanelAction::Idle));
    assert!(matches!(p.update(PanelEvent::BotStarted(Some(String::from("bot is already running")))), PanelAction::Idle));
    assert!(!p.pending);
    assert_eq!(feedback(&p), Some((String::from("Start failed: bot is already running"), false)));
    p.update(PanelEvent::StatusUpdated(running(true)));
    assert!(matches!(p.update(PanelEvent::ToggleBot), PanelAction::StopBot));
    assert_eq!(feedback(&p), None);
    assert!(matches!(p.update(PanelEvent::BotStopped), PanelAction::ClearQqRuntime));
    assert!(!p.pending);
}

#[test]
fn saving_config() {
    let mut p = Panel::new();
    p.update(PanelEvent::StatusUpdated(running(true)));
    assert!(matches!(p.update(PanelEvent::SaveConfig(None)), PanelAction::Idle));
    assert_eq!(feedback(&p), Some((String::from("Stop the bot before saving config."), false)));
    p.update(PanelEvent::StatusUpdated(running(false)));
    assert!(matches!(p.update(PanelEvent::SaveConfig(Some(String::from("expected `=`")))), PanelAction::Idle));
    assert_eq!(feedback(&p), Some((String::from("Invalid TOML: expected `=`"), false)));
    assert!(matches!(p.update(PanelEvent::SaveConfig(None)), PanelAction::WriteConfig));
    p.update(PanelEvent::ConfigSaved(None));
    assert_eq!(feedback(&p), Some((String::from("Saved. Changes take effect on next Start."), true)));
    p.update(PanelEvent::ConfigSaved(Some(String::from("write failed: denied"))));
    assert_eq!(feedback(&p), Some((String::from("write failed: denied"), false)));
    p.update(PanelEvent::ConfigEdited);
    assert_eq!(feedback(&p), None);
}

#[test]
fn loading_config() {
    let mut p = Panel::new();
    assert!(matches!(p.update(PanelEvent::ReloadConfig), PanelAction::ReadConfig));
    match p.update(PanelEvent::ConfigLoaded(Ok(String::from("[[bridges]]")))) {
        PanelAction::ShowConfig(t) => assert_eq!(t, "[[bridges]]"),
        _ => panic!("expected the text to be shown"),
    }
    assert_eq!(feedback(&p), Some((String::from("Config reloaded from disk."), true)));
    p.update(PanelEvent::ConfigLoaded(Err(String::from("not found"))));
    assert_eq!(feedback(&p), Some((String::from("Failed to read config: not found"), false)));
    match p.update(PanelEvent::InitComplete(String::from("x = 1"), running(true))) {
        PanelAction::ShowConfig(t) => assert_eq!(t, "x = 1"),
        _ => panic!("expected the text to be shown"),
    }
    assert!(p.status.running);
}

#[test]
fn log_view_keeps_the_newest_lines() {
    let mut p = Panel::new();
    for i in 0..(MAX_LOG_LINES + 5) {
        p.update(PanelEvent::LogReceived(format!("line {i}")));
    }
    assert_eq!(p.logs.len(), 800);
    assert_eq!(p.logs[0], "line 5");
    assert_eq!(p.logs[799], format!("line {}", MAX_LOG_LINES + 4));
}
