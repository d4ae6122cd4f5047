//! The control panel's state: the last status shown, the feedback line, the
//! log view and whether a start or stop is under way. Each user action or
//! completed task is an event; the panel updates itself and says which task
//! to run next. Rendering and running the tasks happen at the edge.

use vstd::prelude::*;

use crate::controller::BotStatus;
use crate::text::push_str;

verus! {

/// How many log lines the panel keeps.
pub const MAX_LOG_LINES: usize = 800;

/// A message under the configuration editor.
pub struct Feedback {
    pub message: String,
    pub is_ok: bool,
}

/// What happened.
pub enum PanelEvent {
    /// A fresh status report.
    StatusUpdated(BotStatus),
    /// The start/stop button was pressed.
    ToggleBot,
    /// A start finished, with its error message if it failed.
    BotStarted(Option<String>),
    /// A stop finished.
    BotStopped,
    /// The configuration text was edited.
    ConfigEdited,
    /// The reload button was pressed.
    ReloadConfig,
    /// Reading the configuration file finished: its text, or the error.
    ConfigLoaded(Result<String, String>),
    /// The save button was pressed; carries the TOML parser's complaint
    /// about the edited text, if any.
    SaveConfig(Option<String>),
    /// Saving finished, with its error message if it failed.
    ConfigSaved(Option<String>),
    /// A log line arrived.
    LogReceived(String),
    /// The panel's first load finished: the configuration text and status.
    InitComplete(String, BotStatus),
}

/// What to do next.
pub enum PanelAction {
    /// Nothing.
    Idle,
    /// Start the bot; report `BotStarted`.
    StartBot,
    /// Stop the bot; report `BotStopped`.
    StopBot,
    /// Drop the QQ endpoint's runtime.
    ClearQqRuntime,
    /// Read the configuration file; report `ConfigLoaded`.
    ReadConfig,
    /// Show this text in the configuration editor.
    ShowConfig(String),
    /// Write the edited text to the configuration file and hand it to the
    /// controller; report `ConfigSaved`.
    WriteConfig,
}

/// The panel.
pub struct Panel {
    pub status: BotStatus,
    pub feedback: Option<Feedback>,
    pub logs: Vec<String>,
    pub pending: bool,
}

/// The feedback's message and kind, if any.
pub open spec fn feedback_view(f: Option<Feedback>) -> Option<(Seq<char>, bool)> {
    match f {
        Some(x) => Some((x.message@, x.is_ok)),
        None => None,
    }
}

/// The log lines after `line` arrives: the newest `MAX_LOG_LINES` of them.
pub open spec fn logs_after(logs: Seq<String>, line: String) -> Seq<String> {
    let all = logs.push(line);
    if all.len() > 800 {
        all.skip(all.len() - 800)
    } else {
        all
    }
}

/// The state `t` and action `a` after event `e` in state `s`.
pub open spec fn panel_step(s: Panel, e: PanelEvent, t: Panel, a: PanelAction) -> bool {
    match e {
        PanelEvent::StatusUpdated(st) => {
            &&& t.status == st
            &&& feedback_view(t.feedback) == feedback_view(s.feedback)
            &&& t.logs@ == s.logs@
            &&& t.pending == s.pending
            &&& a is Idle
        },
        PanelEvent::ToggleBot => {
            &&& t.status == s.status
            &&& t.logs@ == s.logs@
            &&& if s.pending {
                &&& feedback_view(t.feedback) == feedback_view(s.feedback)
                &&& t.pending
                &&& a is Idle
            } else {
                &&& t.feedback is None
                &&& t.pending
                &&& if s.status.running {
                    a is StopBot
                } else {
                    a is StartBot
                }
            }
        },
        PanelEvent::BotStarted(err) => {
            &&& t.status == s.status
            &&& t.logs@ == s.logs@
            &&& !t.pending
            &&& a is Idle
            &&& feedback_view(t.feedback) == match err {
                Some(m) => Some(("Start failed: "@ + m@, false)),
                None => feedback_view(s.feedback),
            }
        },
        PanelEvent::BotStopped => {
            &&& t.status == s.status
            &&& t.logs@ == s.logs@
            &&& !t.pending
            &&& feedback_view(t.feedback) == feedback_view(s.feedback)
            &&& a is ClearQqRuntime
        },
        PanelEvent::ConfigEdited => {
            &&& t.status == s.status
            &&& t.logs@ == s.logs@
            &&& t.pending == s.pending
            &&& t.feedback is None
            &&& a is Idle
        },
        PanelEvent::ReloadConfig => {
            &&& t.status == s.status
            &&& t.logs@ == s.logs@
            &&& t.pending == s.pending
            &&& feedback_view(t.feedback) == feedback_view(s.feedback)
            &&& a is ReadConfig
        },
        PanelEvent::ConfigLoaded(res) => {
            &&& t.status == s.status
            &&& t.logs@ == s.logs@
            &&& t.pending == s.pending
            &&& match res {
                Ok(text) => {
                    &&& feedback_view(t.feedback) == Some(("Config reloaded from disk."@, true))
                    &&& a matches PanelAction::ShowConfig(x) && x@ == text@
                },
                Err(m) => {
                    &&& feedback_view(t.feedback) == Some(("Failed to read config: "@ + m@, false))
                    &&& a is Idle
                },
            }
        },
        PanelEvent::SaveConfig(toml_error) => {
            &&& t.status == s.status
            &&& t.logs@ == s.logs@
            &&& t.pending == s.pending
            &&& if s.status.running {
                &&& feedback_view(t.feedback) == Some(("Stop the bot before saving config."@, false))
                &&& a is Idle
            } else {
                match toml_error {
                    Some(m) => {
                        &&& feedback_view(t.feedback) == Some(("Invalid TOML: "@ + m@, false))
                        &&& a is Idle
                    },
                    None => {
                        &&& feedback_view(t.feedback) == feedback_view(s.feedback)
                        &&& a is WriteConfig
                    },
                }
            }
        },
        PanelEvent::ConfigSaved(err) => {
            &&& t.status == s.status
            &&& t.logs@ == s.logs@
            &&& t.pending == s.pending
            &&& a is Idle
            &&& feedback_view(t.feedback) == match err {
                Some(m) => Some((m@, false)),
                None => Some(("Saved. Changes take effect on next Start."@, true)),
            }
        },
        PanelEvent::LogReceived(line) => {
            &&& t.status == s.status
            &&& t.pending == s.pending
            &&& feedback_view(t.feedback) == feedback_view(s.feedback)
            &&& t.logs@ == logs_after(s.logs@, line)
            &&& a is Idle
        },
        PanelEvent::InitComplete(text, st) => {
            &&& t.status == st
            &&& t.logs@ == s.logs@
            &&& t.pending == s.pending
            &&& feedback_view(t.feedback) == feedback_view(s.feedback)
            &&& a matches PanelAction::ShowConfig(x) && x@ == text@
        },
    }
}

fn feedback_with(prefix: &str, detail: &str, is_ok: bool) -> (f: Option<Feedback>)
    ensures
        feedback_view(f) == Some((prefix@ + detail@, is_ok)),
{
    let mut m = String::from_str(prefix);
    push_str(&mut m, detail);
    Some(Feedback { message: m, is_ok })
}

fn feedback_of(message: &str, is_ok: bool) -> (f: Option<Feedback>)
    ensures
        feedback_view(f) == Some((message@, is_ok)),
{
    Some(Feedback { message: String::from_str(message), is_ok })
}

fn copy_string(s: &String) -> (r: String)
    ensures
        r@ == s@,
{
    s.clone()
}

impl Panel {
    /// The panel before anything is known: a stopped, unconfigured status,
    /// no feedback, no logs, nothing under way.
    pub fn new() -> (p: Self)
        ensures
            !p.status.running,
            !p.status.discord_configured && !p.status.qq_configured,
            !p.status.telegram_configured && !p.status.matrix_configured,
            !p.status.discord_connected && !p.status.qq_connected,
            !p.status.telegram_connected && !p.status.matrix_connected,
            p.feedback is None,
            p.logs@.len() == 0,
            !p.pending,
    {
        Panel {
            status: BotStatus {
                running: false,
                discord_configured: false,
                qq_configured: false,
                telegram_configured: false,
                matrix_configured: false,
                discord_connected: false,
                qq_connected: false,
                telegram_connected: false,
                matrix_connected: false,
            },
            feedback: None,
            logs: Vec::new(),
            pending: false,
        }
    }

    fn add_log(&mut self, line: String)
        ensures
            final(self).logs@ == logs_after(old(self).logs@, line),
            final(self).status == old(self).status,
            final(self).pending == old(self).pending,
            feedback_view(final(self).feedback) == feedback_view(old(self).feedback),
    {
        let ghost all = old(self).logs@.push(line);
        self.logs.push(line);
        let ghost mut dropped: int = 0;
        while self.logs.len() > MAX_LOG_LINES
            invariant
                0 <= dropped <= all.len(),
                self.logs@ == all.skip(dropped),
                all.len() > 800 ==> dropped <= all.len() - 800,
                all.len() <= 800 ==> dropped == 0,
                self.status == old(self).status,
                self.pending == old(self).pending,
                feedback_view(self.feedback) == feedback_view(old(self).feedback),
            decreases self.logs@.len(),
        {
            self.logs.remove(0);
            proof {
                dropped = dropped + 1;
            }
            assert(self.logs@ =~= all.skip(dropped));
        }
        assert(self.logs@ =~= logs_after(old(self).logs@, line));
    }

    /// Handles one event and returns the task to run next.
    pub fn update(&mut self, e: PanelEvent) -> (a: PanelAction)
        ensures
            panel_step(*old(self), e, *final(self), a),
    {
        match e {
            PanelEvent::StatusUpdated(st) => {
                self.status = st;
                PanelAction::Idle
            },
            PanelEvent::ToggleBot => {
                if self.pending {
                    return PanelAction::Idle;
                }
                self.pending = true;
                self.feedback = None;
                if self.status.running {
                    PanelAction::StopBot
                } else {
                    PanelAction::StartBot
                }
            },
            PanelEvent::BotStarted(err) => {
                self.pending = false;
                match err {
                    Some(m) => {
                        self.feedback = feedback_with("Start failed: ", m.as_str(), false);
                    },
                    None => {},
                }
                PanelAction::Idle
            },
            PanelEvent::BotStopped => {
                self.pending = false;
                PanelAction::ClearQqRuntime
            },
            PanelEvent::ConfigEdited => {
                self.feedback = None;
                PanelAction::Idle
            },
            PanelEvent::ReloadConfig => PanelAction::ReadConfig,
            PanelEvent::ConfigLoaded(res) => match res {
                Ok(text) => {
                    self.feedback = feedback_of("Config reloaded from disk.", true);
                    PanelAction::ShowConfig(text)
                },
                Err(m) => {
                    self.feedback = feedback_with("Failed to read config: ", m.as_str(), false);
                    PanelAction::Idle
                },
            },
            PanelEvent::SaveConfig(toml_error) => {
                if self.status.running {
                    self.feedback = feedback_of("Stop the bot before saving config.", false);
                    return PanelAction::Idle;
                }
                match toml_error {
                    Some(m) => {
                        self.feedback = feedback_with("Invalid TOML: ", m.as_str(), false);
                        PanelAction::Idle
                    },
                    None => PanelAction::WriteConfig,
                }
            },
            PanelEvent::ConfigSaved(err) => {
                match err {
                    Some(m) => {
                        self.feedback = Some(Feedback { message: copy_string(&m), is_ok: false });
                    },
                    None => {
                        self.feedback = feedback_of("Saved. Changes take effect on next Start.", true);
                    },
                }
                PanelAction::Idle
            },
            PanelEvent::LogReceived(line) => {
                self.add_log(line);
                PanelAction::Idle
            },
            PanelEvent::InitComplete(text, st) => {
                self.status = st;
                PanelAction::ShowConfig(text)
            },
        }
    }
}

} // verus!
