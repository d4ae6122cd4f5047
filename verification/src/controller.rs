//! The bot's lifecycle: which platform clients a start launches, the
//! running / connected state, and the status report built from it. The
//! tasks, sockets and channels themselves live at the edge, which performs
//! the plan this module hands out and reports connections back.

use vstd::prelude::*;

use crate::config::{copy_bridge_config, AppConfig, BridgeConfig};
use crate::error::{config_error, AnemoneBotError};
use crate::message::Platform;

verus! {

/// How long forwarded-message records are kept, in seconds (one week).
pub const RETENTION_SECS: u64 = 604800;

/// Snapshot of the bot: whether it runs, and per platform whether it is
/// configured and whether its client is connected.
#[derive(Debug, Clone, Copy, PartialEq, Eq, Structural)]
pub struct BotStatus {
    pub running: bool,
    pub discord_configured: bool,
    pub qq_configured: bool,
    pub telegram_configured: bool,
    pub matrix_configured: bool,
    pub discord_connected: bool,
    pub qq_connected: bool,
    pub telegram_connected: bool,
    pub matrix_connected: bool,
}

/// The platform clients that a start launches.
#[derive(Debug, Clone, Copy, PartialEq, Eq, Structural)]
pub struct StartPlan {
    pub qq: bool,
    pub discord: bool,
    pub telegram: bool,
    pub matrix: bool,
}

/// The plan a configuration calls for: the QQ endpoint when a bind address is
/// set, Discord and Telegram when their token is set, Matrix when both its
/// token and its homeserver URL are set.
pub open spec fn plan_of(c: AppConfig) -> StartPlan {
    StartPlan {
        qq: c.bind_addr is Some,
        discord: c.discord_token is Some,
        telegram: c.telegram_token is Some,
        matrix: c.matrix_token is Some && c.matrix_homeserver_url is Some,
    }
}

/// Computes the start plan of a configuration.
pub fn start_plan(c: &AppConfig) -> (p: StartPlan)
    ensures
        p == plan_of(*c),
{
    StartPlan {
        qq: c.bind_addr.is_some(),
        discord: c.discord_token.is_some(),
        telegram: c.telegram_token.is_some(),
        matrix: c.matrix_token.is_some() && c.matrix_homeserver_url.is_some(),
    }
}

/// Copies an optional string.
fn copy_opt_string(s: &Option<String>) -> (r: Option<String>)
    ensures
        r == *s,
{
    match s {
        Some(v) => Some(v.clone()),
        None => None,
    }
}

/// Copies an application configuration, bridges included.
pub fn copy_app_config(c: &AppConfig) -> (r: AppConfig)
    ensures
        r.bind_addr == c.bind_addr,
        r.webui_bind_addr == c.webui_bind_addr,
        r.discord_token == c.discord_token,
        r.telegram_token == c.telegram_token,
        r.matrix_token == c.matrix_token,
        r.matrix_homeserver_url == c.matrix_homeserver_url,
        r.http_proxy == c.http_proxy,
        r.bridges@ == c.bridges@,
{
    let mut bridges: Vec<BridgeConfig> = Vec::new();
    let n = c.bridges.len();
    let mut i: usize = 0;
    while i < n
        invariant
            n == c.bridges@.len(),
            i <= n,
            bridges@ == c.bridges@.subrange(0, i as int),
        decreases n - i,
    {
        let b = copy_bridge_config(&c.bridges[i]);
        bridges.push(b);
        i = i + 1;
        assert(bridges@ =~= c.bridges@.subrange(0, i as int));
    }
    assert(bridges@ =~= c.bridges@);
    AppConfig {
        bind_addr: copy_opt_string(&c.bind_addr),
        webui_bind_addr: copy_opt_string(&c.webui_bind_addr),
        discord_token: copy_opt_string(&c.discord_token),
        telegram_token: copy_opt_string(&c.telegram_token),
        matrix_token: copy_opt_string(&c.matrix_token),
        matrix_homeserver_url: copy_opt_string(&c.matrix_homeserver_url),
        http_proxy: copy_opt_string(&c.http_proxy),
        bridges,
    }
}

/// A configuration equal to `c` field by field.
pub open spec fn same_config(a: AppConfig, c: AppConfig) -> bool {
    &&& a.bind_addr == c.bind_addr
    &&& a.webui_bind_addr == c.webui_bind_addr
    &&& a.discord_token == c.discord_token
    &&& a.telegram_token == c.telegram_token
    &&& a.matrix_token == c.matrix_token
    &&& a.matrix_homeserver_url == c.matrix_homeserver_url
    &&& a.http_proxy == c.http_proxy
    &&& a.bridges@ == c.bridges@
}

/// The status a configuration, a running flag and the four connection flags
/// (QQ, Discord, Telegram, Matrix) make up. A platform counts as configured
/// when its endpoint or token is set.
pub open spec fn status_of(
    c: AppConfig,
    running: bool,
    qq: bool,
    discord: bool,
    telegram: bool,
    matrix: bool,
) -> BotStatus {
    BotStatus {
        running,
        discord_configured: c.discord_token is Some,
        qq_configured: c.bind_addr is Some,
        telegram_configured: c.telegram_token is Some,
        matrix_configured: c.matrix_token is Some,
        discord_connected: discord,
        qq_connected: qq,
        telegram_connected: telegram,
        matrix_connected: matrix,
    }
}

/// The controller: the stored configuration (used by the next start), whether
/// the bot runs, and which clients report a live connection.
pub struct BotController {
    config: AppConfig,
    running: bool,
    qq_connected: bool,
    discord_connected: bool,
    telegram_connected: bool,
    matrix_connected: bool,
}

impl BotController {
    /// The stored configuration.
    pub closed spec fn spec_config(&self) -> AppConfig {
        self.config
    }

    /// Whether the bot runs.
    pub closed spec fn spec_running(&self) -> bool {
        self.running
    }

    /// Whether the client of `p` reports a live connection.
    pub closed spec fn spec_connected(&self, p: Platform) -> bool {
        match p {
            Platform::QQ => self.qq_connected,
            Platform::Discord => self.discord_connected,
            Platform::Telegram => self.telegram_connected,
            Platform::Matrix => self.matrix_connected,
        }
    }

    /// The status this controller reports.
    pub open spec fn spec_status(&self) -> BotStatus {
        status_of(
            self.spec_config(),
            self.spec_running(),
            self.spec_connected(Platform::QQ),
            self.spec_connected(Platform::Discord),
            self.spec_connected(Platform::Telegram),
            self.spec_connected(Platform::Matrix),
        )
    }

    /// A stopped controller with no connection, holding `config`.
    pub fn new(config: AppConfig) -> (r: Self)
        ensures
            r.spec_config() == config,
            !r.spec_running(),
            forall|p: Platform| !#[trigger] r.spec_connected(p),
    {
        BotController {
            config,
            running: false,
            qq_connected: false,
            discord_connected: false,
            telegram_connected: false,
            matrix_connected: false,
        }
    }

    /// Starts the bot. A running bot is refused with a configuration error and
    /// left as it is. Otherwise the bot runs from now on, every connection
    /// flag is cleared, and the plan of the stored configuration is returned;
    /// if carrying out the plan fails, the caller reports it with
    /// `abort_start`, which leaves the bot stopped again.
    pub fn start(&mut self) -> (r: Result<StartPlan, AnemoneBotError>)
        ensures
            old(self).spec_running() ==> {
                &&& r matches Err(AnemoneBotError::Config(m)) && m@ == "bot is already running"@
                &&& *final(self) == *old(self)
            },
            !old(self).spec_running() ==> {
                &&& r == Ok::<StartPlan, AnemoneBotError>(plan_of(old(self).spec_config()))
                &&& final(self).spec_running()
                &&& final(self).spec_config() == old(self).spec_config()
                &&& forall|p: Platform| !#[trigger] final(self).spec_connected(p)
            },
    {
        if self.running {
            return Err(config_error("bot is already running"));
        }
        self.qq_connected = false;
        self.discord_connected = false;
        self.telegram_connected = false;
        self.matrix_connected = false;
        self.running = true;
        Ok(start_plan(&self.config))
    }

    /// Records that carrying out a start plan failed before the bot came up:
    /// the bot is stopped again, so a later start is not refused, and the
    /// configuration and connection flags are kept.
    pub fn abort_start(&mut self)
        ensures
            !final(self).spec_running(),
            final(self).spec_config() == old(self).spec_config(),
            forall|p: Platform| #[trigger] final(self).spec_connected(p) == old(self).spec_connected(p),
    {
        self.running = false;
    }

    /// Stops the bot; a stopped bot stays stopped. The configuration and the
    /// connection flags are left to the clients, which report their own end.
    pub fn stop(&mut self)
        ensures
            !final(self).spec_running(),
            final(self).spec_config() == old(self).spec_config(),
            forall|p: Platform| #[trigger] final(self).spec_connected(p) == old(self).spec_connected(p),
    {
        self.running = false;
    }

    /// Records that the client of `p` connected (`true`) or lost its
    /// connection (`false`).
    pub fn set_connected(&mut self, p: Platform, connected: bool)
        ensures
            final(self).spec_connected(p) == connected,
            forall|q: Platform| q != p ==> #[trigger] final(self).spec_connected(q) == old(self).spec_connected(q),
            final(self).spec_running() == old(self).spec_running(),
            final(self).spec_config() == old(self).spec_config(),
    {
        match p {
            Platform::QQ => self.qq_connected = connected,
            Platform::Discord => self.discord_connected = connected,
            Platform::Telegram => self.telegram_connected = connected,
            Platform::Matrix => self.matrix_connected = connected,
        }
    }

    /// The current status.
    pub fn status(&self) -> (s: BotStatus)
        ensures
            s == self.spec_status(),
    {
        BotStatus {
            running: self.running,
            discord_configured: self.config.discord_token.is_some(),
            qq_configured: self.config.bind_addr.is_some(),
            telegram_configured: self.config.telegram_token.is_some(),
            matrix_configured: self.config.matrix_token.is_some(),
            discord_connected: self.discord_connected,
            qq_connected: self.qq_connected,
            telegram_connected: self.telegram_connected,
            matrix_connected: self.matrix_connected,
        }
    }

    /// Replaces the stored configuration; it takes effect on the next start.
    pub fn update_config(&mut self, config: AppConfig)
        ensures
            final(self).spec_config() == config,
            final(self).spec_running() == old(self).spec_running(),
            forall|p: Platform| #[trigger] final(self).spec_connected(p) == old(self).spec_connected(p),
    {
        self.config = config;
    }

    /// A copy of the stored configuration.
    pub fn config(&self) -> (c: AppConfig)
        ensures
            same_config(c, self.spec_config()),
    {
        copy_app_config(&self.config)
    }
}

/// Checks a configuration for command-line use: at least one bridge is
/// required.
pub fn validate_cli_config(c: &AppConfig) -> (r: Result<(), AnemoneBotError>)
    ensures
        c.bridges@.len() > 0 <==> r is Ok,
        r is Err ==> (r matches Err(AnemoneBotError::Config(m)) && m@ == "at least one [[bridges]] required"@),
{
    if c.bridges.len() == 0 {
        Err(config_error("at least one [[bridges]] required"))
    } else {
        Ok(())
    }
}

/// The word a status panel shows for one platform: `-` when it is not
/// configured, else whether its client is connected.
pub open spec fn indicator_text(configured: bool, connected: bool) -> Seq<char> {
    if !configured {
        "-"@
    } else if connected {
        "connected"@
    } else {
        "disconnected"@
    }
}

/// Computes the status-panel word of one platform.
pub fn indicator_label(configured: bool, connected: bool) -> (s: &'static str)
    ensures
        s@ == indicator_text(configured, connected),
{
    if !configured {
        "-"
    } else if connected {
        "connected"
    } else {
        "disconnected"
    }
}

} // verus!
