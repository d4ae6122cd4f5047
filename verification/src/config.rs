//! Configuration model: the bridges (one chat per platform each) and the
//! application settings. Reading and parsing the TOML file happens at the
//! edge; these are the values it produces.

use vstd::prelude::*;

verus! {

/// One bridge: the chat on each platform whose messages are mirrored.
#[derive(Debug, Clone)]
pub struct BridgeConfig {
    pub discord_channel_id: Option<u64>,
    pub qq_group_id: Option<i64>,
    pub telegram_group_id: Option<i64>,
    pub matrix_room_id: Option<String>,
}

/// Application settings.
#[derive(Debug, Clone)]
pub struct AppConfig {
    pub bind_addr: Option<String>,
    pub webui_bind_addr: Option<String>,
    pub discord_token: Option<String>,
    pub telegram_token: Option<String>,
    pub matrix_token: Option<String>,
    pub matrix_homeserver_url: Option<String>,
    pub http_proxy: Option<String>,
    pub bridges: Vec<BridgeConfig>,
}

impl Default for AppConfig {
    fn default() -> (r: Self)
        ensures
            r.bind_addr is None,
            r.webui_bind_addr is None,
            r.discord_token is None,
            r.telegram_token is None,
            r.matrix_token is None,
            r.matrix_homeserver_url is None,
            r.http_proxy is None,
            r.bridges@.len() == 0,
    {
        AppConfig {
            bind_addr: None,
            webui_bind_addr: None,
            discord_token: None,
            telegram_token: None,
            matrix_token: None,
            matrix_homeserver_url: None,
            http_proxy: None,
            bridges: Vec::new(),
        }
    }
}

/// Copies a bridge configuration.
pub fn copy_bridge_config(c: &BridgeConfig) -> (r: BridgeConfig)
    ensures
        r == *c,
{
    BridgeConfig {
        discord_channel_id: c.discord_channel_id,
        qq_group_id: c.qq_group_id,
        telegram_group_id: c.telegram_group_id,
        matrix_room_id: match &c.matrix_room_id {
            Some(s) => Some(s.clone()),
            None => None,
        },
    }
}

} // verus!
