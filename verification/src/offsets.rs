//! Remote offset tables and the client's persisted settings and state.

use vstd::prelude::*;
use vstd::string::*;

verus! {

/// One named set of Unreal Engine field offsets for a game version.
#[derive(Debug)]
pub struct WuwaOffset {
    pub name: String,
    pub global_gworld: u64,
    pub uworld_persistentlevel: u64,
    pub uworld_owninggameinstance: u64,
    pub ulevel_lastworldorigin: u64,
    pub ugameinstance_localplayers: u64,
    pub uplayer_playercontroller: u64,
    pub aplayercontroller_acknowlegedpawn: u64,
    pub aactor_rootcomponent: u64,
    pub uscenecomponent_componenttoworld: u64,
}

impl Clone for WuwaOffset {
    fn clone(&self) -> (r: Self)
        ensures
            r == *self,
    {
        WuwaOffset {
            name: self.name.clone(),
            global_gworld: self.global_gworld,
            uworld_persistentlevel: self.uworld_persistentlevel,
            uworld_owninggameinstance: self.uworld_owninggameinstance,
            ulevel_lastworldorigin: self.ulevel_lastworldorigin,
            ugameinstance_localplayers: self.ugameinstance_localplayers,
            uplayer_playercontroller: self.uplayer_playercontroller,
            aplayercontroller_acknowlegedpawn: self.aplayercontroller_acknowlegedpawn,
            aactor_rootcomponent: self.aactor_rootcomponent,
            uscenecomponent_componenttoworld: self.uscenecomponent_componenttoworld,
        }
    }
}

/// Settings of the GWorld byte-pattern scan shipped with the offsets.
#[derive(Debug)]
pub struct GWorldScanConfig {
    pub enabled: bool,
    /// Bytes before the displacement, e.g. "48 8B 1D".
    pub prefix: String,
    /// Bytes after the displacement, `??` a wildcard.
    pub suffix: String,
}

impl Clone for GWorldScanConfig {
    fn clone(&self) -> (r: Self)
        ensures
            r == *self,
    {
        GWorldScanConfig {
            enabled: self.enabled,
            prefix: self.prefix.clone(),
            suffix: self.suffix.clone(),
        }
    }
}

impl Default for GWorldScanConfig {
    fn default() -> (r: Self)
        ensures
            r.enabled,
            r.prefix@ == "48 8B 1D"@,
            r.suffix@ == "48 85 DB 74 ?? 41 B0 01"@,
    {
        GWorldScanConfig {
            enabled: true,
            prefix: String::from_str("48 8B 1D"),
            suffix: String::from_str("48 85 DB 74 ?? 41 B0 01"),
        }
    }
}

/// The remote offset file.
#[derive(Debug)]
pub struct TrackerConfig {
    pub last_updated: String,
    pub gworld_scan: GWorldScanConfig,
    pub offsets: Vec<WuwaOffset>,
}

/// The client's saved settings; every field may be absent.
#[derive(Clone, Debug)]
pub struct LocalStorageConfig {
    pub ip: Option<String>,
    pub port: Option<u16>,
    pub use_secure_connection: Option<bool>,
    pub auto_attach_enabled: Option<bool>,
    pub start_in_tray: Option<bool>,
    pub game_path: Option<String>,
}

impl Default for LocalStorageConfig {
    fn default() -> (r: Self)
        ensures
            r.ip is None,
            r.port is None,
            r.use_secure_connection is None,
            r.auto_attach_enabled is None,
            r.start_in_tray is None,
            r.game_path is None,
    {
        LocalStorageConfig {
            ip: None,
            port: None,
            use_secure_connection: None,
            auto_attach_enabled: None,
            start_in_tray: None,
            game_path: None,
        }
    }
}

/// Address and port the local signaling server binds when the settings
/// leave them out.
pub fn server_endpoint(config: &LocalStorageConfig) -> (r: (String, u16))
    ensures
        config.ip matches Some(ip) ==> r.0@ == ip@,
        config.ip is None ==> r.0@ == "127.0.0.1"@,
        r.1 == (match config.port {
            Some(p) => p,
            None => 46821u16,
        }),
{
    let ip = match &config.ip {
        Some(ip) => ip.clone(),
        None => String::from_str("127.0.0.1"),
    };
    let port = match config.port {
        Some(p) => p,
        None => 46821,
    };
    (ip, port)
}

/// Whether the window starts hidden in the tray (off unless set).
pub fn starts_in_tray(config: &LocalStorageConfig) -> (r: bool)
    ensures
        r == (config.start_in_tray == Some(true)),
{
    match config.start_in_tray {
        Some(v) => v,
        None => false,
    }
}

/// What the front end shows about the tracker.
#[derive(Clone, Debug, PartialEq)]
pub struct GlobalState {
    /// 1 while attached to the game, else 0.
    pub proc_state: i32,
    /// 1 while the local signaling server listens, else 0.
    pub server_state: i32,
    pub connection_url: Option<String>,
    pub external_connection_code: Option<String>,
    pub active_offset_name: Option<String>,
}

impl Default for GlobalState {
    fn default() -> (r: Self)
        ensures
            r.proc_state == 0,
            r.server_state == 0,
            r.connection_url is None,
            r.external_connection_code is None,
            r.active_offset_name is None,
    {
        GlobalState {
            proc_state: 0,
            server_state: 0,
            connection_url: None,
            external_connection_code: None,
            active_offset_name: None,
        }
    }
}

/// The view of an optional string.
pub open spec fn opt_text(o: Option<String>) -> Option<Seq<char>> {
    match o {
        Some(s) => Some(s@),
        None => None,
    }
}

/// Two front-end states show the same thing.
pub open spec fn same_state(a: GlobalState, b: GlobalState) -> bool {
    &&& a.proc_state == b.proc_state
    &&& a.server_state == b.server_state
    &&& opt_text(a.connection_url) == opt_text(b.connection_url)
    &&& opt_text(a.external_connection_code) == opt_text(b.external_connection_code)
    &&& opt_text(a.active_offset_name) == opt_text(b.active_offset_name)
}

/// Two front-end states count as the same exactly when all five fields
/// agree (the texts by their characters), so a change of any one field,
/// such as a new room code, is applied and announced.
pub proof fn law_same_state_is_field_equality(a: GlobalState, b: GlobalState)
    ensures
        same_state(a, b) <==> {
            &&& a.proc_state == b.proc_state
            &&& a.server_state == b.server_state
            &&& (a.connection_url is None <==> b.connection_url is None)
            &&& (a.connection_url matches Some(x) ==> b.connection_url matches Some(y) && x@ == y@)
            &&& (a.external_connection_code is None <==> b.external_connection_code is None)
            &&& (a.external_connection_code matches Some(x) ==> b.external_connection_code matches Some(y)
                && x@ == y@)
            &&& (a.active_offset_name is None <==> b.active_offset_name is None)
            &&& (a.active_offset_name matches Some(x) ==> b.active_offset_name matches Some(y) && x@ == y@)
        },
{
}

fn same_opt(a: &Option<String>, b: &Option<String>) -> (r: bool)
    ensures
        r == (opt_text(*a) == opt_text(*b)),
{
    match (a, b) {
        (Some(x), Some(y)) => *x == *y,
        (None, None) => true,
        _ => false,
    }
}

/// Replaces the front end's state by `next`; true when it changed, so that
/// the change is announced, false (and nothing replaced) when it shows the
/// same as before.
pub fn apply_global_state(current: &mut GlobalState, next: GlobalState) -> (r: bool)
    ensures
        r == !same_state(*old(current), next),
        r ==> *final(current) == next,
        !r ==> *final(current) == *old(current),
{
    let same = current.proc_state == next.proc_state && current.server_state == next.server_state
        && same_opt(&current.connection_url, &next.connection_url) && same_opt(
        &current.external_connection_code,
        &next.external_connection_code,
    ) && same_opt(&current.active_offset_name, &next.active_offset_name);
    if same {
        false
    } else {
        *current = next;
        true
    }
}

/// Where the offset table is fetched from, in the order tried; a build for
/// development asks the local dev server first.
pub fn get_remote_urls(include_dev_server: bool) -> (r: Vec<&'static str>)
    ensures
        include_dev_server ==> r@.len() == 3 && r@[0]@ == "http://localhost:1420/tracker-offsets-v2.json"@,
        !include_dev_server ==> r@.len() == 2,
        r@[r@.len() - 2]@ == "https://wuwa.moe/tracker-offsets-v2.json"@,
        r@[r@.len() - 1]@
            == "https://raw.githubusercontent.com/wuwamoe/wuwa-moe/refs/heads/main/static/tracker-offsets-v2.json"@,
{
    let mut urls: Vec<&'static str> = Vec::new();
    if include_dev_server {
        urls.push("http://localhost:1420/tracker-offsets-v2.json");
    }
    urls.push("https://wuwa.moe/tracker-offsets-v2.json");
    urls.push("https://raw.githubusercontent.com/wuwamoe/wuwa-moe/refs/heads/main/static/tracker-offsets-v2.json");
    urls
}

} // verus!
