//! Application settings and their defaults.
//!
//! Reading and writing settings files is left to the program around the
//! library; here are the settings themselves.
use vstd::prelude::*;

verus! {

/// All settings of the application.
#[derive(Debug)]
pub struct AppConfig {
    pub server: ServerConfig,
    pub window: WindowConfig,
    pub api: ApiConfig,
    pub mcp: McpConfig,
}

/// Where the control server listens.
#[derive(Debug)]
pub struct ServerConfig {
    pub host: String,
    pub port: u16,
    pub cors_enabled: bool,
}

/// How overlay windows behave by default.
#[derive(Debug)]
pub struct WindowConfig {
    pub always_on_top: bool,
    pub click_through: bool,
    pub transparent: bool,
    pub default_width: u32,
    pub default_height: u32,
}

/// The REST control surface.
#[derive(Debug)]
pub struct ApiConfig {
    pub enabled: bool,
    pub rate_limit: u32,
    pub auth_required: bool,
    pub api_key: Option<String>,
}

/// The tool-call control surface.
#[derive(Debug)]
pub struct McpConfig {
    pub enabled: bool,
    pub log_level: String,
    pub tools_enabled: Vec<String>,
}

/// The tools that are enabled by default, in catalog order.
pub open spec fn default_tools() -> Seq<Seq<char>> {
    seq![
        "add_subtitle"@,
        "update_subtitle"@,
        "remove_subtitle"@,
        "clear_all_subtitles"@,
        "list_subtitles"@,
        "toggle_interaction"@,
        "set_always_on_top"@,
        "get_status"@,
    ]
}

/// The settings used when nothing else is given: a local server on port
/// 8080 with CORS, transparent click-through windows of 800 by 600 that stay
/// on top, the API on without authentication at 100 requests, and the tool
/// surface on at log level `info` with every tool enabled.
pub open spec fn is_default_config(c: AppConfig) -> bool {
    &&& c.server.host@ == "127.0.0.1"@
    &&& c.server.port == 8080
    &&& c.server.cors_enabled
    &&& c.window.always_on_top
    &&& c.window.click_through
    &&& c.window.transparent
    &&& c.window.default_width == 800
    &&& c.window.default_height == 600
    &&& c.api.enabled
    &&& c.api.rate_limit == 100
    &&& !c.api.auth_required
    &&& c.api.api_key is None
    &&& c.mcp.enabled
    &&& c.mcp.log_level@ == "info"@
    &&& c.mcp.tools_enabled@.map_values(|t: String| t@) == default_tools()
}

impl Default for AppConfig {
    fn default() -> (r: Self)
        ensures
            is_default_config(r),
    {
        let tools_enabled = vec![
            String::from_str("add_subtitle"),
            String::from_str("update_subtitle"),
            String::from_str("remove_subtitle"),
            String::from_str("clear_all_subtitles"),
            String::from_str("list_subtitles"),
            String::from_str("toggle_interaction"),
            String::from_str("set_always_on_top"),
            String::from_str("get_status"),
        ];
        let r = AppConfig {
            server: ServerConfig {
                host: String::from_str("127.0.0.1"),
                port: 8080,
                cors_enabled: true,
            },
            window: WindowConfig {
                always_on_top: true,
                click_through: true,
                transparent: true,
                default_width: 800,
                default_height: 600,
            },
            api: ApiConfig { enabled: true, rate_limit: 100, auth_required: false, api_key: None },
            mcp: McpConfig { enabled: true, log_level: String::from_str("info"), tools_enabled },
        };
        proof {
            assert(r.mcp.tools_enabled@.map_values(|t: String| t@) =~= default_tools());
        }
        r
    }
}

} // verus!
