use subs_overlay_lib::api_server::{ApiResponse, StatusResponse};
use subs_overlay_lib::config::AppConfig;
use subs_overlay_lib::mcp_server::{RemoveSubtitleParams, ToggleInteractionParams};

#[test]
fn test_config_default_values() {
    let config = AppConfig::default();
    assert_eq!(config.server.host, "127.0.0.1");
    assert_eq!(config.server.port, 8080);
    assert!(config.server.cors_enabled);
    assert!(config.window.always_on_top);
    assert!(config.window.click_through);
    assert!(config.window.transparent);
    assert_eq!(config.window.default_width, 800);
    assert_eq!(config.window.default_height, 600);
    assert!(config.api.enabled);
    assert_eq!(config.api.rate_limit, 100);
    assert!(!config.api.auth_required);
    assert!(config.api.api_key.is_none());
    assert!(config.mcp.enabled);
    assert_eq!(config.mcp.log_level, "info");
    assert!(!config.mcp.tools_enabled.is_empty());
}

#[test]
fn default_tools_are_the_whole_catalog() {
    let config = AppConfig::default();
    assert_eq!(
        config.mcp.tools_enabled,
        vec![
            "add_subtitle",
            "update_subtitle",
            "remove_subtitle",
            "clear_all_subtitles",
            "list_subtitles",
            "toggle_interaction",
            "set_always_on_top",
            "get_status",
        ]
    );
}

#[test]
fn api_response_envelopes() {
    let ok = ApiResponse::success(StatusResponse {
        click_through_enabled: true,
        always_on_top: false,
        subtitle_count: 3,
    });
    assert!(ok.success);
    assert!(ok.error.is_none());
    assert_eq!(ok.data.as_ref().map(|s| s.subtitle_count), Some(3));

    let failed = ApiResponse::<StatusResponse>::error("Subtitle not found".to_string());
    assert!(!failed.success);
    assert!(failed.data.is_none());
    assert_eq!(failed.error.as_deref(), Some("Subtitle not found"));
}

#[test]
fn toggle_interaction_defaults_to_enabled() {
    assert!(ToggleInteractionParams { enabled: None }.click_through_enabled());
    assert!(ToggleInteractionParams { enabled: Some(true) }.click_through_enabled());
    assert!(!ToggleInteractionParams { enabled: Some(false) }.click_through_enabled());
    let params = RemoveSubtitleParams { id: "sub-1".to_string() };
    assert_eq!(params.id, "sub-1");
}
