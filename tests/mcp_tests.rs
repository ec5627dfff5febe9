use subs_overlay_lib::mcp_server::{route_mcp_request, McpRoute, ToolKind};

fn failure(route: McpRoute) -> String {
    match route {
        McpRoute::Failure(message) => message,
        other => panic!("expected a failure, got {other:?}"),
    }
}

#[test]
fn test_mcp_functionality() {
    // Test MCP tool definitions
    let tools = ToolKind::all();
    assert!(!tools.is_empty());

    // Check that expected tools are present
    let tool_names: Vec<String> = tools.iter().map(|t| t.name().to_string()).collect();
    assert!(tool_names.contains(&"add_subtitle".to_string()));
    assert!(tool_names.contains(&"update_subtitle".to_string()));
    assert!(tool_names.contains(&"remove_subtitle".to_string()));
    assert!(tool_names.contains(&"list_subtitles".to_string()));
    assert!(tool_names.contains(&"clear_all_subtitles".to_string()));
    assert!(tool_names.contains(&"toggle_interaction".to_string()));
    assert!(tool_names.contains(&"set_always_on_top".to_string()));
    assert!(tool_names.contains(&"get_status".to_string()));
}

#[test]
fn tool_names_round_trip() {
    for tool in ToolKind::all() {
        assert_eq!(ToolKind::from_name(tool.name()), Some(tool));
    }
    assert_eq!(ToolKind::from_name("Add_subtitle"), None);
    assert_eq!(ToolKind::from_name(""), None);
}

#[test]
fn routes_tool_calls() {
    assert!(matches!(
        route_mcp_request("tools/call", Some("add_subtitle"), true),
        McpRoute::CallTool(ToolKind::AddSubtitle)
    ));
    assert!(matches!(
        route_mcp_request("tools/call", Some("get_status"), true),
        McpRoute::CallTool(ToolKind::GetStatus)
    ));
    assert_eq!(failure(route_mcp_request("tools/call", None, true)), "Missing tool name");
    assert_eq!(
        failure(route_mcp_request("tools/call", Some("get_status"), false)),
        "Missing arguments for tool call"
    );
    assert_eq!(failure(route_mcp_request("tools/call", Some("fly"), true)), "Unknown tool: fly");
}

#[test]
fn routes_other_methods() {
    assert!(matches!(route_mcp_request("tools/list", None, false), McpRoute::ListTools));
    assert!(matches!(route_mcp_request("initialize", Some("x"), true), McpRoute::Initialize));
    assert_eq!(failure(route_mcp_request("ping", None, false)), "Unknown method: ping");
}

#[test]
fn invalid_parameters_message_names_the_tool() {
    assert_eq!(
        ToolKind::ToggleInteraction.invalid_parameters_message(),
        "Invalid parameters for toggle_interaction"
    );
    assert_eq!(
        ToolKind::RemoveSubtitle.invalid_parameters_message(),
        "Invalid parameters for remove_subtitle"
    );
}
