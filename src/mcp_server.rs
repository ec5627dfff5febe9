//! The tool-call control surface: its catalog of tools, how a request is
//! routed to one of them, and the parameters that carry no geometry.
//!
//! Requests arrive as JSON; the program around the library takes the method,
//! the tool name and the arguments out of them and asks
//! [`route_mcp_request`] what to do.
use vstd::prelude::*;

verus! {

/// Arguments of the `remove_subtitle` tool.
#[derive(Debug)]
pub struct RemoveSubtitleParams {
    pub id: String,
}

/// Arguments of the `toggle_interaction` tool.
#[derive(Debug)]
pub struct ToggleInteractionParams {
    pub enabled: Option<bool>,
}

impl ToggleInteractionParams {
    /// Whether click-through ends up enabled: as asked, or on when the
    /// caller did not say.
    pub fn click_through_enabled(&self) -> (r: bool)
        ensures
            r == match self.enabled {
                Some(b) => b,
                None => true,
            },
    {
        match self.enabled {
            Some(b) => b,
            None => true,
        }
    }
}

/// The tools of the catalog.
#[derive(Clone, Copy, Debug, PartialEq, Eq, Structural)]
pub enum ToolKind {
    AddSubtitle,
    UpdateSubtitle,
    RemoveSubtitle,
    ClearAllSubtitles,
    ListSubtitles,
    ToggleInteraction,
    SetAlwaysOnTop,
    GetStatus,
}

/// The name under which a tool is called.
pub open spec fn tool_name_of(k: ToolKind) -> Seq<char> {
    match k {
        ToolKind::AddSubtitle => "add_subtitle"@,
        ToolKind::UpdateSubtitle => "update_subtitle"@,
        ToolKind::RemoveSubtitle => "remove_subtitle"@,
        ToolKind::ClearAllSubtitles => "clear_all_subtitles"@,
        ToolKind::ListSubtitles => "list_subtitles"@,
        ToolKind::ToggleInteraction => "toggle_interaction"@,
        ToolKind::SetAlwaysOnTop => "set_always_on_top"@,
        ToolKind::GetStatus => "get_status"@,
    }
}

/// The tool called `name`, if any.
pub open spec fn tool_named(name: Seq<char>) -> Option<ToolKind> {
    if name == "add_subtitle"@ {
        Some(ToolKind::AddSubtitle)
    } else if name == "update_subtitle"@ {
        Some(ToolKind::UpdateSubtitle)
    } else if name == "remove_subtitle"@ {
        Some(ToolKind::RemoveSubtitle)
    } else if name == "clear_all_subtitles"@ {
        Some(ToolKind::ClearAllSubtitles)
    } else if name == "list_subtitles"@ {
        Some(ToolKind::ListSubtitles)
    } else if name == "toggle_interaction"@ {
        Some(ToolKind::ToggleInteraction)
    } else if name == "set_always_on_top"@ {
        Some(ToolKind::SetAlwaysOnTop)
    } else if name == "get_status"@ {
        Some(ToolKind::GetStatus)
    } else {
        None
    }
}

/// Whether two strings hold the same characters.
fn same_text(a: &str, b: &str) -> (r: bool)
    ensures
        r == (a@ == b@),
{
    a.to_owned() == b.to_owned()
}

impl ToolKind {
    /// Every tool, in catalog order.
    pub fn all() -> (r: Vec<ToolKind>)
        ensures
            r@ == seq![
                ToolKind::AddSubtitle,
                ToolKind::UpdateSubtitle,
                ToolKind::RemoveSubtitle,
                ToolKind::ClearAllSubtitles,
                ToolKind::ListSubtitles,
                ToolKind::ToggleInteraction,
                ToolKind::SetAlwaysOnTop,
                ToolKind::GetStatus,
            ],
    {
        let r = vec![
            ToolKind::AddSubtitle,
            ToolKind::UpdateSubtitle,
            ToolKind::RemoveSubtitle,
            ToolKind::ClearAllSubtitles,
            ToolKind::ListSubtitles,
            ToolKind::ToggleInteraction,
            ToolKind::SetAlwaysOnTop,
            ToolKind::GetStatus,
        ];
        proof {
            assert(r@ =~= seq![
                ToolKind::AddSubtitle,
                ToolKind::UpdateSubtitle,
                ToolKind::RemoveSubtitle,
                ToolKind::ClearAllSubtitles,
                ToolKind::ListSubtitles,
                ToolKind::ToggleInteraction,
                ToolKind::SetAlwaysOnTop,
                ToolKind::GetStatus,
            ]);
        }
        r
    }

    /// The name under which the tool is called.
    pub fn name(&self) -> (r: &'static str)
        ensures
            r@ == tool_name_of(*self),
    {
        match self {
            ToolKind::AddSubtitle => "add_subtitle",
            ToolKind::UpdateSubtitle => "update_subtitle",
            ToolKind::RemoveSubtitle => "remove_subtitle",
            ToolKind::ClearAllSubtitles => "clear_all_subtitles",
            ToolKind::ListSubtitles => "list_subtitles",
            ToolKind::ToggleInteraction => "toggle_interaction",
            ToolKind::SetAlwaysOnTop => "set_always_on_top",
            ToolKind::GetStatus => "get_status",
        }
    }

    /// The tool called `name`, if any.
    pub fn from_name(name: &str) -> (r: Option<ToolKind>)
        ensures
            r == tool_named(name@),
    {
        if same_text(name, "add_subtitle") {
            Some(ToolKind::AddSubtitle)
        } else if same_text(name, "update_subtitle") {
            Some(ToolKind::UpdateSubtitle)
        } else if same_text(name, "remove_subtitle") {
            Some(ToolKind::RemoveSubtitle)
        } else if same_text(name, "clear_all_subtitles") {
            Some(ToolKind::ClearAllSubtitles)
        } else if same_text(name, "list_subtitles") {
            Some(ToolKind::ListSubtitles)
        } else if same_text(name, "toggle_interaction") {
            Some(ToolKind::ToggleInteraction)
        } else if same_text(name, "set_always_on_top") {
            Some(ToolKind::SetAlwaysOnTop)
        } else if same_text(name, "get_status") {
            Some(ToolKind::GetStatus)
        } else {
            None
        }
    }

    /// The message for arguments that do not fit the tool.
    pub fn invalid_parameters_message(&self) -> (r: String)
        ensures
            r@ == "Invalid parameters for "@ + tool_name_of(*self),
    {
        String::from_str("Invalid parameters for ").concat(self.name())
    }
}

/// What to do with a tool-call request.
#[derive(Debug)]
pub enum McpRoute {
    /// Call this tool with the request's arguments.
    CallTool(ToolKind),
    /// Answer with the catalog of tools.
    ListTools,
    /// Answer with the server's description.
    Initialize,
    /// Answer with this error message.
    Failure(String),
}

/// `r` is a failure with message `text`.
pub open spec fn is_failure(r: McpRoute, text: Seq<char>) -> bool {
    match r {
        McpRoute::Failure(m) => m@ == text,
        _ => false,
    }
}

/// How a request with this method, tool name and presence of arguments is
/// answered: a tool call needs a tool name, then arguments, then a tool of
/// that name.
pub open spec fn routes_to(
    r: McpRoute,
    method: Seq<char>,
    tool: Option<Seq<char>>,
    has_arguments: bool,
) -> bool {
    if method == "tools/call"@ {
        match tool {
            None => is_failure(r, "Missing tool name"@),
            Some(name) => if !has_arguments {
                is_failure(r, "Missing arguments for tool call"@)
            } else {
                match tool_named(name) {
                    Some(k) => r == McpRoute::CallTool(k),
                    None => is_failure(r, "Unknown tool: "@ + name),
                }
            },
        }
    } else if method == "tools/list"@ {
        r == McpRoute::ListTools
    } else if method == "initialize"@ {
        r == McpRoute::Initialize
    } else {
        is_failure(r, "Unknown method: "@ + method)
    }
}

/// The characters of an optional string.
pub open spec fn text_view(t: Option<&str>) -> Option<Seq<char>> {
    match t {
        Some(s) => Some(s@),
        None => None,
    }
}

/// Decides how to answer a request: `method` as sent, `tool_name` the
/// request's `name` parameter when it is a string, and `has_arguments`
/// whether it has an `arguments` parameter.
pub fn route_mcp_request(method: &str, tool_name: Option<&str>, has_arguments: bool) -> (r: McpRoute)
    ensures
        routes_to(r, method@, text_view(tool_name), has_arguments),
{
    if same_text(method, "tools/call") {
        match tool_name {
            None => McpRoute::Failure(String::from_str("Missing tool name")),
            Some(name) => {
                if !has_arguments {
                    McpRoute::Failure(String::from_str("Missing arguments for tool call"))
                } else {
                    match ToolKind::from_name(name) {
                        Some(k) => McpRoute::CallTool(k),
                        None => McpRoute::Failure(String::from_str("Unknown tool: ").concat(name)),
                    }
                }
            },
        }
    } else if same_text(method, "tools/list") {
        McpRoute::ListTools
    } else if same_text(method, "initialize") {
        McpRoute::Initialize
    } else {
        McpRoute::Failure(String::from_str("Unknown method: ").concat(method))
    }
}

} // verus!
