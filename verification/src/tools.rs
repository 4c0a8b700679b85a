use vstd::prelude::*;
use std::collections::BTreeMap;

verus! {

/// The tools an agent can call.
#[derive(Clone, Copy, Debug, PartialEq, Eq, PartialOrd, Ord, Hash, Structural)]
pub enum ToolName {
    Shell,
    Patch,
    Mcp,
    Skill,
    MultiAgent,
    ToolSearch,
    RequestUserInput,
    ViewImage,
}

/// The wire name of each tool.
pub open spec fn tool_wire_name(name: ToolName) -> Seq<char> {
    match name {
        ToolName::Shell => "shell"@,
        ToolName::Patch => "patch"@,
        ToolName::Mcp => "mcp"@,
        ToolName::Skill => "skill"@,
        ToolName::MultiAgent => "multi_agent"@,
        ToolName::ToolSearch => "tool_search"@,
        ToolName::RequestUserInput => "request_user_input"@,
        ToolName::ViewImage => "view_image"@,
    }
}

impl ToolName {
    pub fn as_str(self) -> (r: &'static str)
        ensures
            r@ == tool_wire_name(self),
    {
        match self {
            ToolName::Shell => "shell",
            ToolName::Patch => "patch",
            ToolName::Mcp => "mcp",
            ToolName::Skill => "skill",
            ToolName::MultiAgent => "multi_agent",
            ToolName::ToolSearch => "tool_search",
            ToolName::RequestUserInput => "request_user_input",
            ToolName::ViewImage => "view_image",
        }
    }
}

impl Default for ToolName {
    fn default() -> (r: Self)
        ensures
            r == ToolName::Shell,
    {
        ToolName::Shell
    }
}

/// What a tool call asks for.
#[derive(Clone, Debug, PartialEq, Eq)]
pub enum ToolRequestKind {
    Shell { command: String },
    Patch { patch: String },
    Mcp { server: String, tool: String, arguments_json: Option<String> },
    Skill { name: String, arguments_json: Option<String> },
    MultiAgent { action: String, arguments_json: Option<String> },
    ToolSearch { query: String },
    RequestUserInput { prompt: String },
    ViewImage { path: String },
}

impl ToolRequestKind {
    /// The tool that serves the request.
    pub fn tool_name(&self) -> (r: ToolName)
        ensures
            r == match *self {
                ToolRequestKind::Shell { .. } => ToolName::Shell,
                ToolRequestKind::Patch { .. } => ToolName::Patch,
                ToolRequestKind::Mcp { .. } => ToolName::Mcp,
                ToolRequestKind::Skill { .. } => ToolName::Skill,
                ToolRequestKind::MultiAgent { .. } => ToolName::MultiAgent,
                ToolRequestKind::ToolSearch { .. } => ToolName::ToolSearch,
                ToolRequestKind::RequestUserInput { .. } => ToolName::RequestUserInput,
                ToolRequestKind::ViewImage { .. } => ToolName::ViewImage,
            },
    {
        match self {
            ToolRequestKind::Shell { .. } => ToolName::Shell,
            ToolRequestKind::Patch { .. } => ToolName::Patch,
            ToolRequestKind::Mcp { .. } => ToolName::Mcp,
            ToolRequestKind::Skill { .. } => ToolName::Skill,
            ToolRequestKind::MultiAgent { .. } => ToolName::MultiAgent,
            ToolRequestKind::ToolSearch { .. } => ToolName::ToolSearch,
            ToolRequestKind::RequestUserInput { .. } => ToolName::RequestUserInput,
            ToolRequestKind::ViewImage { .. } => ToolName::ViewImage,
        }
    }
}

/// Where a request was routed.
#[derive(Clone, Copy, Debug, PartialEq, Eq, Structural)]
pub struct ToolRoute {
    pub name: ToolName,
    pub model_visible: bool,
}

#[derive(Clone, Copy, Debug, PartialEq, Eq, Structural)]
pub enum ToolRouteStatus {
    Routed,
}

#[derive(Clone, Debug, PartialEq, Eq)]
pub enum ToolPolicyDecision {
    Approved,
    Declined { reason: String },
}

/// A runtime event reported while a tool runs.
#[derive(Clone, Debug, PartialEq, Eq)]
pub enum ToolRuntimeEvent {
    SandboxDecision {
        schema_version: u32,
        allowed: bool,
        backend: String,
        backend_id: String,
        backend_label: String,
        enforcement: String,
        enforcement_level: String,
        network: String,
        escalation_required: bool,
        denial_reason: Option<String>,
    },
    SandboxRunner {
        schema_version: u32,
        platform: String,
        status: String,
        backend: String,
        backend_id: String,
        backend_label: String,
        os_isolation: bool,
        enforcement: String,
        enforcement_level: String,
        runner: String,
        unsupported_reason: Option<String>,
        command: Option<String>,
        cwd: String,
        message: Option<String>,
    },
    McpSession { server: String, status: String, message: Option<String> },
    MultiAgent {
        agent_id: String,
        parent_agent_id: Option<String>,
        status: String,
        message: Option<String>,
    },
    ChildAgent {
        agent_id: String,
        child_session_id: String,
        parent_session_id: Option<String>,
        status: String,
        message: Option<String>,
    },
    ChildScopedStream {
        agent_id: String,
        child_session_id: String,
        parent_session_id: Option<String>,
        event: String,
        seq: usize,
        message: Option<String>,
    },
    DeepParityState {
        layer: String,
        status: String,
        message: Option<String>,
        data: BTreeMap<String, String>,
    },
    PatchDiagnostic { kind: String, message: String, path: Option<String>, line: Option<usize> },
}

/// A file that a tool changed.
#[derive(Clone, Debug, PartialEq, Eq)]
pub struct ToolFileChange {
    pub path: String,
    pub kind: ToolFileChangeKind,
}

#[derive(Clone, Copy, Debug, PartialEq, Eq, Structural)]
pub enum ToolFileChangeKind {
    Added,
    Deleted,
    Updated,
    Moved,
}

#[derive(Clone, Copy, Debug, PartialEq, Eq, Structural)]
pub enum ToolStatus {
    InProgress,
    Completed,
    Failed,
    Declined,
}

/// Whether a tool call may run.
#[derive(Clone, Debug, PartialEq, Eq)]
pub enum ApprovalDecision {
    Approved,
    OnFailure,
    Required,
    Declined { reason: String },
}

#[derive(Clone, Copy, Debug, PartialEq, Eq, Structural)]
pub enum SandboxPolicy {
    ReadOnly,
    WorkspaceWrite,
    DangerFullAccess,
}

/// A runtime that runs no tool.
#[derive(Clone, Copy, Debug, Default, PartialEq, Eq, Structural)]
pub struct NoopToolRuntime;

/// A runtime that runs shell commands.
#[derive(Clone, Copy, Debug, Default, PartialEq, Eq, Structural)]
pub struct ShellToolRuntime;

} // verus!
