//! Events between the engine, the runtime and the user interface.
use crate::json::Json;
use crate::types::config::ProviderProfile;
use crate::types::config::ThinkingEffort;
use crate::types::display::DisplayMessage;
use crate::types::display::HistoryItem;
use crate::types::display::UserDraft;
use crate::types::message::Message;
use crate::types::message::ToolResultBlock;
use crate::types::message::ToolUseBlock;
use vstd::prelude::*;

verus! {

#[derive(Debug, Clone, Copy, PartialEq, Eq, Structural)]
pub enum SubagentStatus {
    Running,
    Completed,
    Failed,
    Cancelled,
}

#[derive(Debug, PartialEq, Eq)]
pub struct SubagentSnapshot {
    pub session_id: String,
    pub parent_session_id: String,
    pub spawn_tool_use_id: String,
    pub agent_label: String,
    pub status: SubagentStatus,
    pub messages: Vec<Message>,
}

#[derive(Debug, PartialEq, Eq)]
pub struct SubagentStartedEvent {
    pub session_id: String,
    pub parent_session_id: String,
    pub spawn_tool_use_id: String,
    pub agent_label: String,
}

#[derive(Debug, PartialEq, Eq)]
pub struct SubagentMessageEvent {
    pub session_id: String,
    pub message: Message,
}

#[derive(Debug, PartialEq, Eq)]
pub struct SubagentToolUseEvent {
    pub session_id: String,
    pub tool_use: ToolUseBlock,
}

#[derive(Debug, PartialEq, Eq)]
pub struct SubagentToolResultEvent {
    pub session_id: String,
    pub tool_result: ToolResultBlock,
}

#[derive(Debug, PartialEq, Eq)]
pub struct SubagentFinishedEvent {
    pub session_id: String,
    pub status: SubagentStatus,
}

#[derive(Debug, PartialEq, Eq)]
pub struct BashPreview {
    pub command: String,
    pub description: Option<String>,
}

#[derive(Debug, PartialEq, Eq)]
pub struct EditPermissionPreview {
    pub summary: String,
    pub path: String,
    pub replacement_count: usize,
    pub replace_all: bool,
    pub start_lines: Vec<usize>,
    pub added_lines: usize,
    pub removed_lines: usize,
}

#[derive(Debug, PartialEq, Eq)]
pub struct ReadPreview {
    pub file_path: String,
}

/// What a tool is about to do, shown before it is allowed to.
#[derive(Debug, PartialEq, Eq)]
pub enum PermissionPreview {
    Bash(BashPreview),
    Edit(EditPermissionPreview),
    Write(EditPermissionPreview),
    Read(ReadPreview),
    Custom { summary: String },
}

#[derive(Debug, PartialEq, Eq)]
pub struct UserInputOption {
    pub label: String,
    pub description: String,
}

#[derive(Debug, PartialEq, Eq)]
pub struct UserInputQuestion {
    pub id: String,
    pub header: String,
    pub question: String,
    pub options: Vec<UserInputOption>,
}

#[derive(Debug, PartialEq, Eq)]
pub struct UserInputPreview {
    pub questions: Vec<UserInputQuestion>,
}

#[derive(Debug, PartialEq, Eq)]
pub enum ToolPauseKind {
    Permission(PermissionPreview),
    UserInput(UserInputPreview),
}

/// The rule that a permission decision came from.
#[derive(Debug, PartialEq, Eq)]
pub struct PermissionSource {
    pub decision: String,
    pub source: String,
    pub rule: String,
}

/// A tool that waits for the user.
#[derive(Debug, PartialEq, Eq)]
pub struct ToolPauseRequest {
    pub tool_use_id: String,
    pub tool_name: String,
    pub kind: ToolPauseKind,
    pub source_agent_label: Option<String>,
    pub permission_source: Option<PermissionSource>,
    /// The call that the preview is of, where it is another one.
    pub preview_tool_use_id: Option<String>,
}

/// The user's answer to a tool that waits.
#[derive(Debug, PartialEq, Eq)]
pub enum ToolPauseResponse {
    Permission { approved: bool },
    UserInput { value: Json },
    Cancelled,
}

#[derive(Debug, PartialEq, Eq)]
pub struct SessionSummary {
    pub id: String,
    pub title: String,
    pub model: String,
    pub provider: String,
    pub message_count: i64,
    /// Seconds since the Unix epoch.
    pub created_at: i64,
}

#[derive(Debug, PartialEq, Eq)]
pub struct CommandSummary {
    pub name: String,
    pub aliases: Vec<String>,
    pub description: String,
    pub has_args: bool,
    pub args_description: Option<String>,
}

#[derive(Debug, PartialEq, Eq)]
pub struct AgentSummary {
    pub name: String,
    pub description: String,
}

/// A choice put to the user on a page of its own. Providers come with distinct keys.
#[derive(Debug, PartialEq, Eq)]
pub enum InteractionRequest {
    ModelSelection {
        providers: Vec<(String, ProviderProfile)>,
        current_provider: String,
        current_model: String,
    },
    SessionSelection { sessions: Vec<SessionSummary> },
}

/// An agent as the user can look at it.
#[derive(Debug, PartialEq, Eq)]
pub struct AgentRecord {
    pub name: String,
    pub description: String,
    pub instructions: String,
    pub tools: Vec<String>,
    pub disallow_tools: Vec<String>,
    pub model: Option<String>,
    pub source_kind: AgentSourceKind,
    pub path: Option<String>,
    /// Whether the user can change it.
    pub editable: bool,
}

/// The agents put before the user to be looked at and changed.
#[derive(Debug, PartialEq, Eq)]
pub struct AgentManagement {
    pub records: Vec<AgentRecord>,
    pub providers: Vec<(String, ProviderProfile)>,
    pub current_provider: String,
    pub current_model: String,
}

/// What a command makes the runtime do.
#[derive(Debug, PartialEq, Eq)]
pub enum CommandEffect {
    Notice(String),
    ShowInteraction(InteractionRequest),
    ManageAgents(AgentManagement),
    InjectUserMessage(Message),
    InjectUserQuery { llm_message: Message, display_message: DisplayMessage },
    ContinueQuery,
    Emit(RuntimeToUiEvent),
}

/// How a command went.
#[derive(Debug, PartialEq, Eq)]
pub enum CommandResult {
    Done(Vec<CommandEffect>),
    Error(String),
}

/// What the runtime tells the user interface.
#[derive(Debug, PartialEq, Eq)]
pub enum RuntimeToUiEvent {
    RunStarted,
    UserMessageInjected(HistoryItem),
    TurnStarted,
    ThinkingDelta(String),
    TextDelta(String),
    ToolUse(ToolUseBlock),
    ToolResult(ToolResultBlock),
    TurnEnded,
    RunFinished,
    ToolPauseRequested(ToolPauseRequest),
    SubagentStarted(SubagentStartedEvent),
    SubagentMessageProduced(SubagentMessageEvent),
    SubagentToolUse(SubagentToolUseEvent),
    SubagentToolResult(SubagentToolResultEvent),
    SubagentFinished(SubagentFinishedEvent),
    Error(String),
    Warning(String),
    Shutdown,
    CommandNotice(String),
    ModelChanged { provider: String, model: String, thinking_effort: Option<ThinkingEffort> },
    SessionTitleChanged { title: Option<String> },
    InteractionRequest(InteractionRequest),
    CommandList(Vec<CommandSummary>),
    AgentList(Vec<AgentSummary>),
    SessionChanged {
        session_id: Option<String>,
        messages: Vec<HistoryItem>,
        subagents: Vec<SubagentSnapshot>,
    },
}

/// What the engine tells the runtime while a query runs.
#[derive(Debug, PartialEq, Eq)]
pub enum EngineToRuntimeEvent {
    TurnStarted,
    TurnEnded,
    ThinkingDelta(String),
    TextDelta(String),
    UserMessageProduced(Message),
    MessageProduced(Message),
    ToolUse(ToolUseBlock),
    ToolResult(ToolResultBlock),
    ToolResultsProduced(Message),
    ToolPauseRequested(ToolPauseRequest),
    SubagentStarted(SubagentStartedEvent),
    SubagentMessageProduced(SubagentMessageEvent),
    SubagentToolUse(SubagentToolUseEvent),
    SubagentToolResult(SubagentToolResultEvent),
    SubagentFinished(SubagentFinishedEvent),
    Error(String),
    Warning(String),
}

/// Where an agent is kept.
#[derive(Debug, Clone, Copy, PartialEq, Eq, Structural)]
pub enum AgentSourceKind {
    BuiltIn,
    Project,
    User,
}

/// An agent as it is being edited.
#[derive(Debug, PartialEq, Eq)]
pub struct AgentDraft {
    pub name: String,
    pub description: String,
    pub instructions: String,
    pub tools: Vec<String>,
    pub disallow_tools: Vec<String>,
    pub model: Option<String>,
}

/// What the user interface asks of the runtime.
#[allow(inconsistent_fields)]
#[derive(Debug, PartialEq, Eq)]
pub enum UiToRuntimeEvent {
    SendMessage(UserDraft),
    SendCommand(String),
    InterveneMessage(UserDraft),
    CancelRun,
    ModelSelected { provider: String, model: String, thinking_effort: Option<ThinkingEffort> },
    SessionSelected { session_id: String },
    AgentSaveRequested {
        source_kind: AgentSourceKind,
        original_path: Option<String>,
        draft: AgentDraft,
    },
    AgentDeleteRequested { path: String },
    AgentGenerateRequested {
        source_kind: AgentSourceKind,
        description: String,
        tools: Vec<String>,
        disallow_tools: Vec<String>,
        model: Option<String>,
    },
    ResolveToolPause { tool_use_id: String, response: ToolPauseResponse },
}

impl Clone for SessionSummary {
    fn clone(&self) -> (r: Self)
        ensures
            r == *self,
    {
        SessionSummary {
            id: self.id.clone(),
            title: self.title.clone(),
            model: self.model.clone(),
            provider: self.provider.clone(),
            message_count: self.message_count,
            created_at: self.created_at,
        }
    }
}

} // verus!
