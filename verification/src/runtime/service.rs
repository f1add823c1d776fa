//! What the runtime does with requests, commands and events.
use crate::command;
use crate::command::ParsedCommand;
use crate::config::project;
use crate::db::Session;
use crate::json;
use crate::text;
use crate::types::config;
use crate::types::config::ProviderProfile;
use crate::types::config::Settings;
use crate::types::config::ThinkingEffort;
use crate::types::display::DisplayMention;
use crate::types::display::DisplayMessage;
use crate::types::display::HistoryItem;
use crate::types::display::UserDraft;
use crate::types::events::AgentDraft;
use crate::types::events::AgentManagement;
use crate::types::events::AgentSourceKind;
use crate::types::events::CommandEffect;
use crate::types::events::CommandResult;
use crate::types::events::EngineToRuntimeEvent;
use crate::types::events::InteractionRequest;
use crate::types::events::RuntimeToUiEvent;
use crate::types::events::SubagentMessageEvent;
use crate::types::events::SubagentSnapshot;
use crate::types::events::ToolPauseResponse;
use crate::types::events::UiToRuntimeEvent;
use crate::types::message;
use crate::types::message::BlockView;
use crate::types::message::ContentBlock;
use crate::types::message::Message;
use crate::types::message::MessageView;
use crate::types::message::Role;
use vstd::prelude::*;

verus! {

/// How many characters of a title are kept.
pub const MAX_TITLE_CHARS: usize = 300;

/// The choice that the user was asked for and has not made yet.
#[derive(Debug, Clone, Copy, PartialEq, Eq, Structural)]
pub enum PendingInteraction {
    ModelSelect,
    SessionSelect,
    AgentManage,
}

/// What a run begins with.
#[derive(Debug, PartialEq, Eq)]
pub enum RunStart {
    /// The latest message, as the model and the user see it.
    UserMessage,
    /// The latest message for the model, and another text for the user.
    SplitDisplayMessage { display_message: DisplayMessage },
    /// No new message.
    Continue,
}

/// A draft that was turned into messages.
#[derive(Debug, PartialEq, Eq)]
pub struct Submission {
    pub llm_message: Message,
    pub display_message: Option<DisplayMessage>,
}

/// What has to be done outside after a request or a command.
#[derive(Debug, PartialEq, Eq)]
pub enum RuntimeAction {
    Nothing,
    /// Tell the user interface.
    Send(RuntimeToUiEvent),
    /// Put the agents before the user.
    ShowAgents(AgentManagement),
    /// Turn the draft into messages and submit them.
    Submit(UserDraft),
    /// Turn the draft into messages and hand them to the query that runs.
    Intervene(UserDraft),
    RunCommand(ParsedCommand),
    /// Stop the query that runs.
    Cancel,
    SwitchModel { provider: String, model: String, thinking_effort: Option<ThinkingEffort> },
    SwitchSession { session_id: String },
    SaveAgent { source_kind: AgentSourceKind, original_path: Option<String>, draft: AgentDraft },
    DeleteAgent { path: String },
    GenerateAgent {
        source_kind: AgentSourceKind,
        description: String,
        tools: Vec<String>,
        disallow_tools: Vec<String>,
        wanted: Option<String>,
    },
    ResolvePause { tool_use_id: String, response: ToolPauseResponse },
    Start(RunStart),
}

/// What the runtime knows.
#[derive(Debug)]
pub struct AgentRuntime {
    pub session_id: Option<String>,
    pub session_dir: Option<String>,
    pub settings: Settings,
    pub messages: Vec<Message>,
    pub pending_interaction: Option<PendingInteraction>,
}

/// The action that tells the user interface of an error with the given text.
pub open spec fn tells_error(action: RuntimeAction, text: Seq<char>) -> bool {
    action matches RuntimeAction::Send(RuntimeToUiEvent::Error(m)) && m@ == text
}

fn error_action(text: &str) -> (r: RuntimeAction)
    ensures
        tells_error(r, text@),
{
    RuntimeAction::Send(RuntimeToUiEvent::Error(text::copy(text)))
}

/// What a request comes to while no query runs, and whether it answers the choice that the user
/// was asked for.
pub open spec fn idle_action(
    req: UiToRuntimeEvent,
    pending: Option<PendingInteraction>,
    action: RuntimeAction,
) -> bool {
    match req {
        UiToRuntimeEvent::SendMessage(draft) => action == RuntimeAction::Submit(draft),
        UiToRuntimeEvent::SendCommand(text) => match command::command_in(text@) {
            Some((name, args)) => action matches RuntimeAction::RunCommand(p) && p.name@ == name
                && p.args@ == args,
            None => action == RuntimeAction::Nothing,
        },
        UiToRuntimeEvent::InterveneMessage(_) => tells_error(
            action,
            "Cannot intervene because no run is active"@,
        ),
        UiToRuntimeEvent::CancelRun => action == RuntimeAction::Cancel,
        UiToRuntimeEvent::ModelSelected { provider, model, thinking_effort } => action == (
        if pending == Some(PendingInteraction::ModelSelect) {
            RuntimeAction::SwitchModel { provider, model, thinking_effort }
        } else {
            RuntimeAction::Nothing
        }),
        UiToRuntimeEvent::SessionSelected { session_id } => action == (if pending == Some(
            PendingInteraction::SessionSelect,
        ) {
            RuntimeAction::SwitchSession { session_id }
        } else {
            RuntimeAction::Nothing
        }),
        UiToRuntimeEvent::AgentSaveRequested { source_kind, original_path, draft } => action == (
        if pending == Some(PendingInteraction::AgentManage) {
            RuntimeAction::SaveAgent { source_kind, original_path, draft }
        } else {
            RuntimeAction::Nothing
        }),
        UiToRuntimeEvent::AgentDeleteRequested { path } => action == (if pending == Some(
            PendingInteraction::AgentManage,
        ) {
            RuntimeAction::DeleteAgent { path }
        } else {
            RuntimeAction::Nothing
        }),
        UiToRuntimeEvent::AgentGenerateRequested {
            source_kind,
            description,
            tools,
            disallow_tools,
            model,
        } => action == (if pending == Some(PendingInteraction::AgentManage) {
            RuntimeAction::GenerateAgent {
                source_kind,
                description,
                tools,
                disallow_tools,
                wanted: model,
            }
        } else {
            RuntimeAction::Nothing
        }),
        UiToRuntimeEvent::ResolveToolPause { .. } => tells_error(
            action,
            "Cannot resolve tool pause because no run is active"@,
        ),
    }
}

/// What is waited for after a request: choosing a model or a session settles that choice.
pub open spec fn pending_after(
    req: UiToRuntimeEvent,
    pending: Option<PendingInteraction>,
) -> Option<PendingInteraction> {
    match req {
        UiToRuntimeEvent::ModelSelected { .. } => if pending == Some(
            PendingInteraction::ModelSelect,
        ) {
            None
        } else {
            pending
        },
        UiToRuntimeEvent::SessionSelected { .. } => if pending == Some(
            PendingInteraction::SessionSelect,
        ) {
            None
        } else {
            pending
        },
        _ => pending,
    }
}

/// What a request comes to while a query runs.
pub open spec fn busy_action(req: UiToRuntimeEvent, action: RuntimeAction) -> bool {
    match req {
        UiToRuntimeEvent::CancelRun => action == RuntimeAction::Cancel,
        UiToRuntimeEvent::ResolveToolPause { tool_use_id, response } => action
            == (RuntimeAction::ResolvePause { tool_use_id, response }),
        UiToRuntimeEvent::InterveneMessage(draft) => action == RuntimeAction::Intervene(draft),
        _ => tells_error(action, "Cannot handle this request while a run is active"@),
    }
}

/// Takes a request while a query runs.
pub fn on_request_while_running(req: UiToRuntimeEvent) -> (r: RuntimeAction)
    ensures
        busy_action(req, r),
{
    match req {
        UiToRuntimeEvent::CancelRun => RuntimeAction::Cancel,
        UiToRuntimeEvent::ResolveToolPause {
            tool_use_id,
            response,
        } => RuntimeAction::ResolvePause { tool_use_id, response },
        UiToRuntimeEvent::InterveneMessage(draft) => RuntimeAction::Intervene(draft),
        _ => error_action("Cannot handle this request while a run is active"),
    }
}

/// Where the profile of a provider stands among the first `n`.
pub open spec fn profile_place(
    providers: Seq<(String, ProviderProfile)>,
    provider: Seq<char>,
    n: int,
) -> Option<int>
    decreases n,
{
    if n <= 0 {
        None
    } else if providers[n - 1].0@ == provider {
        Some(n - 1)
    } else {
        profile_place(providers, provider, n - 1)
    }
}

pub open spec fn profile_of(
    providers: Seq<(String, ProviderProfile)>,
    provider: Seq<char>,
) -> Option<ProviderProfile> {
    match profile_place(providers, provider, providers.len() as int) {
        Some(i) => Some(providers[i].1),
        None => None,
    }
}

fn find_profile(providers: &Vec<(String, ProviderProfile)>, provider: &str) -> (r: Option<usize>)
    ensures
        match r {
            Some(i) => i < providers@.len() && profile_of(providers@, provider@) == Some(
                providers@[i as int].1,
            ),
            None => profile_of(providers@, provider@) is None,
        },
{
    let mut n: usize = providers.len();
    while n > 0
        invariant
            n <= providers@.len(),
            profile_place(providers@, provider@, providers@.len() as int) == profile_place(
                providers@,
                provider@,
                n as int,
            ),
        decreases n,
    {
        if text::same(providers[n - 1].0.as_str(), provider) {
            return Some(n - 1);
        }
        n = n - 1;
    }
    None
}

/// The settings with another provider and model, and what its profile says.
pub open spec fn with_profile(s: Settings, provider: String, model: String, p: ProviderProfile) -> Settings {
    Settings {
        active_provider: provider,
        model,
        api_key: p.api_key,
        base_url: p.base_url,
        endpoint: p.endpoint,
        ..s
    }
}

/// What a switch of the model leaves to be done: where the choice is stored and what is told.
#[derive(Debug, PartialEq, Eq)]
pub enum SwitchStep {
    /// Store the choice with the session.
    StoreInSession { session_id: String, thinking_effort: Option<String>, event: RuntimeToUiEvent },
    /// Store the choice as the project's default.
    StoreInProject { event: RuntimeToUiEvent },
    /// There is no such provider.
    Unknown(RuntimeToUiEvent),
}

pub open spec fn model_changed(provider: String, model: String, effort: Option<ThinkingEffort>) -> RuntimeToUiEvent {
    RuntimeToUiEvent::ModelChanged { provider, model, thinking_effort: effort }
}

/// What a switch of the model leaves to be done, by whether there is a session.
pub open spec fn switch_step(
    session_id: Option<String>,
    provider: String,
    model: String,
    effort: Option<ThinkingEffort>,
    step: SwitchStep,
) -> bool {
    match session_id {
        Some(id) => step matches SwitchStep::StoreInSession { session_id, thinking_effort, event }
            && session_id == id && event == model_changed(provider, model, effort)
            && json::opt_view(thinking_effort) == (match effort {
            Some(e) => Some(config::effort_name(e)),
            None => None,
        }),
        None => step == (SwitchStep::StoreInProject {
            event: model_changed(provider, model, effort),
        }),
    }
}

/// The effort as it is stored.
fn effort_text(effort: Option<ThinkingEffort>) -> (r: Option<String>)
    ensures
        json::opt_view(r) == (match effort {
            Some(e) => Some(config::effort_name(e)),
            None => None,
        }),
{
    match effort {
        Some(e) => Some(text::copy(e.name())),
        None => None,
    }
}

/// The messages among the items of a history.
pub open spec fn plain_messages(items: Seq<HistoryItem>) -> Seq<MessageView>
    decreases items.len(),
{
    if items.len() == 0 {
        Seq::empty()
    } else {
        let done = plain_messages(items.drop_last());
        match items.last() {
            HistoryItem::Message(m) => done.push(m@),
            HistoryItem::Display(_) => done,
        }
    }
}

/// The messages among the items of a history, for the model.
pub fn messages_in(items: &Vec<HistoryItem>) -> (r: Vec<Message>)
    ensures
        message::messages_view(r@) == plain_messages(items@),
{
    let mut out: Vec<Message> = Vec::new();
    let mut i: usize = 0;
    assert(items@.take(0) =~= Seq::empty());
    assert(message::messages_view(out@) =~= Seq::empty());
    while i < items.len()
        invariant
            i <= items@.len(),
            message::messages_view(out@) == plain_messages(items@.take(i as int)),
        decreases items@.len() - i,
    {
        let ghost before = message::messages_view(out@);
        assert(items@.take(i + 1).drop_last() =~= items@.take(i as int));
        match &items[i] {
            HistoryItem::Message(m) => {
                let c = m.clone();
                let ghost v = c@;
                out.push(c);
                assert(message::messages_view(out@) =~= before.push(v));
            },
            HistoryItem::Display(_) => {},
        }
        i = i + 1;
    }
    assert(items@.take(items@.len() as int) =~= items@);
    out
}

/// The text of the first block of a message, where it is a text.
pub open spec fn first_text(m: MessageView) -> Option<Seq<char>> {
    if m.content.len() == 0 {
        None
    } else {
        match m.content[0] {
            BlockView::Text(t) => Some(t),
            _ => None,
        }
    }
}

/// The title of a session: what the user first wrote, trimmed and cut, where anything is left.
pub open spec fn title_of(written: Option<Seq<char>>) -> Option<Seq<char>> {
    match written {
        Some(t) => if text::trimmed(t).len() == 0 {
            None
        } else {
            Some(text::first_chars(text::trimmed(t), MAX_TITLE_CHARS as int))
        },
        None => None,
    }
}

/// What the user first wrote: the text shown for it, or the message itself.
pub open spec fn written(display: Option<DisplayMessage>, last: Option<MessageView>) -> Option<
    Seq<char>,
> {
    match display {
        Some(d) => Some(d.text@),
        None => match last {
            Some(m) => first_text(m),
            None => None,
        },
    }
}

/// The session that a first submission creates.
pub open spec fn is_new_session(
    s: Session,
    id: Seq<char>,
    settings: Settings,
    title: Option<Seq<char>>,
    now: i64,
) -> bool {
    &&& s.id@ == id
    &&& s.project_path@ == project::safe_name(settings.cwd@)
    &&& s.parent_session_id is None
    &&& s.spawn_tool_use_id is None
    &&& s.session_type@ == "main"@
    &&& s.agent_label is None
    &&& s.provider == settings.active_provider
    &&& s.model == settings.model
    &&& json::opt_view(s.thinking_effort) == (match settings.thinking_effort {
        Some(e) => Some(config::effort_name(e)),
        None => None,
    })
    &&& json::opt_view(s.title) == title
    &&& s.message_count == 0
    &&& s.created_at == now
    &&& s.updated_at == now
}

fn title_text(text: &str) -> (r: Option<String>)
    ensures
        json::opt_view(r) == title_of(Some(text@)),
{
    let t = text::trim(text);
    if text::char_count(t.as_str()) == 0 {
        None
    } else {
        Some(text::take_chars(t.as_str(), MAX_TITLE_CHARS))
    }
}

/// The session of an agent that another session runs.
pub open spec fn is_agent_session(
    s: Session,
    id: Seq<char>,
    parent: Seq<char>,
    call: Seq<char>,
    label: Seq<char>,
    settings: Settings,
    title: Option<String>,
    now: i64,
) -> bool {
    &&& s.id@ == id
    &&& s.project_path@ == project::safe_name(settings.cwd@)
    &&& json::opt_view(s.parent_session_id) == Some(parent)
    &&& json::opt_view(s.spawn_tool_use_id) == Some(call)
    &&& s.session_type@ == "subagent"@
    &&& json::opt_view(s.agent_label) == Some(label)
    &&& s.provider == settings.active_provider
    &&& s.model == settings.model
    &&& json::opt_view(s.thinking_effort) == (match settings.thinking_effort {
        Some(e) => Some(config::effort_name(e)),
        None => None,
    })
    &&& s.title == title
    &&& s.message_count == 0
    &&& s.created_at == now
    &&& s.updated_at == now
}

/// The record of the session that runs the agent `label` for the call `call`.
pub fn agent_session(
    id: &str,
    parent: &str,
    call: &str,
    label: &str,
    settings: &Settings,
    title: Option<String>,
    now: i64,
) -> (r: Session)
    ensures
        is_agent_session(r, id@, parent@, call@, label@, *settings, title, now),
{
    Session {
        id: text::copy(id),
        project_path: project::sanitize(settings.cwd.as_str()),
        parent_session_id: Some(text::copy(parent)),
        spawn_tool_use_id: Some(text::copy(call)),
        session_type: text::copy("subagent"),
        agent_label: Some(text::copy(label)),
        provider: settings.active_provider.clone(),
        model: settings.model.clone(),
        thinking_effort: effort_text(settings.thinking_effort),
        title,
        message_count: 0,
        created_at: now,
        updated_at: now,
    }
}

/// The history that a message for the user alone begins.
pub fn initial_display_message(start: &RunStart) -> (r: Option<&DisplayMessage>)
    ensures
        match start {
            RunStart::SplitDisplayMessage { display_message } => r == Some(display_message),
            _ => r is None,
        },
{
    match start {
        RunStart::SplitDisplayMessage { display_message } => Some(display_message),
        _ => None,
    }
}

impl AgentRuntime {
    pub fn new(settings: Settings) -> (r: Self)
        ensures
            r.session_id is None,
            r.session_dir is None,
            r.settings == settings,
            r.messages@.len() == 0,
            r.pending_interaction is None,
    {
        AgentRuntime {
            session_id: None,
            session_dir: None,
            settings,
            messages: Vec::new(),
            pending_interaction: None,
        }
    }

    /// Takes a request while no query runs.
    pub fn on_request(&mut self, req: UiToRuntimeEvent) -> (r: RuntimeAction)
        ensures
            idle_action(req, old(self).pending_interaction, r),
            *final(self) == (AgentRuntime {
                pending_interaction: pending_after(req, old(self).pending_interaction),
                ..*old(self)
            }),
    {
        let model_wanted = match self.pending_interaction {
            Some(PendingInteraction::ModelSelect) => true,
            _ => false,
        };
        let session_wanted = match self.pending_interaction {
            Some(PendingInteraction::SessionSelect) => true,
            _ => false,
        };
        let agents_open = match self.pending_interaction {
            Some(PendingInteraction::AgentManage) => true,
            _ => false,
        };
        match req {
            UiToRuntimeEvent::SendMessage(draft) => RuntimeAction::Submit(draft),
            UiToRuntimeEvent::SendCommand(text) => match command::parse(text.as_str()) {
                Some(p) => RuntimeAction::RunCommand(p),
                None => RuntimeAction::Nothing,
            },
            UiToRuntimeEvent::InterveneMessage(_) => error_action(
                "Cannot intervene because no run is active",
            ),
            UiToRuntimeEvent::CancelRun => RuntimeAction::Cancel,
            UiToRuntimeEvent::ModelSelected { provider, model, thinking_effort } => {
                if model_wanted {
                    self.pending_interaction = None;
                    RuntimeAction::SwitchModel { provider, model, thinking_effort }
                } else {
                    RuntimeAction::Nothing
                }
            },
            UiToRuntimeEvent::SessionSelected { session_id } => {
                if session_wanted {
                    self.pending_interaction = None;
                    RuntimeAction::SwitchSession { session_id }
                } else {
                    RuntimeAction::Nothing
                }
            },
            UiToRuntimeEvent::AgentSaveRequested { source_kind, original_path, draft } => {
                if agents_open {
                    RuntimeAction::SaveAgent { source_kind, original_path, draft }
                } else {
                    RuntimeAction::Nothing
                }
            },
            UiToRuntimeEvent::AgentDeleteRequested { path } => {
                if agents_open {
                    RuntimeAction::DeleteAgent { path }
                } else {
                    RuntimeAction::Nothing
                }
            },
            UiToRuntimeEvent::AgentGenerateRequested {
                source_kind,
                description,
                tools,
                disallow_tools,
                model,
            } => {
                if agents_open {
                    RuntimeAction::GenerateAgent {
                        source_kind,
                        description,
                        tools,
                        disallow_tools,
                        wanted: model,
                    }
                } else {
                    RuntimeAction::Nothing
                }
            },
            UiToRuntimeEvent::ResolveToolPause { .. } => error_action(
                "Cannot resolve tool pause because no run is active",
            ),
        }
    }

    /// Takes a draft that was turned into messages, or why it could not be.
    pub fn submit(&mut self, submission: Result<Submission, String>) -> (r: RuntimeAction)
        ensures
            match submission {
                Err(e) => r == RuntimeAction::Send(RuntimeToUiEvent::Error(e)) && *final(self)
                    == *old(self),
                Ok(s) => final(self).messages@ == old(self).messages@.push(s.llm_message)
                    && *final(self) == (AgentRuntime {
                    messages: final(self).messages,
                    ..*old(self)
                }) && r == RuntimeAction::Start(
                    match s.display_message {
                        Some(display_message) => RunStart::SplitDisplayMessage { display_message },
                        None => RunStart::UserMessage,
                    },
                ),
            },
    {
        match submission {
            Err(e) => RuntimeAction::Send(RuntimeToUiEvent::Error(e)),
            Ok(s) => {
                self.messages.push(s.llm_message);
                match s.display_message {
                    Some(display_message) => RuntimeAction::Start(
                        RunStart::SplitDisplayMessage { display_message },
                    ),
                    None => RuntimeAction::Start(RunStart::UserMessage),
                }
            },
        }
    }

    /// Does what a command asks for.
    pub fn apply_command_effect(&mut self, effect: CommandEffect) -> (r: Vec<RuntimeAction>)
        ensures
            effect_applied(*old(self), effect, r@, *final(self)),
    {
        let mut actions: Vec<RuntimeAction> = Vec::new();
        match effect {
            CommandEffect::Notice(text) => {
                actions.push(RuntimeAction::Send(RuntimeToUiEvent::CommandNotice(text)));
            },
            CommandEffect::ShowInteraction(req) => {
                self.pending_interaction = match &req {
                    InteractionRequest::ModelSelection { .. } => Some(
                        PendingInteraction::ModelSelect,
                    ),
                    InteractionRequest::SessionSelection { .. } => Some(
                        PendingInteraction::SessionSelect,
                    ),
                };
                actions.push(RuntimeAction::Send(RuntimeToUiEvent::InteractionRequest(req)));
            },
            CommandEffect::ManageAgents(m) => {
                self.pending_interaction = Some(PendingInteraction::AgentManage);
                actions.push(RuntimeAction::ShowAgents(m));
            },
            CommandEffect::InjectUserMessage(msg) => {
                let shown = msg.clone();
                self.messages.push(msg);
                actions.push(
                    RuntimeAction::Send(
                        RuntimeToUiEvent::UserMessageInjected(HistoryItem::Message(shown)),
                    ),
                );
                actions.push(RuntimeAction::Start(RunStart::UserMessage));
            },
            CommandEffect::InjectUserQuery { llm_message, display_message } => {
                self.messages.push(llm_message);
                let shown = copy_display(&display_message);
                actions.push(
                    RuntimeAction::Send(
                        RuntimeToUiEvent::UserMessageInjected(HistoryItem::Display(shown)),
                    ),
                );
                actions.push(
                    RuntimeAction::Start(RunStart::SplitDisplayMessage { display_message }),
                );
            },
            CommandEffect::ContinueQuery => {
                actions.push(RuntimeAction::Start(RunStart::Continue));
            },
            CommandEffect::Emit(event) => {
                actions.push(RuntimeAction::Send(event));
            },
        }
        actions
    }

    /// What a command that has run came to: what it asks for, or the error it ended with.
    pub fn command_outcome(&self, result: CommandResult) -> (r: (
        Vec<CommandEffect>,
        Option<RuntimeToUiEvent>,
    ))
        ensures
            match result {
                CommandResult::Done(effects) => r.0 == effects && r.1 is None,
                CommandResult::Error(e) => r.0@.len() == 0 && r.1 == Some(
                    RuntimeToUiEvent::Error(e),
                ),
            },
    {
        match result {
            CommandResult::Done(effects) => (effects, None),
            CommandResult::Error(e) => (Vec::new(), Some(RuntimeToUiEvent::Error(e))),
        }
    }

    /// What is said of a command that is not known.
    pub fn unknown_command(&self, name: &str) -> (r: RuntimeToUiEvent)
        ensures
            r matches RuntimeToUiEvent::CommandNotice(m) && m@ == "未知命令: /"@ + name@
                + ". 输入 /help 查看可用命令。"@,
    {
        let mut m = text::concat("未知命令: /", name);
        m.push_str(". 输入 /help 查看可用命令。");
        RuntimeToUiEvent::CommandNotice(m)
    }

    /// Goes over to another model.
    pub fn switch_model(
        &mut self,
        provider: &String,
        model: &String,
        thinking_effort: Option<ThinkingEffort>,
    ) -> (r: SwitchStep)
        ensures
            match profile_of(old(self).settings.providers@, provider@) {
                Some(p) => *final(self) == (AgentRuntime {
                    settings: Settings {
                        thinking_effort,
                        ..with_profile(old(self).settings, *provider, *model, p)
                    },
                    ..*old(self)
                }) && switch_step(old(self).session_id, *provider, *model, thinking_effort, r),
                None => *final(self) == *old(self) && (r matches SwitchStep::Unknown(
                    RuntimeToUiEvent::Error(m),
                ) && m@ == "提供商 '"@ + provider@ + "' 不存在"@),
            },
    {
        match find_profile(&self.settings.providers, provider.as_str()) {
            None => {
                let mut m = text::concat("提供商 '", provider.as_str());
                m.push_str("' 不存在");
                SwitchStep::Unknown(RuntimeToUiEvent::Error(m))
            },
            Some(i) => {
                self.use_profile(i, provider, model);
                self.settings.thinking_effort = thinking_effort;
                let event = RuntimeToUiEvent::ModelChanged {
                    provider: provider.clone(),
                    model: model.clone(),
                    thinking_effort,
                };
                match &self.session_id {
                    Some(id) => SwitchStep::StoreInSession {
                        session_id: id.clone(),
                        thinking_effort: effort_text(thinking_effort),
                        event,
                    },
                    None => SwitchStep::StoreInProject { event },
                }
            },
        }
    }

    fn use_profile(&mut self, i: usize, provider: &String, model: &String)
        requires
            i < old(self).settings.providers@.len(),
        ensures
            *final(self) == (AgentRuntime {
                settings: with_profile(
                    old(self).settings,
                    *provider,
                    *model,
                    old(self).settings.providers@[i as int].1,
                ),
                ..*old(self)
            }),
    {
        let api_key = self.settings.providers[i].1.api_key.clone();
        let base_url = self.settings.providers[i].1.base_url.clone();
        let endpoint = self.settings.providers[i].1.endpoint;
        self.settings.active_provider = provider.clone();
        self.settings.model = model.clone();
        self.settings.api_key = api_key;
        self.settings.base_url = base_url;
        self.settings.endpoint = endpoint;
    }

    /// Goes over to the session `session_id`; `found` is its record and `dir` its directory.
    pub fn enter_session(&mut self, session_id: &String, dir: &String, found: &Option<Session>)
        -> (r: Option<RuntimeToUiEvent>)
        ensures
            session_entered(*old(self), *session_id, *dir, *found, *final(self)),
            match *found {
                Some(_) => r is None,
                None => r matches Some(RuntimeToUiEvent::Error(m)) && m@ == "会话不存在"@,
            },
    {
        self.session_id = Some(session_id.clone());
        match found {
            None => Some(RuntimeToUiEvent::Error(text::copy("会话不存在"))),
            Some(s) => {
                self.session_dir = Some(dir.clone());
                let changed = !text::same(
                    s.provider.as_str(),
                    self.settings.active_provider.as_str(),
                ) || !text::same(s.model.as_str(), self.settings.model.as_str());
                if changed {
                    match find_profile(&self.settings.providers, s.provider.as_str()) {
                        Some(i) => {
                            self.use_profile(i, &s.provider, &s.model);
                        },
                        None => {},
                    }
                }
                self.settings.thinking_effort = match &s.thinking_effort {
                    Some(e) => ThinkingEffort::parse(e.as_str()),
                    None => None,
                };
                None
            },
        }
    }

    /// Takes over the history of the session that was entered, and tells of it. `loaded` is the
    /// history for the model; where it could not be read the messages shown take its place.
    pub fn take_history(
        &mut self,
        session: &Session,
        shown: Vec<HistoryItem>,
        loaded: Result<Vec<Message>, String>,
        subagents: Vec<SubagentSnapshot>,
    ) -> (r: Vec<RuntimeToUiEvent>)
        ensures
            *final(self) == (AgentRuntime { messages: final(self).messages, ..*old(self) }),
            match loaded {
                Ok(m) => final(self).messages == m,
                Err(_) => message::messages_view(final(self).messages@) == plain_messages(shown@),
            },
            told_of_session(*old(self), *session, shown, loaded, subagents, r@),
    {
        let mut events: Vec<RuntimeToUiEvent> = Vec::new();
        match loaded {
            Ok(m) => {
                self.messages = m;
            },
            Err(e) => {
                events.push(
                    RuntimeToUiEvent::Warning(
                        text::concat(
                            "加载 JSONL 历史失败，已降级使用数据库消息: ",
                            e.as_str(),
                        ),
                    ),
                );
                self.messages = messages_in(&shown);
            },
        }
        let title = match &session.title {
            Some(t) => Some(t.clone()),
            None => None,
        };
        events.push(RuntimeToUiEvent::SessionTitleChanged { title });
        events.push(
            RuntimeToUiEvent::ModelChanged {
                provider: session.provider.clone(),
                model: session.model.clone(),
                thinking_effort: self.settings.thinking_effort,
            },
        );
        events.push(
            RuntimeToUiEvent::SessionChanged {
                session_id: Some(session.id.clone()),
                messages: shown,
                subagents,
            },
        );
        events
    }

    /// Makes the session for a first submission.
    pub fn create_session(&mut self, id: &String, dir: &String, start: &RunStart, now: i64) -> (r:
        Session)
        ensures
            *final(self) == (AgentRuntime {
                session_id: Some(*id),
                session_dir: Some(*dir),
                ..*old(self)
            }),
            is_new_session(
                r,
                id@,
                old(self).settings,
                title_of(written(shown_at_start(*start), last_of(old(self).messages@))),
                now,
            ),
    {
        self.session_id = Some(id.clone());
        self.session_dir = Some(dir.clone());
        let title = match initial_display_message(start) {
            Some(d) => title_text(d.text.as_str()),
            None => {
                let n: usize = self.messages.len();
                if n == 0 {
                    None
                } else {
                    let m = &self.messages[n - 1];
                    assert(self.messages@[n - 1]@.content == message::blocks_view(m.content@));
                    if m.content.len() == 0 {
                        None
                    } else {
                        assert(m@.content[0] == m.content@[0]@);
                        match &m.content[0] {
                            ContentBlock::Text(b) => title_text(b.text.as_str()),
                            _ => None,
                        }
                    }
                }
            },
        };
        Session {
            id: id.clone(),
            project_path: project::sanitize(self.settings.cwd.as_str()),
            parent_session_id: None,
            spawn_tool_use_id: None,
            session_type: text::copy("main"),
            agent_label: None,
            provider: self.settings.active_provider.clone(),
            model: self.settings.model.clone(),
            thinking_effort: effort_text(self.settings.thinking_effort),
            title,
            message_count: 0,
            created_at: now,
            updated_at: now,
        }
    }

    /// What is told of a session that was just made.
    pub fn session_created(&self, session: &Session, start: &RunStart) -> (r: (
        RuntimeToUiEvent,
        RuntimeToUiEvent,
    ))
        ensures
            r.0 == (RuntimeToUiEvent::SessionTitleChanged { title: session.title }),
            r.1 matches RuntimeToUiEvent::SessionChanged { session_id, messages, subagents }
                && session_id == Some(session.id) && subagents@.len() == 0 && (match shown_at_start(
                *start,
            ) {
                Some(d) => messages@.len() == 1 && (messages@[0] matches HistoryItem::Display(x)
                    && same_display(x, d)),
                None => items_of(messages@, message::messages_view(self.messages@)),
            }),
    {
        let title = match &session.title {
            Some(t) => Some(t.clone()),
            None => None,
        };
        let mut items: Vec<HistoryItem> = Vec::new();
        match initial_display_message(start) {
            Some(d) => {
                items.push(HistoryItem::Display(copy_display(d)));
            },
            None => {
                let mut i: usize = 0;
                while i < self.messages.len()
                    invariant
                        i <= self.messages@.len(),
                        items@.len() == i,
                        forall|k: int|
                            0 <= k < i ==> (#[trigger] items@[k] matches HistoryItem::Message(m)
                                && m@ == self.messages@[k]@),
                    decreases self.messages@.len() - i,
                {
                    items.push(HistoryItem::Message(self.messages[i].clone()));
                    i = i + 1;
                }
            },
        }
        (
            RuntimeToUiEvent::SessionTitleChanged { title },
            RuntimeToUiEvent::SessionChanged {
                session_id: Some(session.id.clone()),
                messages: items,
                subagents: Vec::new(),
            },
        )
    }
}

/// The message for the user alone that a run begins with.
pub open spec fn shown_at_start(start: RunStart) -> Option<DisplayMessage> {
    match start {
        RunStart::SplitDisplayMessage { display_message } => Some(display_message),
        _ => None,
    }
}

pub open spec fn last_of(messages: Seq<Message>) -> Option<MessageView> {
    if messages.len() == 0 {
        None
    } else {
        Some(messages.last()@)
    }
}

/// Whether the items are the messages, in order.
pub open spec fn items_of(items: Seq<HistoryItem>, messages: Seq<MessageView>) -> bool {
    &&& items.len() == messages.len()
    &&& forall|i: int|
        0 <= i < items.len() ==> (#[trigger] items[i] matches HistoryItem::Message(m) && m@
            == messages[i])
}

/// Whether two messages show the same.
pub open spec fn same_display(a: DisplayMessage, b: DisplayMessage) -> bool {
    &&& a.role == b.role
    &&& a.text == b.text
    &&& a.mentions@ == b.mentions@
    &&& a.images@ == b.images@
}

/// A copy of the message.
pub fn copy_display(d: &DisplayMessage) -> (r: DisplayMessage)
    ensures
        same_display(r, *d),
{
    let mut mentions: Vec<DisplayMention> = Vec::new();
    let mut i: usize = 0;
    while i < d.mentions.len()
        invariant
            i <= d.mentions@.len(),
            mentions@ == d.mentions@.take(i as int),
        decreases d.mentions@.len() - i,
    {
        mentions.push(d.mentions[i].moved(0));
        assert(mentions@ =~= d.mentions@.take(i + 1));
        i = i + 1;
    }
    let mut images: Vec<crate::types::display::DisplayImageAttachment> = Vec::new();
    let mut j: usize = 0;
    while j < d.images.len()
        invariant
            j <= d.images@.len(),
            images@ == d.images@.take(j as int),
        decreases d.images@.len() - j,
    {
        images.push(d.images[j].moved(0));
        assert(images@ =~= d.images@.take(j + 1));
        j = j + 1;
    }
    assert(d.mentions@.take(d.mentions@.len() as int) =~= d.mentions@);
    assert(d.images@.take(d.images@.len() as int) =~= d.images@);
    DisplayMessage { role: d.role, text: d.text.clone(), mentions, images }
}

/// What a command's effect does to the runtime and leaves to be done.
pub open spec fn effect_applied(
    pre: AgentRuntime,
    effect: CommandEffect,
    actions: Seq<RuntimeAction>,
    post: AgentRuntime,
) -> bool {
    match effect {
        CommandEffect::Notice(text) => post == pre && actions == seq![
            RuntimeAction::Send(RuntimeToUiEvent::CommandNotice(text)),
        ],
        CommandEffect::ShowInteraction(req) => post == (AgentRuntime {
            pending_interaction: Some(
                match req {
                    InteractionRequest::ModelSelection { .. } => PendingInteraction::ModelSelect,
                    InteractionRequest::SessionSelection { .. } => {
                        PendingInteraction::SessionSelect
                    },
                },
            ),
            ..pre
        }) && actions == seq![RuntimeAction::Send(RuntimeToUiEvent::InteractionRequest(req))],
        CommandEffect::ManageAgents(m) => post == (AgentRuntime {
            pending_interaction: Some(PendingInteraction::AgentManage),
            ..pre
        }) && actions == seq![RuntimeAction::ShowAgents(m)],
        CommandEffect::InjectUserMessage(msg) => {
            &&& post == (AgentRuntime { messages: post.messages, ..pre })
            &&& post.messages@ == pre.messages@.push(msg)
            &&& actions.len() == 2
            &&& actions[0] matches RuntimeAction::Send(
                RuntimeToUiEvent::UserMessageInjected(HistoryItem::Message(shown)),
            ) && shown@ == msg@
            &&& actions[1] == RuntimeAction::Start(RunStart::UserMessage)
        },
        CommandEffect::InjectUserQuery { llm_message, display_message } => {
            &&& post == (AgentRuntime { messages: post.messages, ..pre })
            &&& post.messages@ == pre.messages@.push(llm_message)
            &&& actions.len() == 2
            &&& actions[0] matches RuntimeAction::Send(
                RuntimeToUiEvent::UserMessageInjected(HistoryItem::Display(shown)),
            ) && same_display(shown, display_message)
            &&& actions[1] == RuntimeAction::Start(
                RunStart::SplitDisplayMessage { display_message },
            )
        },
        CommandEffect::ContinueQuery => post == pre && actions == seq![
            RuntimeAction::Start(RunStart::Continue),
        ],
        CommandEffect::Emit(event) => post == pre && actions == seq![RuntimeAction::Send(event)],
    }
}

/// The effort that a session was stored with.
pub open spec fn stored_effort(s: Session, effort: Option<ThinkingEffort>) -> bool {
    match s.thinking_effort {
        None => effort is None,
        Some(t) => match effort {
            Some(e) => config::effort_name(e) == t@,
            None => forall|e: ThinkingEffort| #[trigger] config::effort_name(e) != t@,
        },
    }
}

/// The runtime after it went over to a session: it takes the session's provider and model where
/// they are others and the provider is known, and the session's effort.
pub open spec fn session_entered(
    pre: AgentRuntime,
    session_id: String,
    dir: String,
    found: Option<Session>,
    post: AgentRuntime,
) -> bool {
    match found {
        None => post == (AgentRuntime { session_id: Some(session_id), ..pre }),
        Some(s) => {
            let profile = profile_of(pre.settings.providers@, s.provider@);
            let other = s.provider@ != pre.settings.active_provider@ || s.model@
                != pre.settings.model@;
            &&& post == (AgentRuntime {
                session_id: Some(session_id),
                session_dir: Some(dir),
                settings: post.settings,
                ..pre
            })
            &&& stored_effort(s, post.settings.thinking_effort)
            &&& post.settings == (Settings {
                thinking_effort: post.settings.thinking_effort,
                ..if other && profile is Some {
                    with_profile(pre.settings, s.provider, s.model, profile->0)
                } else {
                    pre.settings
                }
            })
        },
    }
}

/// What is told of a session whose history was taken over.
pub open spec fn told_of_session(
    rt: AgentRuntime,
    session: Session,
    shown: Vec<HistoryItem>,
    loaded: Result<Vec<Message>, String>,
    subagents: Vec<SubagentSnapshot>,
    events: Seq<RuntimeToUiEvent>,
) -> bool {
    let n: int = if loaded is Ok {
        0
    } else {
        1
    };
    &&& events.len() == n + 3
    &&& loaded matches Err(e) ==> (events[0] matches RuntimeToUiEvent::Warning(w) && w@
        == "加载 JSONL 历史失败，已降级使用数据库消息: "@ + e@)
    &&& events[n] == (RuntimeToUiEvent::SessionTitleChanged { title: session.title })
    &&& events[n + 1] == model_changed(session.provider, session.model, rt.settings.thinking_effort)
    &&& events[n + 2] == (RuntimeToUiEvent::SessionChanged {
        session_id: Some(session.id),
        messages: shown,
        subagents,
    })
}

/// What the runtime does with an event of the engine.
#[derive(Debug, PartialEq, Eq)]
pub enum EngineStep {
    /// Keep the message with the session.
    Persist(Message),
    /// Keep the message with the agent's session, and tell of it.
    PersistForAgent(SubagentMessageEvent),
    Forward(RuntimeToUiEvent),
}

/// What becomes of an event of the engine.
pub open spec fn engine_step(event: EngineToRuntimeEvent) -> EngineStep {
    match event {
        EngineToRuntimeEvent::UserMessageProduced(m)
        | EngineToRuntimeEvent::MessageProduced(m)
        | EngineToRuntimeEvent::ToolResultsProduced(m) => EngineStep::Persist(m),
        EngineToRuntimeEvent::SubagentMessageProduced(e) => EngineStep::PersistForAgent(e),
        EngineToRuntimeEvent::TurnStarted => EngineStep::Forward(RuntimeToUiEvent::TurnStarted),
        EngineToRuntimeEvent::TurnEnded => EngineStep::Forward(RuntimeToUiEvent::TurnEnded),
        EngineToRuntimeEvent::ThinkingDelta(t) => EngineStep::Forward(
            RuntimeToUiEvent::ThinkingDelta(t),
        ),
        EngineToRuntimeEvent::TextDelta(t) => EngineStep::Forward(RuntimeToUiEvent::TextDelta(t)),
        EngineToRuntimeEvent::ToolUse(u) => EngineStep::Forward(RuntimeToUiEvent::ToolUse(u)),
        EngineToRuntimeEvent::ToolResult(r) => EngineStep::Forward(RuntimeToUiEvent::ToolResult(r)),
        EngineToRuntimeEvent::ToolPauseRequested(r) => EngineStep::Forward(
            RuntimeToUiEvent::ToolPauseRequested(r),
        ),
        EngineToRuntimeEvent::SubagentStarted(e) => EngineStep::Forward(
            RuntimeToUiEvent::SubagentStarted(e),
        ),
        EngineToRuntimeEvent::SubagentToolUse(e) => EngineStep::Forward(
            RuntimeToUiEvent::SubagentToolUse(e),
        ),
        EngineToRuntimeEvent::SubagentToolResult(e) => EngineStep::Forward(
            RuntimeToUiEvent::SubagentToolResult(e),
        ),
        EngineToRuntimeEvent::SubagentFinished(e) => EngineStep::Forward(
            RuntimeToUiEvent::SubagentFinished(e),
        ),
        EngineToRuntimeEvent::Error(e) => EngineStep::Forward(RuntimeToUiEvent::Error(e)),
        EngineToRuntimeEvent::Warning(w) => EngineStep::Forward(RuntimeToUiEvent::Warning(w)),
    }
}

pub fn on_engine_event(event: EngineToRuntimeEvent) -> (r: EngineStep)
    ensures
        r == engine_step(event),
{
    match event {
        EngineToRuntimeEvent::UserMessageProduced(m)
        | EngineToRuntimeEvent::MessageProduced(m)
        | EngineToRuntimeEvent::ToolResultsProduced(m) => EngineStep::Persist(m),
        EngineToRuntimeEvent::SubagentMessageProduced(e) => EngineStep::PersistForAgent(e),
        EngineToRuntimeEvent::TurnStarted => EngineStep::Forward(RuntimeToUiEvent::TurnStarted),
        EngineToRuntimeEvent::TurnEnded => EngineStep::Forward(RuntimeToUiEvent::TurnEnded),
        EngineToRuntimeEvent::ThinkingDelta(t) => EngineStep::Forward(
            RuntimeToUiEvent::ThinkingDelta(t),
        ),
        EngineToRuntimeEvent::TextDelta(t) => EngineStep::Forward(RuntimeToUiEvent::TextDelta(t)),
        EngineToRuntimeEvent::ToolUse(u) => EngineStep::Forward(RuntimeToUiEvent::ToolUse(u)),
        EngineToRuntimeEvent::ToolResult(r) => EngineStep::Forward(RuntimeToUiEvent::ToolResult(r)),
        EngineToRuntimeEvent::ToolPauseRequested(r) => EngineStep::Forward(
            RuntimeToUiEvent::ToolPauseRequested(r),
        ),
        EngineToRuntimeEvent::SubagentStarted(e) => EngineStep::Forward(
            RuntimeToUiEvent::SubagentStarted(e),
        ),
        EngineToRuntimeEvent::SubagentToolUse(e) => EngineStep::Forward(
            RuntimeToUiEvent::SubagentToolUse(e),
        ),
        EngineToRuntimeEvent::SubagentToolResult(e) => EngineStep::Forward(
            RuntimeToUiEvent::SubagentToolResult(e),
        ),
        EngineToRuntimeEvent::SubagentFinished(e) => EngineStep::Forward(
            RuntimeToUiEvent::SubagentFinished(e),
        ),
        EngineToRuntimeEvent::Error(e) => EngineStep::Forward(RuntimeToUiEvent::Error(e)),
        EngineToRuntimeEvent::Warning(w) => EngineStep::Forward(RuntimeToUiEvent::Warning(w)),
    }
}

/// How a role is stored.
pub open spec fn role_name(role: Role) -> Seq<char> {
    match role {
        Role::User => "user"@,
        Role::Assistant => "assistant"@,
    }
}

pub fn msg_role(msg: &Message) -> (r: &'static str)
    ensures
        r@ == role_name(msg.role),
{
    match msg.role {
        Role::User => "user",
        Role::Assistant => "assistant",
    }
}

/// The role that is stored as `s`.
pub open spec fn role_named(s: Seq<char>) -> Option<Role> {
    if s == "user"@ {
        Some(Role::User)
    } else if s == "assistant"@ {
        Some(Role::Assistant)
    } else {
        None
    }
}

/// The role that is stored as `s`; rows with another role are passed over.
pub fn stored_role(s: &str) -> (r: Option<Role>)
    ensures
        r == role_named(s@),
{
    if text::same(s, "user") {
        Some(Role::User)
    } else if text::same(s, "assistant") {
        Some(Role::Assistant)
    } else {
        None
    }
}

/// The outcome of saving an agent: an error where its name is taken or it could not be written,
/// else a notice.
pub open spec fn save_told(
    name: Seq<char>,
    taken: bool,
    written: Result<String, String>,
    event: RuntimeToUiEvent,
) -> bool {
    if taken {
        event matches RuntimeToUiEvent::Error(m) && m@ == "agent '"@ + name + "' 已存在"@
    } else {
        match written {
            Ok(_) => event matches RuntimeToUiEvent::CommandNotice(m) && m@ == "agent '"@ + name
                + "' 已保存"@,
            Err(e) => event == RuntimeToUiEvent::Error(e),
        }
    }
}

/// What is told of saving the agent `name`, and whether the file it came from is to be deleted:
/// it is where the agent now stands in another.
pub fn agent_saved(
    name: &str,
    taken: bool,
    original_path: Option<String>,
    written: Result<String, String>,
) -> (r: (RuntimeToUiEvent, Option<String>))
    ensures
        save_told(name@, taken, written, r.0),
        r.1 == (if taken {
            None
        } else {
            match (original_path, written) {
                (Some(p), Ok(w)) => if p@ != w@ {
                    Some(p)
                } else {
                    None
                },
                _ => None,
            }
        }),
{
    if taken {
        let mut m = text::concat("agent '", name);
        m.push_str("' 已存在");
        return (RuntimeToUiEvent::Error(m), None);
    }
    match written {
        Err(e) => (RuntimeToUiEvent::Error(e), None),
        Ok(w) => {
            let mut m = text::concat("agent '", name);
            m.push_str("' 已保存");
            let old_file = match original_path {
                Some(p) => if text::same(p.as_str(), w.as_str()) {
                    None
                } else {
                    Some(p)
                },
                None => None,
            };
            (RuntimeToUiEvent::CommandNotice(m), old_file)
        },
    }
}

/// What is told of deleting an agent.
pub fn agent_deleted(deleted: Result<(), String>) -> (r: RuntimeToUiEvent)
    ensures
        match deleted {
            Ok(_) => r matches RuntimeToUiEvent::CommandNotice(m) && m@ == "agent 已删除"@,
            Err(e) => r == RuntimeToUiEvent::Error(e),
        },
{
    match deleted {
        Ok(_) => RuntimeToUiEvent::CommandNotice(text::copy("agent 已删除")),
        Err(e) => RuntimeToUiEvent::Error(e),
    }
}

/// While a query runs no request but stopping it, answering a tool or adding to it has any
/// effect.
pub proof fn law_running_query_is_left_alone(req: UiToRuntimeEvent, action: RuntimeAction)
    requires
        busy_action(req, action),
        !(req is CancelRun),
        !(req is ResolveToolPause),
        !(req is InterveneMessage),
    ensures
        action matches RuntimeAction::Send(RuntimeToUiEvent::Error(_)),
{
}

/// A choice is taken only while it is asked for, and then once.
pub proof fn law_choice_taken_once(
    req: UiToRuntimeEvent,
    pending: Option<PendingInteraction>,
    action: RuntimeAction,
    again: RuntimeAction,
)
    requires
        req is ModelSelected || req is SessionSelected,
        idle_action(req, pending, action),
        idle_action(req, pending_after(req, pending), again),
    ensures
        again == RuntimeAction::Nothing,
        pending is None ==> action == RuntimeAction::Nothing,
{
}

/// The messages of the conversation are kept as they come: every message of the engine is
/// stored and none of them goes to the user interface another way.
pub proof fn law_messages_are_kept(event: EngineToRuntimeEvent)
    ensures
        engine_step(event) is Persist <==> (event is UserMessageProduced || event is MessageProduced
            || event is ToolResultsProduced),
        engine_step(event) matches EngineStep::Forward(e) ==> !(e is UserMessageInjected),
{
}

} // verus!
