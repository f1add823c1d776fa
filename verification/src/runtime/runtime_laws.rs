//! What holds of every request, answer and choice that goes through the runtime.
use crate::command;
use crate::runtime::service::busy_action;
use crate::runtime::service::effect_applied;
use crate::runtime::service::engine_step;
use crate::runtime::service::idle_action;
use crate::runtime::service::is_agent_session;
use crate::runtime::service::is_new_session;
use crate::runtime::service::plain_messages;
use crate::runtime::service::profile_of;
use crate::runtime::service::profile_place;
use crate::runtime::service::role_name;
use crate::runtime::service::role_named;
use crate::runtime::service::same_display;
use crate::runtime::service::save_told;
use crate::runtime::service::session_entered;
use crate::runtime::service::switch_step;
use crate::runtime::service::title_of;
use crate::runtime::service::told_of_session;
use crate::runtime::service::with_profile;
use crate::runtime::service::written;
use crate::runtime::service::AgentRuntime;
use crate::runtime::service::EngineStep;
use crate::runtime::service::PendingInteraction;
use crate::runtime::service::RunStart;
use crate::runtime::service::RuntimeAction;
use crate::runtime::service::SwitchStep;
use crate::db::Session;
use crate::json;
use crate::text;
use crate::tools::permission;
use crate::tools::permission::PermissionPolicy;
use crate::tools::permission::PermissionPolicyDecision;
use crate::tools::permission::PermissionRequest;
use crate::tools::permission::ToolExecutionContext;
use crate::types::config;
use crate::types::config::ProviderProfile;
use crate::types::config::Settings;
use crate::types::config::ThinkingEffort;
use crate::types::display::DisplayMessage;
use crate::types::display::HistoryItem;
use crate::types::events::CommandEffect;
use crate::types::events::EngineToRuntimeEvent;
use crate::types::events::InteractionRequest;
use crate::types::events::PermissionPreview;
use crate::types::events::RuntimeToUiEvent;
use crate::types::events::SubagentSnapshot;
use crate::types::events::ToolPauseKind;
use crate::types::events::ToolPauseResponse;
use crate::types::events::UiToRuntimeEvent;
use crate::types::message::Message;
use crate::types::message::MessageView;
use crate::types::message::Role;
use vstd::prelude::*;

verus! {

/// The answer that reaches a waiting call is the answer that the user gave to it: the call runs
/// where the user approved it and is refused where the user did not, or gave it up.
pub proof fn law_answer_reaches_its_call(
    tool_use_id: String,
    response: ToolPauseResponse,
    tool_name: Seq<char>,
    action: RuntimeAction,
)
    requires
        busy_action(UiToRuntimeEvent::ResolveToolPause { tool_use_id, response }, action),
    ensures
        action matches RuntimeAction::ResolvePause { tool_use_id: to, response: given } && {
            &&& to == tool_use_id
            &&& given == response
            &&& permission::step_after(tool_name, given) is Run <==> response == (
            ToolPauseResponse::Permission { approved: true })
            &&& response == (ToolPauseResponse::Permission { approved: false }) ==> (
            permission::step_after(tool_name, given) matches permission::StepView::Refuse(r)
                && r.is_error && r.output == "Permission denied for tool: "@ + tool_name)
            &&& response == ToolPauseResponse::Cancelled ==> (permission::step_after(
                tool_name,
                given,
            ) matches permission::StepView::Refuse(r) && r.is_error && r.output
                == "Tool execution cancelled"@)
        },
{
}

/// The question that the user is asked is about the call that waits: it has its id, the name of
/// its tool, what it is about to do, and the agent that wants it.
pub proof fn law_question_is_about_its_call(
    ctx: ToolExecutionContext,
    pending: Seq<Seq<char>>,
    preview: PermissionPreview,
)
    requires
        !pending.contains(ctx.tool_use_id@),
    ensures
        permission::asked(ctx, false, pending, preview).0 matches PermissionRequest::Ask(q) && {
            &&& q.tool_use_id == ctx.tool_use_id
            &&& q.tool_name == ctx.tool_name
            &&& q.kind == ToolPauseKind::Permission(preview)
            &&& q.source_agent_label == ctx.agent_label
        },
        permission::asked(ctx, false, pending, preview).1.contains(ctx.tool_use_id@),
        forall|id: Seq<char>|
            id != ctx.tool_use_id@ ==> (#[trigger] permission::asked(
                ctx,
                false,
                pending,
                preview,
            ).1.contains(id) == pending.contains(id)),
{
    let after = permission::asked(ctx, false, pending, preview).1;
    assert(after[pending.len() as int] == ctx.tool_use_id@);
    assert forall|id: Seq<char>| id != ctx.tool_use_id@ implies (#[trigger] after.contains(id)
        == pending.contains(id)) by {
        if after.contains(id) {
            let k = choose|k: int| 0 <= k < after.len() && after[k] == id;
            assert(pending[k] == id);
        }
        if pending.contains(id) {
            let k = choose|k: int| 0 <= k < pending.len() && pending[k] == id;
            assert(after[k] == id);
        }
    }
}

/// Once a run is cancelled no call is asked about, and none runs for the lack of an answer.
pub proof fn law_cancelled_calls_do_not_run(
    ctx: ToolExecutionContext,
    pending: Seq<Seq<char>>,
    preview: PermissionPreview,
)
    ensures
        permission::asked(ctx, true, pending, preview) == (
            PermissionRequest::Answered(ToolPauseResponse::Cancelled),
            pending,
        ),
        !(permission::step_after(ctx.tool_name@, ToolPauseResponse::Cancelled) is Run),
{
}

/// By default only reading goes without asking; nothing is refused before the user was asked.
pub proof fn law_only_reading_goes_unasked(tool_name: Seq<char>, preview: PermissionPreview)
    ensures
        ({
            let d = permission::DefaultPermissionPolicy.decision(tool_name, preview);
            &&& permission::step_for(tool_name, d) is Run <==> tool_name == "read"@
            &&& tool_name != "read"@ ==> permission::step_for(tool_name, d) is Ask
        }),
{
}

/// What a request comes to while no query runs: a message is submitted as it was written, a
/// command line is run as it is read, and a running query is neither needed to stop one nor there
/// to be added to.
pub proof fn law_request_comes_to_its_action(
    req: UiToRuntimeEvent,
    pending: Option<PendingInteraction>,
    action: RuntimeAction,
)
    requires
        idle_action(req, pending, action),
    ensures
        req matches UiToRuntimeEvent::SendMessage(draft) ==> action == RuntimeAction::Submit(draft),
        req matches UiToRuntimeEvent::SendCommand(line) ==> (command::command_in(
            line@,
        ) matches Some(c) ==> (action matches RuntimeAction::RunCommand(p) && p.name@ == c.0
            && p.args@ == c.1)),
        req is CancelRun <==> action is Cancel,
        req is InterveneMessage ==> (action matches RuntimeAction::Send(e) && e is Error),
        req is ResolveToolPause ==> (action matches RuntimeAction::Send(e) && e is Error),
{
}

/// What is added to a running query is what the user wrote, and stopping it stops it.
pub proof fn law_running_query_is_reached(req: UiToRuntimeEvent, action: RuntimeAction)
    requires
        busy_action(req, action),
    ensures
        req matches UiToRuntimeEvent::InterveneMessage(draft) ==> action
            == RuntimeAction::Intervene(draft),
        req is CancelRun <==> action is Cancel,
        req is ResolveToolPause <==> action is ResolvePause,
{
}

/// A choice that the user was asked for is carried out as it was made, and no other choice is.
pub proof fn law_choice_is_carried_out(
    rt: AgentRuntime,
    asked: InteractionRequest,
    actions: Seq<RuntimeAction>,
    waiting: AgentRuntime,
    req: UiToRuntimeEvent,
    action: RuntimeAction,
)
    requires
        effect_applied(rt, CommandEffect::ShowInteraction(asked), actions, waiting),
        idle_action(req, waiting.pending_interaction, action),
    ensures
        actions == seq![RuntimeAction::Send(RuntimeToUiEvent::InteractionRequest(asked))],
        req matches UiToRuntimeEvent::ModelSelected { provider, model, thinking_effort } ==> (
        action == (if asked is ModelSelection {
            RuntimeAction::SwitchModel { provider, model, thinking_effort }
        } else {
            RuntimeAction::Nothing
        })),
        req matches UiToRuntimeEvent::SessionSelected { session_id } ==> (action == (if asked is
            SessionSelection {
            RuntimeAction::SwitchSession { session_id }
        } else {
            RuntimeAction::Nothing
        })),
        req is AgentSaveRequested || req is AgentDeleteRequested || req is AgentGenerateRequested
            ==> action is Nothing,
{
}

/// What the user changes on the page for the agents is carried out as it was asked for.
pub proof fn law_agent_changes_are_carried_out(
    rt: AgentRuntime,
    management: crate::types::events::AgentManagement,
    actions: Seq<RuntimeAction>,
    waiting: AgentRuntime,
    req: UiToRuntimeEvent,
    action: RuntimeAction,
)
    requires
        effect_applied(rt, CommandEffect::ManageAgents(management), actions, waiting),
        idle_action(req, waiting.pending_interaction, action),
    ensures
        actions == seq![RuntimeAction::ShowAgents(management)],
        req matches UiToRuntimeEvent::AgentSaveRequested { source_kind, original_path, draft }
            ==> action == (RuntimeAction::SaveAgent { source_kind, original_path, draft }),
        req matches UiToRuntimeEvent::AgentDeleteRequested { path } ==> action == (
        RuntimeAction::DeleteAgent { path }),
        req matches UiToRuntimeEvent::AgentGenerateRequested {
            source_kind,
            description,
            tools,
            disallow_tools,
            model,
        } ==> action == (RuntimeAction::GenerateAgent {
            source_kind,
            description,
            tools,
            disallow_tools,
            wanted: model,
        }),
{
}

/// A message that a command sends in the user's name is the last of the conversation, is shown,
/// and is answered.
pub proof fn law_injected_message_is_answered(
    rt: AgentRuntime,
    message: Message,
    actions: Seq<RuntimeAction>,
    post: AgentRuntime,
)
    requires
        effect_applied(rt, CommandEffect::InjectUserMessage(message), actions, post),
    ensures
        post.messages@ == rt.messages@.push(message),
        post.session_id == rt.session_id,
        actions.len() == 2,
        actions[0] matches RuntimeAction::Send(
            RuntimeToUiEvent::UserMessageInjected(HistoryItem::Message(m)),
        ) && m@ == message@,
        actions[1] == RuntimeAction::Start(RunStart::UserMessage),
{
}

/// A query that a command makes gives the model one message and shows the user another.
pub proof fn law_injected_query_is_answered(
    rt: AgentRuntime,
    llm_message: Message,
    display_message: DisplayMessage,
    actions: Seq<RuntimeAction>,
    post: AgentRuntime,
)
    requires
        effect_applied(
            rt,
            CommandEffect::InjectUserQuery { llm_message, display_message },
            actions,
            post,
        ),
    ensures
        post.messages@ == rt.messages@.push(llm_message),
        actions.len() == 2,
        actions[0] matches RuntimeAction::Send(
            RuntimeToUiEvent::UserMessageInjected(HistoryItem::Display(d)),
        ) && d.text == display_message.text && d.role == display_message.role && d.mentions@
            == display_message.mentions@ && d.images@ == display_message.images@,
        actions[1] matches RuntimeAction::Start(RunStart::SplitDisplayMessage { display_message: d })
            && d == display_message,
{
}

/// A notice is shown as it is, an event is passed on as it is, and going on starts a run without
/// a new message; none of these changes the conversation.
pub proof fn law_plain_effects(
    rt: AgentRuntime,
    effect: CommandEffect,
    actions: Seq<RuntimeAction>,
    post: AgentRuntime,
)
    requires
        effect_applied(rt, effect, actions, post),
    ensures
        effect matches CommandEffect::Notice(t) ==> post == rt && actions == seq![
            RuntimeAction::Send(RuntimeToUiEvent::CommandNotice(t)),
        ],
        effect matches CommandEffect::Emit(e) ==> post == rt && actions == seq![
            RuntimeAction::Send(e),
        ],
        effect is ContinueQuery ==> post == rt && actions == seq![
            RuntimeAction::Start(RunStart::Continue),
        ],
{
}

/// What the model says while it answers reaches the user as what it is: text as text, thinking as
/// thinking, calls as calls and results as results, and errors as errors.
pub proof fn law_user_sees_what_the_engine_tells(event: EngineToRuntimeEvent)
    ensures
        event matches EngineToRuntimeEvent::TextDelta(t) ==> engine_step(event)
            == EngineStep::Forward(RuntimeToUiEvent::TextDelta(t)),
        event matches EngineToRuntimeEvent::ThinkingDelta(t) ==> engine_step(event)
            == EngineStep::Forward(RuntimeToUiEvent::ThinkingDelta(t)),
        event matches EngineToRuntimeEvent::ToolUse(u) ==> engine_step(event)
            == EngineStep::Forward(RuntimeToUiEvent::ToolUse(u)),
        event matches EngineToRuntimeEvent::ToolResult(r) ==> engine_step(event)
            == EngineStep::Forward(RuntimeToUiEvent::ToolResult(r)),
        event matches EngineToRuntimeEvent::ToolPauseRequested(q) ==> engine_step(event)
            == EngineStep::Forward(RuntimeToUiEvent::ToolPauseRequested(q)),
        event matches EngineToRuntimeEvent::SubagentStarted(e) ==> engine_step(event)
            == EngineStep::Forward(RuntimeToUiEvent::SubagentStarted(e)),
        event matches EngineToRuntimeEvent::SubagentToolUse(e) ==> engine_step(event)
            == EngineStep::Forward(RuntimeToUiEvent::SubagentToolUse(e)),
        event matches EngineToRuntimeEvent::SubagentToolResult(e) ==> engine_step(event)
            == EngineStep::Forward(RuntimeToUiEvent::SubagentToolResult(e)),
        event matches EngineToRuntimeEvent::SubagentFinished(e) ==> engine_step(event)
            == EngineStep::Forward(RuntimeToUiEvent::SubagentFinished(e)),
        event matches EngineToRuntimeEvent::Error(e) ==> engine_step(event) == EngineStep::Forward(
            RuntimeToUiEvent::Error(e),
        ),
        event matches EngineToRuntimeEvent::Warning(w) ==> engine_step(event)
            == EngineStep::Forward(RuntimeToUiEvent::Warning(w)),
        event is TurnStarted ==> engine_step(event) == EngineStep::Forward(
            RuntimeToUiEvent::TurnStarted,
        ),
        event is TurnEnded ==> engine_step(event) == EngineStep::Forward(
            RuntimeToUiEvent::TurnEnded,
        ),
{
}

/// Every message that is added to the conversation is stored as it is, those of agents with the
/// session of the agent.
pub proof fn law_stored_message_is_the_message(event: EngineToRuntimeEvent)
    ensures
        event matches EngineToRuntimeEvent::UserMessageProduced(m) ==> engine_step(event)
            == EngineStep::Persist(m),
        event matches EngineToRuntimeEvent::MessageProduced(m) ==> engine_step(event)
            == EngineStep::Persist(m),
        event matches EngineToRuntimeEvent::ToolResultsProduced(m) ==> engine_step(event)
            == EngineStep::Persist(m),
        event matches EngineToRuntimeEvent::SubagentMessageProduced(e) ==> engine_step(event)
            == EngineStep::PersistForAgent(e),
{
}

proof fn lemma_profile_place(providers: Seq<(String, ProviderProfile)>, provider: Seq<char>, n: int)
    requires
        0 <= n <= providers.len(),
    ensures
        match profile_place(providers, provider, n) {
            Some(i) => 0 <= i < n && providers[i].0@ == provider,
            None => forall|i: int| 0 <= i < n ==> (#[trigger] providers[i]).0@ != provider,
        },
    decreases n,
{
    if n > 0 && providers[n - 1].0@ != provider {
        lemma_profile_place(providers, provider, n - 1);
    }
}

/// The profile of a provider is one that is listed under its name, and there is none exactly
/// where none is listed.
pub proof fn law_profile_is_the_providers(
    providers: Seq<(String, ProviderProfile)>,
    provider: Seq<char>,
)
    ensures
        profile_of(providers, provider) matches Some(p) ==> exists|i: int|
            0 <= i < providers.len() && (#[trigger] providers[i]).0@ == provider && providers[i].1
                == p,
        profile_of(providers, provider) is None ==> forall|i: int|
            0 <= i < providers.len() ==> (#[trigger] providers[i]).0@ != provider,
{
    lemma_profile_place(providers, provider, providers.len() as int);
    match profile_place(providers, provider, providers.len() as int) {
        Some(i) => {
            assert(providers[i].0@ == provider);
        },
        None => {},
    }
}

/// Going over to a model takes the key, the address and the interface of its provider, and leaves
/// all other settings alone.
pub proof fn law_model_comes_with_its_provider(
    s: Settings,
    provider: String,
    model: String,
    p: ProviderProfile,
)
    ensures
        ({
            let after = with_profile(s, provider, model, p);
            &&& after.active_provider == provider
            &&& after.model == model
            &&& after.api_key == p.api_key
            &&& after.base_url == p.base_url
            &&& after.endpoint == p.endpoint
            &&& after.providers == s.providers
            &&& after.cwd == s.cwd
            &&& after.system_prompt == s.system_prompt
            &&& after.max_turns == s.max_turns
            &&& after.thinking_effort == s.thinking_effort
        }),
{
}

/// A change of the model is stored with the session where there is one, and else with the
/// project; it is told with the provider, the model and the effort that were chosen.
pub proof fn law_model_change_is_stored(
    session_id: Option<String>,
    provider: String,
    model: String,
    effort: Option<ThinkingEffort>,
    step: SwitchStep,
)
    requires
        switch_step(session_id, provider, model, effort, step),
    ensures
        session_id is Some <==> step is StoreInSession,
        session_id is None <==> step is StoreInProject,
        step matches SwitchStep::StoreInSession { session_id: id, thinking_effort, event } ==> {
            &&& session_id == Some(id)
            &&& event == (RuntimeToUiEvent::ModelChanged {
                provider,
                model,
                thinking_effort: effort,
            })
            &&& effort is None <==> thinking_effort is None
            &&& effort matches Some(e) ==> thinking_effort->0@ == config::effort_name(e)
        },
        step matches SwitchStep::StoreInProject { event } ==> event == (
        RuntimeToUiEvent::ModelChanged { provider, model, thinking_effort: effort }),
{
}

/// An entered session is the one that was asked for, with its directory; it brings its model and
/// its effort with it, and leaves the conversation alone.
pub proof fn law_entered_session_is_the_one(
    pre: AgentRuntime,
    session_id: String,
    dir: String,
    found: Option<Session>,
    post: AgentRuntime,
)
    requires
        session_entered(pre, session_id, dir, found, post),
    ensures
        post.session_id == Some(session_id),
        post.messages == pre.messages,
        post.pending_interaction == pre.pending_interaction,
        found is Some ==> post.session_dir == Some(dir),
        found matches Some(s) ==> ({
            let profile = profile_of(pre.settings.providers@, s.provider@);
            &&& profile is Some ==> post.settings.model@ == s.model@
                && post.settings.active_provider@ == s.provider@
            &&& (profile is Some && s.provider@ != pre.settings.active_provider@)
                ==> post.settings.api_key == profile->0.api_key && post.settings.base_url
                == profile->0.base_url && post.settings.endpoint == profile->0.endpoint
            &&& profile is None ==> post.settings.model == pre.settings.model
                && post.settings.active_provider == pre.settings.active_provider
            &&& s.thinking_effort is None ==> post.settings.thinking_effort is None
            &&& post.settings.thinking_effort matches Some(e) ==> (s.thinking_effort matches Some(
                t,
            ) && t@ == config::effort_name(e))
        }),
        found is None ==> post.settings == pre.settings && post.session_dir == pre.session_dir,
{
}

/// What is told of an entered session is its title, its model, and its history with its agents,
/// in this order.
pub proof fn law_entered_session_is_shown(
    rt: AgentRuntime,
    session: Session,
    shown: Vec<HistoryItem>,
    loaded: Result<Vec<Message>, String>,
    subagents: Vec<SubagentSnapshot>,
    events: Seq<RuntimeToUiEvent>,
)
    requires
        told_of_session(rt, session, shown, loaded, subagents, events),
    ensures
        events.len() >= 3,
        events.last() == (RuntimeToUiEvent::SessionChanged {
            session_id: Some(session.id),
            messages: shown,
            subagents,
        }),
        events[events.len() - 2] matches RuntimeToUiEvent::ModelChanged {
            provider,
            model,
            thinking_effort,
        } && provider == session.provider && model == session.model && thinking_effort
            == rt.settings.thinking_effort,
        events[events.len() - 3] == (RuntimeToUiEvent::SessionTitleChanged {
            title: session.title,
        }),
        loaded is Err <==> events[0] is Warning,
        loaded is Ok ==> events.len() == 3,
{
}

/// Where the history for the model is lost, every plain message that is shown takes its place, in
/// order, and nothing that was only for the user does.
pub proof fn law_shown_messages_stand_in(items: Seq<HistoryItem>, item: HistoryItem)
    ensures
        plain_messages(Seq::empty()) == Seq::<MessageView>::empty(),
        plain_messages(items.push(item)) == (match item {
            HistoryItem::Message(m) => plain_messages(items).push(m@),
            HistoryItem::Display(_) => plain_messages(items),
        }),
{
    assert(items.push(item).drop_last() =~= items);
}

/// The title of a session is what the user first wrote, without white space at its ends, whole
/// where it is short and else its first characters; blank text gives none.
pub proof fn law_title_is_what_was_written(t: Seq<char>)
    ensures
        title_of(None) is None,
        title_of(Some(t)) is None <==> text::trimmed(t).len() == 0,
        title_of(Some(t)) matches Some(title) ==> {
            &&& 0 < title.len() <= 300
            &&& title == text::trimmed(t).take(title.len() as int)
            &&& text::trimmed(t).len() <= 300 ==> title == text::trimmed(t)
            &&& text::trimmed(t).len() > 300 ==> title.len() == 300
        },
{
    let s = text::trimmed(t);
    assert(s.take(s.len() as int) =~= s);
}

/// What the user first wrote is what was shown of it, where that is something else than the
/// message itself.
pub proof fn law_shown_text_is_what_was_written(d: DisplayMessage, m: MessageView, t: Seq<char>)
    ensures
        written(Some(d), Some(m)) == Some(d.text@),
        m.content.len() > 0 && m.content[0] == crate::types::message::BlockView::Text(t)
            ==> written(None, Some(m)) == Some(t),
        written(None, None) is None,
{
}

/// A new session is a main one, of the project, with the model that is set and no messages yet.
pub proof fn law_new_session(
    s: Session,
    id: Seq<char>,
    settings: Settings,
    title: Option<Seq<char>>,
    now: i64,
)
    requires
        is_new_session(s, id, settings, title, now),
    ensures
        s.id@ == id,
        s.session_type@ == "main"@,
        s.parent_session_id is None,
        s.provider == settings.active_provider,
        s.model == settings.model,
        json::opt_view(s.title) == title,
        s.message_count == 0,
        s.created_at == now,
        s.updated_at == now,
        s.thinking_effort is Some <==> settings.thinking_effort is Some,
{
}

/// The session of an agent belongs to the session and to the call that started it.
pub proof fn law_agent_session(
    s: Session,
    id: Seq<char>,
    parent: Seq<char>,
    call: Seq<char>,
    label: Seq<char>,
    settings: Settings,
    title: Option<String>,
    now: i64,
)
    requires
        is_agent_session(s, id, parent, call, label, settings, title, now),
    ensures
        s.id@ == id,
        s.parent_session_id matches Some(p) && p@ == parent,
        s.spawn_tool_use_id matches Some(c) && c@ == call,
        s.agent_label matches Some(l) && l@ == label,
        s.session_type@ == "subagent"@,
        s.title == title,
        s.model == settings.model,
        s.provider == settings.active_provider,
{
}

/// A role is read back as it was stored, and nothing else is taken for a role.
pub proof fn law_role_is_read_back(role: Role, s: Seq<char>)
    ensures
        role_named(role_name(role)) == Some(role),
        role_named(s) matches Some(r) ==> role_name(r) == s,
{
    reveal_strlit("user");
    reveal_strlit("assistant");
    assert("user"@.len() == 4 && "assistant"@.len() == 9);
}

/// An agent is said to be saved exactly where it was written and its name was free.
pub proof fn law_saving_is_told_truly(
    name: Seq<char>,
    taken: bool,
    written: Result<String, String>,
    event: RuntimeToUiEvent,
)
    requires
        save_told(name, taken, written, event),
    ensures
        event is CommandNotice <==> !taken && written is Ok,
        event is Error <==> taken || written is Err,
        !taken ==> (written matches Err(e) ==> event == RuntimeToUiEvent::Error(e)),
{
}

} // verus!
