//! Running an agent on a task of its own.
use crate::api::FinishReason;
use crate::api::FinishView;
use crate::json;
use crate::json::Json;
use crate::json::JsonView;
use crate::subagents::registry;
use crate::subagents::registry::AgentRegistry;
use crate::subagents::registry::RegistryView;
use crate::subagents::AgentSpec;
use crate::subagents::AgentView;
use crate::text;
use crate::tools;
use crate::tools::ResultView;
use crate::tools::ToolResult;
use crate::types::events::EngineToRuntimeEvent;
use crate::types::events::SubagentMessageEvent;
use crate::types::events::SubagentStatus;
use crate::types::events::SubagentToolResultEvent;
use crate::types::events::SubagentToolUseEvent;
use crate::types::message;
use crate::types::message::BlockView;
use crate::types::message::ContentBlock;
use crate::types::message::Message;
use crate::types::message::MessageView;
use crate::types::message::Role;
use vstd::prelude::*;

verus! {

#[derive(Debug, PartialEq, Eq)]
pub struct SubagentRunRequest {
    pub name: String,
    pub prompt: String,
    pub title: Option<String>,
}

#[derive(Debug)]
pub struct RuntimeSubagentRunner;

impl Default for RuntimeSubagentRunner {
    fn default() -> (r: Self)
        ensures
            r == RuntimeSubagentRunner,
    {
        RuntimeSubagentRunner
    }
}

/// The warnings that go with an unknown name: each on a line of its own.
pub open spec fn warnings(diagnostics: Seq<Seq<char>>) -> Seq<char>
    decreases diagnostics.len(),
{
    if diagnostics.len() == 0 {
        Seq::empty()
    } else {
        warnings(diagnostics.drop_last()) + "\n- "@ + diagnostics.last()
    }
}

/// What is said where no agent goes by `name`; `available` are the names there are, in order.
pub open spec fn unknown_agent(
    name: Seq<char>,
    available: Seq<Seq<char>>,
    diagnostics: Seq<Seq<char>>,
) -> Seq<char> {
    let m = "unknown subagent '"@ + name + "'. Available subagents: "@ + text::joined(
        available,
        ", "@,
    );
    if diagnostics.len() == 0 {
        m
    } else {
        m + "\n\nSubagent load warnings:"@ + warnings(diagnostics)
    }
}

/// Whether `message` is what is said of the unknown agent `name`.
pub open spec fn says_unknown(r: RegistryView, name: Seq<char>, message: Seq<char>) -> bool {
    exists|available: Seq<Seq<char>>|
        #![trigger crate::order::ordered(available)]
        crate::order::ordered(available) && available.to_multiset() == registry::names(
            r.agents,
        ).to_multiset() && message == unknown_agent(name, available, r.diagnostics)
}

fn add_warnings(message: &mut String, registry: &AgentRegistry)
    ensures
        final(message)@ == old(message)@ + warnings(registry@.diagnostics),
{
    let ghost before = message@;
    let ghost all = registry@.diagnostics;
    let mut i: usize = 0;
    assert(all.take(0) =~= Seq::empty());
    assert(before + Seq::<char>::empty() =~= before);
    while i < registry.diagnostics.len()
        invariant
            i <= registry.diagnostics@.len(),
            all == registry::diagnostics_view(registry.diagnostics@),
            message@ == before + warnings(all.take(i as int)),
        decreases registry.diagnostics@.len() - i,
    {
        assert(all.take(i + 1).drop_last() =~= all.take(i as int));
        assert(all.take(i + 1).last() == registry.diagnostics@[i as int]@);
        message.push_str("\n- ");
        message.push_str(registry.diagnostics[i].message());
        assert(message@ =~= before + warnings(all.take(i + 1)));
        i = i + 1;
    }
    assert(all.take(all.len() as int) =~= all);
}

impl RuntimeSubagentRunner {
    /// The agent that a request is for, or why it cannot run.
    pub fn run_subagent<'a>(
        &self,
        request: &SubagentRunRequest,
        has_settings: bool,
        registry: &'a AgentRegistry,
    ) -> (r: Result<&'a AgentSpec, ToolResult>)
        ensures
            match r {
                Ok(a) => has_settings && registry::agent_named(
                    registry@.agents,
                    text::trimmed(request.name@),
                ) == Some(a@),
                Err(e) => if !has_settings {
                    e@ == tools::failed("subagent requires query settings"@)
                } else {
                    registry::agent_named(registry@.agents, text::trimmed(request.name@)) is None
                        && e@.is_error && e@.metadata is None && says_unknown(
                        registry@,
                        text::trimmed(request.name@),
                        e@.output,
                    )
                },
            },
    {
        if !has_settings {
            return Err(ToolResult::error(text::copy("subagent requires query settings")));
        }
        let name = text::trim(request.name.as_str());
        match registry.get(name.as_str()) {
            Some(a) => Ok(a),
            None => {
                let available = registry.sorted_names();
                let mut m = text::concat("unknown subagent '", name.as_str());
                m.push_str("'. Available subagents: ");
                m.push_str(text::join(&available, ", ").as_str());
                if registry.diagnostics.len() > 0 {
                    m.push_str("\n\nSubagent load warnings:");
                    add_warnings(&mut m, registry);
                }
                assert(m@ =~= unknown_agent(
                    name@,
                    text::views(available@),
                    registry@.diagnostics,
                ));
                assert(crate::order::ordered(text::views(available@)));
                Err(ToolResult::error(m))
            },
        }
    }
}

/// How the run of an agent ended.
pub open spec fn status_of(cancelled: bool, finish: FinishView) -> SubagentStatus {
    if cancelled {
        SubagentStatus::Cancelled
    } else if finish is Error {
        SubagentStatus::Failed
    } else {
        SubagentStatus::Completed
    }
}

pub fn final_status(cancelled: bool, finish: &FinishReason) -> (r: SubagentStatus)
    ensures
        r == status_of(cancelled, finish@),
{
    if cancelled {
        SubagentStatus::Cancelled
    } else {
        match finish {
            FinishReason::Error(_) => SubagentStatus::Failed,
            _ => SubagentStatus::Completed,
        }
    }
}

pub open spec fn status_name(status: SubagentStatus) -> Seq<char> {
    match status {
        SubagentStatus::Running => "running"@,
        SubagentStatus::Completed => "completed"@,
        SubagentStatus::Failed => "failed"@,
        SubagentStatus::Cancelled => "cancelled"@,
    }
}

fn status_text(status: SubagentStatus) -> (r: &'static str)
    ensures
        r@ == status_name(status),
{
    match status {
        SubagentStatus::Running => "running",
        SubagentStatus::Completed => "completed",
        SubagentStatus::Failed => "failed",
        SubagentStatus::Cancelled => "cancelled",
    }
}

/// What the agent that asked is told of the run.
pub open spec fn payload_view(
    session_id: Seq<char>,
    agent_label: Seq<char>,
    status: SubagentStatus,
    summary: Seq<char>,
    finish: FinishView,
) -> JsonView {
    JsonView::Object(
        seq![
            ("session_id"@, JsonView::Str(session_id)),
            ("agent_label"@, JsonView::Str(agent_label)),
            ("status"@, JsonView::Str(status_name(status))),
            ("summary"@, JsonView::Str(summary)),
            (
                "error"@,
                match finish {
                    FinishView::Error(e) => JsonView::Str(e),
                    _ => JsonView::Null,
                },
            ),
        ],
    )
}

pub fn payload(
    session_id: &str,
    agent_label: &str,
    status: SubagentStatus,
    summary: &str,
    finish: &FinishReason,
) -> (r: Json)
    ensures
        r@ == payload_view(session_id@, agent_label@, status, summary@, finish@),
{
    let mut e: Vec<(String, Json)> = Vec::new();
    proof {
        json::lemma_empty_views();
    }
    json::put(&mut e, "session_id", json::str_value(session_id));
    json::put(&mut e, "agent_label", json::str_value(agent_label));
    json::put(&mut e, "status", json::str_value(status_text(status)));
    json::put(&mut e, "summary", json::str_value(summary));
    let error = match finish {
        FinishReason::Error(m) => json::str_value(m.as_str()),
        _ => Json::Null,
    };
    json::put(&mut e, "error", error);
    assert(json::entries_view(e@) =~= payload_view(
        session_id@,
        agent_label@,
        status,
        summary@,
        finish@,
    )->Object_0);
    json::object(e)
}

/// The result of a run, from its messages and how it ended.
pub open spec fn run_result(
    session_id: Seq<char>,
    agent_label: Seq<char>,
    cancelled: bool,
    messages: Seq<MessageView>,
    finish: FinishView,
) -> ResultView {
    let status = status_of(cancelled, finish);
    ResultView {
        output: json::text_of_json(
            payload_view(session_id, agent_label, status, final_text(messages), finish),
        ),
        is_error: status != SubagentStatus::Completed,
        metadata: None,
    }
}

/// What the tool that ran the agent gives back.
pub fn finish_run(
    session_id: &str,
    agent_label: &str,
    cancelled: bool,
    messages: &Vec<Message>,
    finish: &FinishReason,
) -> (r: ToolResult)
    ensures
        r@ == run_result(
            session_id@,
            agent_label@,
            cancelled,
            message::messages_view(messages@),
            finish@,
        ),
{
    let status = final_status(cancelled, finish);
    let summary = extract_final_text(messages);
    let value = payload(session_id, agent_label, status, summary.as_str(), finish);
    let out = json::print_json(&value);
    match status {
        SubagentStatus::Failed => ToolResult::error(out),
        SubagentStatus::Cancelled => ToolResult::error(out),
        _ => ToolResult::ok(out),
    }
}

/// What the agent that asked is told of an event of the run; nothing of the finer ones.
pub open spec fn bridged(event: EngineToRuntimeEvent, session_id: String) -> Option<
    EngineToRuntimeEvent,
> {
    match event {
        EngineToRuntimeEvent::UserMessageProduced(message)
        | EngineToRuntimeEvent::MessageProduced(message)
        | EngineToRuntimeEvent::ToolResultsProduced(message) => Some(
            EngineToRuntimeEvent::SubagentMessageProduced(
                SubagentMessageEvent { session_id, message },
            ),
        ),
        EngineToRuntimeEvent::ToolUse(tool_use) => Some(
            EngineToRuntimeEvent::SubagentToolUse(SubagentToolUseEvent { session_id, tool_use }),
        ),
        EngineToRuntimeEvent::ToolResult(tool_result) => Some(
            EngineToRuntimeEvent::SubagentToolResult(
                SubagentToolResultEvent { session_id, tool_result },
            ),
        ),
        EngineToRuntimeEvent::ToolPauseRequested(_) => Some(event),
        EngineToRuntimeEvent::Error(_) => Some(event),
        EngineToRuntimeEvent::Warning(_) => Some(event),
        _ => None,
    }
}

pub fn bridge_event(event: EngineToRuntimeEvent, session_id: &String) -> (r: Option<
    EngineToRuntimeEvent,
>)
    ensures
        r == bridged(event, *session_id),
{
    match event {
        EngineToRuntimeEvent::UserMessageProduced(message)
        | EngineToRuntimeEvent::MessageProduced(message)
        | EngineToRuntimeEvent::ToolResultsProduced(message) => Some(
            EngineToRuntimeEvent::SubagentMessageProduced(
                SubagentMessageEvent { session_id: session_id.clone(), message },
            ),
        ),
        EngineToRuntimeEvent::ToolUse(tool_use) => Some(
            EngineToRuntimeEvent::SubagentToolUse(
                SubagentToolUseEvent { session_id: session_id.clone(), tool_use },
            ),
        ),
        EngineToRuntimeEvent::ToolResult(tool_result) => Some(
            EngineToRuntimeEvent::SubagentToolResult(
                SubagentToolResultEvent { session_id: session_id.clone(), tool_result },
            ),
        ),
        EngineToRuntimeEvent::ToolPauseRequested(req) => Some(
            EngineToRuntimeEvent::ToolPauseRequested(req),
        ),
        EngineToRuntimeEvent::Error(e) => Some(EngineToRuntimeEvent::Error(e)),
        EngineToRuntimeEvent::Warning(w) => Some(EngineToRuntimeEvent::Warning(w)),
        _ => None,
    }
}

/// What an agent is told before its task; `context` describes the project.
pub open spec fn system_prompt(context: Seq<char>, spec: AgentView) -> Seq<char> {
    "You are running as an isolated subagent for Omini.\n\n"@ + context
        + "\n\n<subagent_instructions>\n"@
        + "Return a concise final result for the parent agent. Do not try to spawn subagents.\n\n"@
        + "Agent name: "@ + spec.name + "\nDescription: "@ + spec.description + "\n\n"@
        + spec.instructions + "\n</subagent_instructions>"@
}

pub fn subagent_system_prompt(context: &str, spec: &AgentSpec) -> (r: String)
    ensures
        r@ == system_prompt(context@, spec@),
{
    let mut p = text::copy("You are running as an isolated subagent for Omini.\n\n");
    p.push_str(context);
    p.push_str("\n\n<subagent_instructions>\n");
    p.push_str(
        "Return a concise final result for the parent agent. Do not try to spawn subagents.\n\n",
    );
    p.push_str("Agent name: ");
    p.push_str(spec.name.as_str());
    p.push_str("\nDescription: ");
    p.push_str(spec.description.as_str());
    p.push_str("\n\n");
    p.push_str(spec.instructions.as_str());
    p.push_str("\n</subagent_instructions>");
    p
}

/// The trimmed texts among the blocks, without the empty ones.
pub open spec fn texts_in(blocks: Seq<BlockView>) -> Seq<Seq<char>>
    decreases blocks.len(),
{
    if blocks.len() == 0 {
        Seq::empty()
    } else {
        let done = texts_in(blocks.drop_last());
        match blocks.last() {
            BlockView::Text(t) => if text::trimmed(t).len() == 0 {
                done
            } else {
                done.push(text::trimmed(t))
            },
            _ => done,
        }
    }
}

/// What a run has to say in the end: the texts of its last message, where that is the model's.
pub open spec fn final_text(messages: Seq<MessageView>) -> Seq<char> {
    if messages.len() == 0 || messages.last().role != Role::Assistant {
        "(no final text)"@
    } else {
        let t = text::joined(texts_in(messages.last().content), "\n"@);
        if text::trimmed(t).len() == 0 {
            "(no final text)"@
        } else {
            t
        }
    }
}

fn block_texts(content: &Vec<ContentBlock>) -> (r: Vec<String>)
    ensures
        text::views(r@) == texts_in(message::blocks_view(content@)),
{
    broadcast use text::lemma_views_push;

    let ghost all = message::blocks_view(content@);
    let mut out: Vec<String> = Vec::new();
    let mut i: usize = 0;
    assert(text::views(out@) =~= Seq::empty());
    while i < content.len()
        invariant
            i <= content@.len(),
            all == message::blocks_view(content@),
            text::views(out@) == texts_in(all.take(i as int)),
        decreases content@.len() - i,
    {
        broadcast use text::lemma_views_push;

        assert(all.take(i + 1).drop_last() =~= all.take(i as int));
        assert(all.take(i + 1).last() == content@[i as int]@);
        match &content[i] {
            ContentBlock::Text(b) => {
                let t = text::trim(b.text.as_str());
                if text::char_count(t.as_str()) > 0 {
                    out.push(t);
                }
            },
            _ => {},
        }
        i = i + 1;
    }
    assert(all.take(all.len() as int) =~= all);
    out
}

pub fn extract_final_text(messages: &Vec<Message>) -> (r: String)
    ensures
        r@ == final_text(message::messages_view(messages@)),
{
    let n: usize = messages.len();
    if n == 0 {
        return text::copy("(no final text)");
    }
    assert(message::messages_view(messages@).last() == messages@[n - 1]@);
    match messages[n - 1].role {
        Role::User => text::copy("(no final text)"),
        Role::Assistant => {
            let texts = block_texts(&messages[n - 1].content);
            let t = text::join(&texts, "\n");
            let bare = text::trim(t.as_str());
            if text::char_count(bare.as_str()) == 0 {
                text::copy("(no final text)")
            } else {
                t
            }
        },
    }
}

/// The final text depends on the last message alone.
pub proof fn law_only_last_message_counts(
    before: Seq<MessageView>,
    other: Seq<MessageView>,
    last: MessageView,
)
    ensures
        final_text(before.push(last)) == final_text(other.push(last)),
        last.role == Role::User ==> final_text(before.push(last)) == "(no final text)"@,
{
    assert(before.push(last).last() == last);
    assert(other.push(last).last() == last);
}

} // verus!
