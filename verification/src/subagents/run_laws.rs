//! What is told of the run of an agent is what happened in it.
use crate::api::request_laws::lemma_lookup_push;
use crate::api::FinishView;
use crate::json;
use crate::json::JsonView;
use crate::prompt_laws::holds;
use crate::prompt_laws::lemma_holds;
use crate::subagents::runner;
use crate::subagents::AgentView;
use crate::text;
use crate::text::joined;
use crate::text::trimmed;
use crate::text::white;
use crate::text_laws;
use crate::types::events::EngineToRuntimeEvent;
use crate::types::events::SubagentMessageEvent;
use crate::types::events::SubagentStatus;
use crate::types::events::SubagentToolResultEvent;
use crate::types::events::SubagentToolUseEvent;
use crate::types::message::BlockView;
use crate::types::message::Message;
use crate::types::message::MessageView;
use crate::types::message::Role;
use crate::types::message::ToolResultBlock;
use crate::types::message::ToolUseBlock;
use vstd::prelude::*;

verus! {

/// A run that was cancelled is told as that, one that ended in an error as failed, with the error,
/// and any other as completed; only the last is no error.
pub proof fn law_run_is_told_truly(
    session_id: Seq<char>,
    agent_label: Seq<char>,
    cancelled: bool,
    messages: Seq<MessageView>,
    finish: FinishView,
)
    ensures
        ({
            let status = if cancelled {
                "cancelled"@
            } else if finish is Error {
                "failed"@
            } else {
                "completed"@
            };
            let r = runner::run_result(session_id, agent_label, cancelled, messages, finish);
            let said = runner::payload_view(
                session_id,
                agent_label,
                runner::status_of(cancelled, finish),
                runner::final_text(messages),
                finish,
            );
            &&& r.output == json::text_of_json(said)
            &&& r.is_error <==> cancelled || finish is Error
            &&& said.at("session_id"@) == JsonView::Str(session_id)
            &&& said.at("agent_label"@) == JsonView::Str(agent_label)
            &&& said.at("status"@) == JsonView::Str(status)
            &&& said.at("summary"@) == JsonView::Str(runner::final_text(messages))
            &&& finish matches FinishView::Error(e) ==> said.at("error"@) == JsonView::Str(e)
            &&& !(finish is Error) ==> said.at("error"@) == JsonView::Null
        }),
{
    reveal_strlit("session_id");
    reveal_strlit("agent_label");
    reveal_strlit("status");
    reveal_strlit("summary");
    reveal_strlit("error");
    assert("session_id"@.len() == 10 && "agent_label"@.len() == 11 && "status"@.len() == 6);
    assert("summary"@.len() == 7 && "error"@.len() == 5);
    let status = runner::status_of(cancelled, finish);
    let summary = runner::final_text(messages);
    let said = runner::payload_view(session_id, agent_label, status, summary, finish);
    let error = match finish {
        FinishView::Error(e) => JsonView::Str(e),
        _ => JsonView::Null,
    };
    let name = runner::status_name(status);
    let e0 = Seq::<(Seq<char>, JsonView)>::empty();
    let e1 = e0.push(("session_id"@, JsonView::Str(session_id)));
    let e2 = e1.push(("agent_label"@, JsonView::Str(agent_label)));
    let e3 = e2.push(("status"@, JsonView::Str(name)));
    let e4 = e3.push(("summary"@, JsonView::Str(summary)));
    assert(said->Object_0 =~= e4.push(("error"@, error)));
    lemma_five("session_id"@, e0, session_id, agent_label, name, summary, error);
    lemma_five("agent_label"@, e0, session_id, agent_label, name, summary, error);
    lemma_five("status"@, e0, session_id, agent_label, name, summary, error);
    lemma_five("summary"@, e0, session_id, agent_label, name, summary, error);
    lemma_five("error"@, e0, session_id, agent_label, name, summary, error);
}

proof fn lemma_five(
    key: Seq<char>,
    e0: Seq<(Seq<char>, JsonView)>,
    session_id: Seq<char>,
    agent_label: Seq<char>,
    status: Seq<char>,
    summary: Seq<char>,
    error: JsonView,
)
    ensures
        ({
            let e1 = e0.push(("session_id"@, JsonView::Str(session_id)));
            let e2 = e1.push(("agent_label"@, JsonView::Str(agent_label)));
            let e3 = e2.push(("status"@, JsonView::Str(status)));
            let e4 = e3.push(("summary"@, JsonView::Str(summary)));
            json::lookup(e4.push(("error"@, error)), key) == (if key == "error"@ {
                Some(error)
            } else if key == "summary"@ {
                Some(JsonView::Str(summary))
            } else if key == "status"@ {
                Some(JsonView::Str(status))
            } else if key == "agent_label"@ {
                Some(JsonView::Str(agent_label))
            } else if key == "session_id"@ {
                Some(JsonView::Str(session_id))
            } else {
                json::lookup(e0, key)
            })
        }),
{
    let e1 = e0.push(("session_id"@, JsonView::Str(session_id)));
    let e2 = e1.push(("agent_label"@, JsonView::Str(agent_label)));
    let e3 = e2.push(("status"@, JsonView::Str(status)));
    let e4 = e3.push(("summary"@, JsonView::Str(summary)));
    lemma_lookup_push(e0, "session_id"@, JsonView::Str(session_id), key);
    lemma_lookup_push(e1, "agent_label"@, JsonView::Str(agent_label), key);
    lemma_lookup_push(e2, "status"@, JsonView::Str(status), key);
    lemma_lookup_push(e3, "summary"@, JsonView::Str(summary), key);
    lemma_lookup_push(e4, "error"@, error, key);
}

/// Of the blocks of an answer each text counts, without white space at its ends and in its place,
/// and nothing else.
pub proof fn law_texts_count(blocks: Seq<BlockView>, block: BlockView)
    ensures
        block matches BlockView::Text(t) ==> trimmed(t).len() > 0 ==> runner::texts_in(
            blocks.push(block),
        ) == runner::texts_in(blocks).push(trimmed(t)),
        !(block is Text) ==> runner::texts_in(blocks.push(block)) == runner::texts_in(blocks),
        runner::texts_in(Seq::empty()).len() == 0,
{
    assert(blocks.push(block).drop_last() =~= blocks);
}

spec fn bare(s: Seq<char>) -> bool {
    s.len() > 0 && !white(s[0]) && !white(s.last())
}

proof fn lemma_texts_are_bare(blocks: Seq<BlockView>)
    ensures
        forall|i: int|
            0 <= i < runner::texts_in(blocks).len() ==> bare(#[trigger] runner::texts_in(blocks)[i]),
    decreases blocks.len(),
{
    if blocks.len() > 0 {
        lemma_texts_are_bare(blocks.drop_last());
        if let BlockView::Text(t) = blocks.last() {
            text::lemma_trimmed_ends(t);
        }
        let done = runner::texts_in(blocks.drop_last());
        let all = runner::texts_in(blocks);
        assert forall|i: int| 0 <= i < all.len() implies bare(#[trigger] all[i]) by {
            if i < done.len() {
                assert(all[i] == done[i]);
            }
        }
    }
}

proof fn lemma_joined_is_bare(texts: Seq<Seq<char>>)
    requires
        texts.len() > 0,
        forall|i: int| 0 <= i < texts.len() ==> bare(#[trigger] texts[i]),
    ensures
        bare(joined(texts, "\n"@)),
    decreases texts.len(),
{
    assert(bare(texts[0]));
    if texts.len() > 1 {
        let less = texts.drop_last();
        assert forall|i: int| 0 <= i < less.len() implies bare(#[trigger] less[i]) by {
            assert(bare(texts[i]));
        }
        lemma_joined_is_bare(less);
        assert(bare(texts[texts.len() - 1]));
        let a = joined(less, "\n"@);
        let s = joined(texts, "\n"@);
        assert(s[0] == a[0]);
        assert(s.last() == texts.last().last());
    }
}

/// The summary of a run is what the model said in its last message: all its texts, each on lines
/// of its own.
pub proof fn law_last_answer_is_the_summary(before: Seq<MessageView>, answer: MessageView)
    requires
        answer.role == Role::Assistant,
        runner::texts_in(answer.content).len() > 0,
    ensures
        runner::final_text(before.push(answer)) == joined(
            runner::texts_in(answer.content),
            "\n"@,
        ),
{
    assert(before.push(answer).last() == answer);
    lemma_texts_are_bare(answer.content);
    let t = joined(runner::texts_in(answer.content), "\n"@);
    lemma_joined_is_bare(runner::texts_in(answer.content));
    text_laws::lemma_trimmed_is_same(t);
}

/// What an agent does is told under its session: each message, each call and each result as it
/// was. A question goes on as it is, and what is only a part of a message is not told.
pub proof fn law_agent_is_followed(
    session_id: String,
    m: Message,
    call: ToolUseBlock,
    result: ToolResultBlock,
    piece: String,
)
    ensures
        runner::bridged(EngineToRuntimeEvent::MessageProduced(m), session_id) == Some(
            EngineToRuntimeEvent::SubagentMessageProduced(
                SubagentMessageEvent { session_id, message: m },
            ),
        ),
        runner::bridged(EngineToRuntimeEvent::UserMessageProduced(m), session_id)
            == runner::bridged(EngineToRuntimeEvent::MessageProduced(m), session_id),
        runner::bridged(EngineToRuntimeEvent::ToolResultsProduced(m), session_id)
            == runner::bridged(EngineToRuntimeEvent::MessageProduced(m), session_id),
        runner::bridged(EngineToRuntimeEvent::ToolUse(call), session_id) == Some(
            EngineToRuntimeEvent::SubagentToolUse(
                SubagentToolUseEvent { session_id, tool_use: call },
            ),
        ),
        runner::bridged(EngineToRuntimeEvent::ToolResult(result), session_id) == Some(
            EngineToRuntimeEvent::SubagentToolResult(
                SubagentToolResultEvent { session_id, tool_result: result },
            ),
        ),
        runner::bridged(EngineToRuntimeEvent::TextDelta(piece), session_id) is None,
        runner::bridged(EngineToRuntimeEvent::ThinkingDelta(piece), session_id) is None,
        runner::bridged(EngineToRuntimeEvent::Error(piece), session_id) == Some(
            EngineToRuntimeEvent::Error(piece),
        ),
        runner::bridged(EngineToRuntimeEvent::Warning(piece), session_id) == Some(
            EngineToRuntimeEvent::Warning(piece),
        ),
{
}

/// An agent is told its name, what it is for, its instructions and what there is to know of the
/// project.
pub proof fn law_agent_is_told_its_instructions(context: Seq<char>, agent: AgentView)
    ensures
        ({
            let s = runner::system_prompt(context, agent);
            &&& holds(s, context)
            &&& holds(s, "Agent name: "@ + agent.name + "\nDescription: "@ + agent.description)
            &&& holds(s, agent.instructions)
        }),
{
    let s = runner::system_prompt(context, agent);
    let a = "You are running as an isolated subagent for Omini.\n\n"@;
    let b = "\n\n<subagent_instructions>\n"@
        + "Return a concise final result for the parent agent. Do not try to spawn subagents.\n\n"@;
    let who = "Agent name: "@ + agent.name + "\nDescription: "@ + agent.description;
    let end = "\n</subagent_instructions>"@;
    let rest = b + who + "\n\n"@ + agent.instructions + end;
    lemma_holds(a, context, rest);
    assert(s =~= a + context + rest);
    lemma_holds(a + context + b, who, "\n\n"@ + agent.instructions + end);
    assert(s =~= (a + context + b) + who + ("\n\n"@ + agent.instructions + end));
    lemma_holds(a + context + b + who + "\n\n"@, agent.instructions, end);
    assert(s =~= (a + context + b + who + "\n\n"@) + agent.instructions + end);
}

} // verus!
