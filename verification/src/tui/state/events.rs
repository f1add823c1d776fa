//! How events from the runtime change the state.
use crate::text;
use crate::tui::state::mention::MentionCandidate;
use crate::tui::state::paste;
use crate::tui::state::permission;
use crate::tui::state::AgentStatus;
use crate::tui::state::StatusBar;
use crate::tui::state::SubagentNode;
use crate::tui::state::UiMessage;
use crate::tui::state::UiState;
use crate::types::display::DisplayMessage;
use crate::types::display::HistoryItem;
use crate::types::display::MentionKind;
use crate::types::display::UserDraft;
use crate::types::events::AgentSummary;
use crate::types::events::InteractionRequest;
use crate::types::events::RuntimeToUiEvent;
use crate::types::events::SubagentStartedEvent;
use crate::types::events::SubagentToolResultEvent;
use crate::types::events::SubagentMessageEvent;
use crate::types::events::SubagentSnapshot;
use crate::types::events::SubagentStatus;
use crate::types::events::ToolPauseKind;
use crate::types::events::ToolPauseRequest;
use crate::types::message::ContentBlock;
use crate::types::message::Message;
use crate::types::message::Role;
use crate::types::message::TextBlock;
use crate::types::message::ThinkingBlock;
use crate::types::message::ToolResultBlock;
use std::collections::VecDeque;
use vstd::prelude::*;

verus! {

/// The first position of `key` among `keys`.
pub open spec fn key_at(keys: Seq<Seq<char>>, key: Seq<char>) -> Option<int>
    decreases keys.len(),
{
    if keys.len() == 0 {
        None
    } else {
        match key_at(keys.drop_last(), key) {
            Some(i) => Some(i),
            None => if keys.last() == key {
                Some(keys.len() - 1)
            } else {
                None
            },
        }
    }
}

pub proof fn lemma_key_at(keys: Seq<Seq<char>>, key: Seq<char>)
    ensures
        match key_at(keys, key) {
            Some(i) => 0 <= i < keys.len() && keys[i] == key,
            None => forall|i: int| 0 <= i < keys.len() ==> keys[i] != key,
        },
    decreases keys.len(),
{
    if keys.len() > 0 {
        lemma_key_at(keys.drop_last(), key);
        assert(forall|i: int| 0 <= i < keys.len() - 1 ==> keys.drop_last()[i] == keys[i]);
    }
}

/// The sequence with `item` under the key at `at`, or behind the others where there is none.
pub open spec fn stored<T>(items: Seq<T>, at: Option<int>, item: T) -> Seq<T> {
    match at {
        Some(i) => items.update(i, item),
        None => items.push(item),
    }
}

/// The sequence without the item at `at`.
pub open spec fn dropped<T>(items: Seq<T>, at: Option<int>) -> Seq<T> {
    match at {
        Some(i) => items.remove(i),
        None => items,
    }
}

pub open spec fn node_ids(nodes: Seq<SubagentNode>) -> Seq<Seq<char>> {
    Seq::new(nodes.len(), |i: int| nodes[i].session_id@)
}

pub open spec fn pause_ids(pauses: Seq<ToolPauseRequest>) -> Seq<Seq<char>> {
    Seq::new(pauses.len(), |i: int| pauses[i].tool_use_id@)
}

pub open spec fn spawn_ids(pairs: Seq<(String, String)>) -> Seq<Seq<char>> {
    Seq::new(pairs.len(), |i: int| pairs[i].0@)
}

pub fn find_node(nodes: &Vec<SubagentNode>, id: &str) -> (r: Option<usize>)
    ensures
        match r {
            Some(i) => key_at(node_ids(nodes@), id@) == Some(i as int) && i < nodes@.len(),
            None => key_at(node_ids(nodes@), id@) is None,
        },
{
    let ghost keys = node_ids(nodes@);
    let mut found: Option<usize> = None;
    let mut i: usize = 0;
    while i < nodes.len()
        invariant
            i <= nodes@.len(),
            keys == node_ids(nodes@),
            match found {
                Some(k) => key_at(keys.take(i as int), id@) == Some(k as int) && k < i,
                None => key_at(keys.take(i as int), id@) is None,
            },
        decreases nodes@.len() - i,
    {
        assert(keys.take(i + 1).drop_last() =~= keys.take(i as int));
        if found.is_none() && text::same(nodes[i].session_id.as_str(), id) {
            found = Some(i);
        }
        i = i + 1;
    }
    assert(keys.take(keys.len() as int) =~= keys);
    found
}

pub(crate) fn find_pause(pauses: &Vec<ToolPauseRequest>, id: &str) -> (r: Option<usize>)
    ensures
        match r {
            Some(i) => key_at(pause_ids(pauses@), id@) == Some(i as int) && i < pauses@.len(),
            None => key_at(pause_ids(pauses@), id@) is None,
        },
{
    let ghost keys = pause_ids(pauses@);
    let mut found: Option<usize> = None;
    let mut i: usize = 0;
    while i < pauses.len()
        invariant
            i <= pauses@.len(),
            keys == pause_ids(pauses@),
            match found {
                Some(k) => key_at(keys.take(i as int), id@) == Some(k as int) && k < i,
                None => key_at(keys.take(i as int), id@) is None,
            },
        decreases pauses@.len() - i,
    {
        assert(keys.take(i + 1).drop_last() =~= keys.take(i as int));
        if found.is_none() && text::same(pauses[i].tool_use_id.as_str(), id) {
            found = Some(i);
        }
        i = i + 1;
    }
    assert(keys.take(keys.len() as int) =~= keys);
    found
}

pub fn find_spawn(pairs: &Vec<(String, String)>, id: &str) -> (r: Option<usize>)
    ensures
        match r {
            Some(i) => key_at(spawn_ids(pairs@), id@) == Some(i as int) && i < pairs@.len(),
            None => key_at(spawn_ids(pairs@), id@) is None,
        },
{
    let ghost keys = spawn_ids(pairs@);
    let mut found: Option<usize> = None;
    let mut i: usize = 0;
    while i < pairs.len()
        invariant
            i <= pairs@.len(),
            keys == spawn_ids(pairs@),
            match found {
                Some(k) => key_at(keys.take(i as int), id@) == Some(k as int) && k < i,
                None => key_at(keys.take(i as int), id@) is None,
            },
        decreases pairs@.len() - i,
    {
        assert(keys.take(i + 1).drop_last() =~= keys.take(i as int));
        if found.is_none() && text::same(pairs[i].0.as_str(), id) {
            found = Some(i);
        }
        i = i + 1;
    }
    assert(keys.take(keys.len() as int) =~= keys);
    found
}

fn find_text(items: &Vec<String>, id: &str) -> (r: Option<usize>)
    ensures
        match r {
            Some(i) => key_at(text::views(items@), id@) == Some(i as int) && i < items@.len(),
            None => key_at(text::views(items@), id@) is None,
        },
{
    let ghost keys = text::views(items@);
    let mut found: Option<usize> = None;
    let mut i: usize = 0;
    while i < items.len()
        invariant
            i <= items@.len(),
            keys == text::views(items@),
            match found {
                Some(k) => key_at(keys.take(i as int), id@) == Some(k as int) && k < i,
                None => key_at(keys.take(i as int), id@) is None,
            },
        decreases items@.len() - i,
    {
        assert(keys.take(i + 1).drop_last() =~= keys.take(i as int));
        if found.is_none() && text::same(items[i].as_str(), id) {
            found = Some(i);
        }
        i = i + 1;
    }
    assert(keys.take(keys.len() as int) =~= keys);
    found
}

/// The blocks of the message that is being received.
pub open spec fn pending_blocks(s: UiState) -> Seq<ContentBlock> {
    match s.pending_assistant {
        Some(m) => m.content@,
        None => Seq::empty(),
    }
}

/// The role of the message that is being received.
pub open spec fn pending_role(s: UiState) -> Role {
    match s.pending_assistant {
        Some(m) => m.role,
        None => Role::Assistant,
    }
}

/// The message that is being received, with the blocks `blocks`.
pub open spec fn pending_is(pre: UiState, blocks: Seq<ContentBlock>, post: UiState) -> bool {
    match post.pending_assistant {
        Some(m) => m.role == pending_role(pre) && m.content@ == blocks,
        None => false,
    }
}

/// Thinking goes on in the last block where that is a thinking block, else in a new one.
pub open spec fn thinking_added(pre: Seq<ContentBlock>, t: String, post: Seq<ContentBlock>) -> bool {
    if pre.len() > 0 && pre.last() is Thinking {
        &&& post.len() == pre.len()
        &&& post.drop_last() == pre.drop_last()
        &&& post.last() matches ContentBlock::Thinking(b) && b.thinking@
            == pre.last()->Thinking_0.thinking@ + t@
    } else {
        post == pre.push(ContentBlock::Thinking(ThinkingBlock { thinking: t }))
    }
}

/// Text goes on in the last block where that is a text block, else in a new one.
pub open spec fn text_added(pre: Seq<ContentBlock>, t: String, post: Seq<ContentBlock>) -> bool {
    if pre.len() > 0 && pre.last() is Text {
        &&& post.len() == pre.len()
        &&& post.drop_last() == pre.drop_last()
        &&& post.last() matches ContentBlock::Text(b) && b.text@ == pre.last()->Text_0.text@ + t@
    } else {
        post == pre.push(ContentBlock::Text(TextBlock { text: t }))
    }
}

/// The messages with the one that is being received behind them, unless it is empty.
pub open spec fn with_pending(s: UiState) -> Seq<UiMessage> {
    match s.pending_assistant {
        Some(m) => if m.content@.len() > 0 {
            s.messages@.push(UiMessage::Message(m))
        } else {
            s.messages@
        },
        None => s.messages@,
    }
}

/// The scroll offset after something new has come in.
pub open spec fn offset_after(s: UiState) -> usize {
    if s.auto_scroll {
        0
    } else {
        s.scroll_offset
    }
}

/// `m` shows the draft `d`.
pub open spec fn shows_draft(d: UserDraft, m: UiMessage) -> bool {
    if d.mentions@.len() == 0 && d.images@.len() == 0 {
        m matches UiMessage::Message(x) && x@ == Message::user_text(d.text@)
    } else {
        m == UiMessage::Display(
            DisplayMessage {
                role: Role::User,
                text: d.text,
                mentions: d.mentions,
                images: d.images,
            },
        )
    }
}

/// The messages followed by one for each draft.
pub open spec fn drafts_shown(
    base: Seq<UiMessage>,
    drafts: Seq<UserDraft>,
    post: Seq<UiMessage>,
) -> bool {
    &&& post.len() == base.len() + drafts.len()
    &&& post.take(base.len() as int) == base
    &&& forall|i: int|
        0 <= i < drafts.len() ==> shows_draft(#[trigger] drafts[i], post[base.len() + i])
}

/// The status that a subagent ends with when its tool returns `tr`.
pub open spec fn ended_status(tr: ToolResultBlock) -> SubagentStatus {
    if tr.is_error {
        if text::trimmed(tr.content@) == "Execution cancelled"@ {
            SubagentStatus::Cancelled
        } else {
            SubagentStatus::Failed
        }
    } else {
        SubagentStatus::Completed
    }
}

/// The running subagent that a tool use spawned.
pub open spec fn spawned_node(s: UiState, tool_use_id: Seq<char>) -> Option<int> {
    match key_at(spawn_ids(s.subagents_by_tool_use@), tool_use_id) {
        Some(i) => match key_at(node_ids(s.subagents@), s.subagents_by_tool_use@[i].1@) {
            Some(n) => if s.subagents@[n].status == SubagentStatus::Running {
                Some(n)
            } else {
                None
            },
            None => None,
        },
        None => None,
    }
}

/// The running subagent that the tool use spawned ends.
pub open spec fn subagent_ended(pre: UiState, tr: ToolResultBlock, post: UiState) -> bool {
    match spawned_node(pre, tr.tool_use_id@) {
        Some(n) => {
            &&& post == (UiState { subagents: post.subagents, ..pre })
            &&& post.subagents@ == pre.subagents@.update(
                n,
                SubagentNode { status: ended_status(tr), ..pre.subagents@[n] },
            )
        },
        None => post == pre,
    }
}

/// The tool no longer runs.
pub open spec fn tool_stopped(pre: UiState, id: Seq<char>, post: UiState) -> bool {
    &&& post == (UiState { running_tools: post.running_tools, ..pre })
    &&& post.running_tools@ == dropped(
        pre.running_tools@,
        key_at(text::views(pre.running_tools@), id),
    )
}

/// The tool no longer waits for the user.
pub open spec fn pause_dropped(pre: UiState, id: Seq<char>, post: UiState) -> bool {
    &&& post == (UiState { pending_tool_previews: post.pending_tool_previews, ..pre })
    &&& post.pending_tool_previews@ == dropped(
        pre.pending_tool_previews@,
        key_at(pause_ids(pre.pending_tool_previews@), id),
    )
}

/// Where no tool waits any more, the drawer is reset and waiting is over.
pub open spec fn drawer_settled(pre: UiState, post: UiState) -> bool {
    if pre.pending_tool_previews@.len() == 0 {
        exists|mid: UiState|
            {
                &&& #[trigger] permission::drawer_reset(pre, mid)
                &&& post == (UiState {
                    agent_status: if pre.agent_status == AgentStatus::AwaitingInput {
                        AgentStatus::Working
                    } else {
                        pre.agent_status
                    },
                    ..mid
                })
            }
    } else {
        post == pre
    }
}

/// The last entry of the message area that is a message.
pub open spec fn last_message(messages: Seq<UiMessage>) -> Option<int>
    decreases messages.len(),
{
    if messages.len() == 0 {
        None
    } else if messages.last() is Message {
        Some(messages.len() - 1)
    } else {
        last_message(messages.drop_last())
    }
}

/// The result goes to the message that is being received, else to the last message, else to a
/// message of its own.
pub open spec fn result_attached(pre: UiState, tr: ToolResultBlock, post: UiState) -> bool {
    if pre.pending_assistant is Some {
        &&& post == (UiState { pending_assistant: post.pending_assistant, ..pre })
        &&& pending_is(pre, pending_blocks(pre).push(ContentBlock::ToolResult(tr)), post)
    } else {
        &&& post == (UiState { messages: post.messages, ..pre })
        &&& match last_message(pre.messages@) {
            Some(i) => {
                &&& post.messages@.len() == pre.messages@.len()
                &&& forall|k: int|
                    0 <= k < pre.messages@.len() && k != i ==> post.messages@[k]
                        == pre.messages@[k]
                &&& post.messages@[i] matches UiMessage::Message(m) && {
                    &&& m.role == pre.messages@[i]->Message_0.role
                    &&& m.content@ == pre.messages@[i]->Message_0.content@.push(
                        ContentBlock::ToolResult(tr),
                    )
                }
            },
            None => {
                &&& post.messages@.len() == pre.messages@.len() + 1
                &&& post.messages@.drop_last() == pre.messages@
                &&& post.messages@.last() matches UiMessage::Message(m) && {
                    &&& m.role == Role::Assistant
                    &&& m.content@ == seq![ContentBlock::ToolResult(tr)]
                }
            },
        }
    }
}

/// A message with the one block `block` goes to the subagent `session_id`.
pub open spec fn subagent_told(
    pre: UiState,
    session_id: Seq<char>,
    role: Role,
    block: ContentBlock,
    post: UiState,
) -> bool {
    match key_at(node_ids(pre.subagents@), session_id) {
        Some(n) => {
            &&& post == (UiState { subagents: post.subagents, ..pre })
            &&& post.subagents@.len() == pre.subagents@.len()
            &&& forall|k: int|
                0 <= k < pre.subagents@.len() && k != n ==> post.subagents@[k]
                    == pre.subagents@[k]
            &&& post.subagents@[n] == (SubagentNode {
                messages: post.subagents@[n].messages,
                ..pre.subagents@[n]
            })
            &&& post.subagents@[n].messages@.len() == pre.subagents@[n].messages@.len() + 1
            &&& post.subagents@[n].messages@.drop_last() == pre.subagents@[n].messages@
            &&& post.subagents@[n].messages@.last().role == role
            &&& post.subagents@[n].messages@.last().content@ == seq![block]
        },
        None => post == pre,
    }
}

/// Every running subagent has failed.
pub open spec fn subagents_failed(pre: Seq<SubagentNode>, post: Seq<SubagentNode>) -> bool {
    &&& post.len() == pre.len()
    &&& forall|i: int|
        0 <= i < pre.len() ==> #[trigger] post[i] == (SubagentNode {
            status: if pre[i].status == SubagentStatus::Running {
                SubagentStatus::Failed
            } else {
                pre[i].status
            },
            ..pre[i]
        })
}

/// The candidates with the given agents in place of the agents among them.
pub open spec fn agent_candidates(
    pre: Seq<MentionCandidate>,
    agents: Seq<AgentSummary>,
    post: Seq<MentionCandidate>,
) -> bool {
    let others = others_of(pre, pre.len() as int);
    &&& post.len() == agents.len() + others.len()
    &&& post.skip(agents.len() as int) == others
    &&& forall|i: int|
        0 <= i < agents.len() ==> (#[trigger] post[i]).kind == MentionKind::Subagent
            && post[i].label@ == agents[i].name@ && post[i].target@ == agents[i].name@
            && post[i].description@ == agents[i].description@
}

/// The first `n` candidates without the agents among them.
pub open spec fn others_of(all: Seq<MentionCandidate>, n: int) -> Seq<MentionCandidate>
    decreases n,
{
    if n <= 0 {
        Seq::empty()
    } else if all[n - 1].kind == MentionKind::Subagent {
        others_of(all, n - 1)
    } else {
        others_of(all, n - 1).push(all[n - 1])
    }
}

/// The key under which a subagent's tool may wait: the session id, a colon, the tool use id.
pub open spec fn scoped_id(session_id: Seq<char>, tool_use_id: Seq<char>) -> Seq<char> {
    session_id.push(':') + tool_use_id
}

/// What an event does to the state.
pub open spec fn event_applied(pre: UiState, event: RuntimeToUiEvent, post: UiState) -> bool {
    match event {
        RuntimeToUiEvent::RunStarted => post == (UiState {
            pending_assistant: None,
            agent_status: AgentStatus::Thinking,
            ..pre
        }),
        RuntimeToUiEvent::UserMessageInjected(item) => {
            &&& post == (UiState {
                messages: post.messages,
                scroll_offset: offset_after(pre),
                ..pre
            })
            &&& post.messages@ == pre.messages@.push(UiMessage::of_item(item))
        },
        RuntimeToUiEvent::TurnStarted => {
            &&& post == (UiState {
                messages: post.messages,
                pending_assistant: None,
                agent_status: AgentStatus::Thinking,
                ..pre
            })
            &&& post.messages@ == with_pending(pre)
        },
        RuntimeToUiEvent::ThinkingDelta(t) => {
            &&& post == (UiState {
                pending_assistant: post.pending_assistant,
                agent_status: AgentStatus::Thinking,
                ..pre
            })
            &&& post.pending_assistant matches Some(m) && m.role == pending_role(pre)
                && thinking_added(pending_blocks(pre), t, m.content@)
        },
        RuntimeToUiEvent::TextDelta(t) => {
            &&& post == (UiState {
                pending_assistant: post.pending_assistant,
                agent_status: AgentStatus::Working,
                ..pre
            })
            &&& post.pending_assistant matches Some(m) && m.role == pending_role(pre)
                && text_added(pending_blocks(pre), t, m.content@)
        },
        RuntimeToUiEvent::ToolUse(tu) => {
            &&& post == (UiState {
                running_tools: post.running_tools,
                pending_assistant: post.pending_assistant,
                agent_status: AgentStatus::Working,
                ..pre
            })
            &&& post.running_tools@ == (match key_at(text::views(pre.running_tools@), tu.id@) {
                Some(_) => pre.running_tools@,
                None => pre.running_tools@.push(tu.id),
            })
            &&& pending_is(pre, pending_blocks(pre).push(ContentBlock::ToolUse(tu)), post)
        },
        RuntimeToUiEvent::ToolResult(tr) => exists|a: UiState, b: UiState, c: UiState, d: UiState|
            {
                &&& #[trigger] subagent_ended(pre, tr, a)
                &&& #[trigger] tool_stopped(a, tr.tool_use_id@, b)
                &&& #[trigger] pause_dropped(b, tr.tool_use_id@, c)
                &&& #[trigger] drawer_settled(c, d)
                &&& result_attached(d, tr, post)
            },
        RuntimeToUiEvent::TurnEnded => {
            &&& post == (UiState {
                messages: post.messages,
                pending_assistant: None,
                pending_intervention_inputs: post.pending_intervention_inputs,
                scroll_offset: offset_after(pre),
                agent_status: AgentStatus::Working,
                ..pre
            })
            &&& post.pending_intervention_inputs@.len() == 0
            &&& drafts_shown(
                with_pending(pre),
                pre.pending_intervention_inputs@,
                post.messages@,
            )
        },
        RuntimeToUiEvent::RunFinished => {
            &&& post == (UiState {
                messages: post.messages,
                pending_assistant: None,
                pending_intervention_inputs: post.pending_intervention_inputs,
                scroll_offset: offset_after(pre),
                agent_status: AgentStatus::Idle,
                ..pre
            })
            &&& post.pending_intervention_inputs@.len() == 0
            &&& post.messages@ == with_pending(pre)
        },
        RuntimeToUiEvent::ToolPauseRequested(req) => exists|a: UiState, b: UiState|
            {
                &&& #[trigger] permission::drawer_reset(pre, a)
                &&& match req.kind {
                    ToolPauseKind::UserInput(preview) => permission::questions_prepared(
                        a,
                        preview.questions@.len() as int,
                        b,
                    ),
                    ToolPauseKind::Permission(_) => b == a,
                }
                &&& #[trigger] pause_stored(b, req, post)
            },
        RuntimeToUiEvent::SubagentStarted(event) => {
            &&& post == (UiState {
                subagents: post.subagents,
                subagents_by_tool_use: post.subagents_by_tool_use,
                agent_status: AgentStatus::Working,
                ..pre
            })
            &&& post.subagents_by_tool_use@ == stored(
                pre.subagents_by_tool_use@,
                key_at(spawn_ids(pre.subagents_by_tool_use@), event.spawn_tool_use_id@),
                (event.spawn_tool_use_id, event.session_id),
            )
            &&& exists|node: SubagentNode|
                {
                    &&& node.session_id == event.session_id
                    &&& node.parent_session_id == event.parent_session_id
                    &&& node.spawn_tool_use_id == event.spawn_tool_use_id
                    &&& node.agent_label == event.agent_label
                    &&& node.status == SubagentStatus::Running
                    &&& node.messages@.len() == 0
                    &&& post.subagents@ == #[trigger] stored(
                        pre.subagents@,
                        key_at(node_ids(pre.subagents@), event.session_id@),
                        node,
                    )
                }
        },
        RuntimeToUiEvent::SubagentMessageProduced(event) => match key_at(
            node_ids(pre.subagents@),
            event.session_id@,
        ) {
            Some(n) => {
                &&& post == (UiState { subagents: post.subagents, ..pre })
                &&& post.subagents@.len() == pre.subagents@.len()
                &&& forall|k: int|
                    0 <= k < pre.subagents@.len() && k != n ==> post.subagents@[k]
                        == pre.subagents@[k]
                &&& post.subagents@[n] == (SubagentNode {
                    messages: post.subagents@[n].messages,
                    ..pre.subagents@[n]
                })
                &&& post.subagents@[n].messages@ == pre.subagents@[n].messages@.push(event.message)
            },
            None => post == pre,
        },
        RuntimeToUiEvent::SubagentToolUse(event) => subagent_told(
            pre,
            event.session_id@,
            Role::Assistant,
            ContentBlock::ToolUse(event.tool_use),
            post,
        ),
        RuntimeToUiEvent::SubagentToolResult(event) => exists|
            a: UiState,
            b: UiState,
            c: UiState,
            d: UiState,
        |
            {
                &&& #[trigger] tool_stopped(pre, event.tool_result.tool_use_id@, a)
                &&& #[trigger] pause_dropped(a, event.tool_result.tool_use_id@, b)
                &&& #[trigger] pause_dropped(
                    b,
                    scoped_id(event.session_id@, event.tool_result.tool_use_id@),
                    c,
                )
                &&& #[trigger] drawer_settled(c, d)
                &&& subagent_told(
                    d,
                    event.session_id@,
                    Role::User,
                    ContentBlock::ToolResult(event.tool_result),
                    post,
                )
            },
        RuntimeToUiEvent::SubagentFinished(event) => match key_at(
            node_ids(pre.subagents@),
            event.session_id@,
        ) {
            Some(n) => {
                &&& post == (UiState { subagents: post.subagents, ..pre })
                &&& post.subagents@ == pre.subagents@.update(
                    n,
                    SubagentNode { status: event.status, ..pre.subagents@[n] },
                )
            },
            None => post == pre,
        },
        RuntimeToUiEvent::Error(e) => {
            &&& post == (UiState {
                messages: post.messages,
                subagents: post.subagents,
                agent_status: if pre.pending_tool_previews@.len() > 0 {
                    AgentStatus::AwaitingInput
                } else {
                    pre.agent_status
                },
                scroll_offset: offset_after(pre),
                ..pre
            })
            &&& post.messages@ == pre.messages@.push(UiMessage::Error { text: e })
            &&& subagents_failed(pre.subagents@, post.subagents@)
        },
        RuntimeToUiEvent::Warning(text) => {
            &&& post == (UiState {
                messages: post.messages,
                scroll_offset: offset_after(pre),
                ..pre
            })
            &&& post.messages@ == pre.messages@.push(UiMessage::Warning { text })
        },
        RuntimeToUiEvent::Shutdown => post == pre,
        RuntimeToUiEvent::CommandNotice(text) => {
            &&& post == (UiState {
                messages: post.messages,
                scroll_offset: offset_after(pre),
                ..pre
            })
            &&& post.messages@ == pre.messages@.push(UiMessage::Notice { text })
        },
        RuntimeToUiEvent::ModelChanged { provider, model, thinking_effort } => post == (UiState {
            status_bar: StatusBar {
                active_provider: provider,
                model,
                thinking_effort,
                ..pre.status_bar
            },
            interaction_step: None,
            interaction_request: None,
            ..pre
        }),
        RuntimeToUiEvent::SessionTitleChanged { title } => post == (UiState {
            current_session_title: title,
            ..pre
        }),
        RuntimeToUiEvent::InteractionRequest(req) => post == (UiState {
            interaction_request: Some(req),
            ..pre
        }),
        RuntimeToUiEvent::CommandList(cmds) => post == (UiState {
            autocomplete: crate::tui::state::autocomplete::CommandAutocomplete {
                all_commands: cmds,
                ..pre.autocomplete
            },
            ..pre
        }),
        RuntimeToUiEvent::AgentList(agents) => exists|mid: UiState|
            {
                &&& mid == (UiState {
                    mention_autocomplete: crate::tui::state::mention::MentionAutocomplete {
                        candidates: mid.mention_autocomplete.candidates,
                        ..pre.mention_autocomplete
                    },
                    ..pre
                })
                &&& agent_candidates(
                    pre.mention_autocomplete.candidates@,
                    agents@,
                    mid.mention_autocomplete.candidates@,
                )
                &&& #[trigger] paste::offers_updated(mid, post)
            },
        RuntimeToUiEvent::SessionChanged { .. } => post == pre,
    }
}

/// The tool waits for the user.
pub open spec fn pause_stored(pre: UiState, req: ToolPauseRequest, post: UiState) -> bool {
    &&& post == (UiState {
        pending_tool_previews: post.pending_tool_previews,
        agent_status: AgentStatus::AwaitingInput,
        ..pre
    })
    &&& post.pending_tool_previews@ == stored(
        pre.pending_tool_previews@,
        key_at(pause_ids(pre.pending_tool_previews@), req.tool_use_id@),
        req,
    )
}

impl UiState {
    fn finish_subagent_for_tool_result(&mut self, result: &ToolResultBlock)
        ensures
            subagent_ended(*old(self), *result, *final(self)),
    {
        let session = match find_spawn(&self.subagents_by_tool_use, result.tool_use_id.as_str()) {
            Some(i) => self.subagents_by_tool_use[i].1.clone(),
            None => {
                return;
            },
        };
        match find_node(&self.subagents, session.as_str()) {
            Some(n) => {
                if self.subagents[n].status != SubagentStatus::Running {
                    return;
                }
                let status = if result.is_error {
                    let trimmed = text::trim(result.content.as_str());
                    if text::same(trimmed.as_str(), "Execution cancelled") {
                        SubagentStatus::Cancelled
                    } else {
                        SubagentStatus::Failed
                    }
                } else {
                    SubagentStatus::Completed
                };
                self.subagents[n].status = status;
            },
            None => {},
        }
    }

    fn stop_tool(&mut self, id: &str)
        ensures
            tool_stopped(*old(self), id@, *final(self)),
    {
        match find_text(&self.running_tools, id) {
            Some(i) => {
                let _gone = self.running_tools.remove(i);
            },
            None => {},
        }
    }

    pub(crate) fn drop_pause(&mut self, id: &str)
        ensures
            pause_dropped(*old(self), id@, *final(self)),
    {
        match find_pause(&self.pending_tool_previews, id) {
            Some(i) => {
                let _gone = self.pending_tool_previews.remove(i);
            },
            None => {},
        }
    }

    fn settle_drawer(&mut self)
        ensures
            drawer_settled(*old(self), *final(self)),
    {
        if self.pending_tool_previews.len() == 0 {
            self.reset_permission_drawer();
            let ghost mid = *self;
            if self.agent_status == AgentStatus::AwaitingInput {
                self.agent_status = AgentStatus::Working;
            }
            assert(permission::drawer_reset(*old(self), mid));
        }
    }

    /// Takes the message that is being received, or a new one from the assistant.
    fn take_pending(&mut self) -> (r: Message)
        ensures
            *final(self) == (UiState { pending_assistant: None, ..*old(self) }),
            r.role == pending_role(*old(self)),
            r.content@ == pending_blocks(*old(self)),
    {
        match self.pending_assistant.take() {
            Some(m) => m,
            None => Message::new(Role::Assistant, Vec::new()),
        }
    }

    fn push_pending(&mut self)
        ensures
            *final(self) == (UiState {
                messages: final(self).messages,
                pending_assistant: None,
                ..*old(self)
            }),
            final(self).messages@ == with_pending(*old(self)),
    {
        match self.pending_assistant.take() {
            Some(m) => {
                if m.content.len() > 0 {
                    self.messages.push(UiMessage::Message(m));
                }
            },
            None => {},
        }
    }

    fn scroll_for_news(&mut self)
        ensures
            *final(self) == (UiState { scroll_offset: offset_after(*old(self)), ..*old(self) }),
    {
        if self.auto_scroll {
            self.scroll_offset = 0;
        }
    }

    fn fail_running_subagents(&mut self)
        ensures
            *final(self) == (UiState { subagents: final(self).subagents, ..*old(self) }),
            subagents_failed(old(self).subagents@, final(self).subagents@),
    {
        let ghost pre = self.subagents@;
        let mut i: usize = 0;
        while i < self.subagents.len()
            invariant
                i <= self.subagents@.len(),
                *self == (UiState { subagents: self.subagents, ..*old(self) }),
                pre == old(self).subagents@,
                self.subagents@.len() == pre.len(),
                forall|k: int| i <= k < pre.len() ==> self.subagents@[k] == pre[k],
                forall|k: int|
                    0 <= k < i ==> #[trigger] self.subagents@[k] == (SubagentNode {
                        status: if pre[k].status == SubagentStatus::Running {
                            SubagentStatus::Failed
                        } else {
                            pre[k].status
                        },
                        ..pre[k]
                    }),
            decreases self.subagents@.len() - i,
        {
            if self.subagents[i].status == SubagentStatus::Running {
                self.subagents[i].status = SubagentStatus::Failed;
            }
            i = i + 1;
        }
    }

    fn tell_subagent(&mut self, session_id: &str, role: Role, block: ContentBlock)
        ensures
            subagent_told(*old(self), session_id@, role, block, *final(self)),
    {
        match find_node(&self.subagents, session_id) {
            Some(n) => {
                let mut content: Vec<ContentBlock> = Vec::new();
                content.push(block);
                assert(content@ =~= seq![block]);
                let ghost before = self.subagents@[n as int].messages@;
                self.subagents[n].messages.push(Message::new(role, content));
                assert(self.subagents@[n as int].messages@.drop_last() =~= before);
            },
            None => {},
        }
    }

    fn attach_result(&mut self, tr: ToolResultBlock)
        ensures
            result_attached(*old(self), tr, *final(self)),
    {
        match self.pending_assistant.take() {
            Some(m) => {
                let mut m = m;
                m.content.push(ContentBlock::ToolResult(tr));
                self.pending_assistant = Some(m);
            },
            None => {
                let mut n: usize = self.messages.len();
                let ghost all = self.messages@;
                assert(all.take(n as int) =~= all);
                while n > 0
                    invariant
                        n <= all.len(),
                        self.messages@ == all,
                        *self == *old(self),
                        last_message(all) == last_message(all.take(n as int)),
                        self.pending_assistant is None,
                        all == old(self).messages@,
                    decreases n,
                {
                    assert(all.take(n as int).drop_last() =~= all.take(n - 1));
                    let is_message = match &self.messages[n - 1] {
                        UiMessage::Message(_) => true,
                        _ => false,
                    };
                    if is_message {
                        assert(last_message(all) == Some(n - 1));
                        match &mut self.messages[n - 1] {
                            UiMessage::Message(m) => {
                                m.content.push(ContentBlock::ToolResult(tr));
                            },
                            _ => {},
                        }
                        return;
                    }
                    n = n - 1;
                }
                let mut content: Vec<ContentBlock> = Vec::new();
                content.push(ContentBlock::ToolResult(tr));
                assert(content@ =~= seq![ContentBlock::ToolResult(tr)]);
                self.messages.push(UiMessage::Message(Message::new(Role::Assistant, content)));
                assert(self.messages@.drop_last() =~= all);
            },
        }
    }

    /// Moves the inputs handed to the engine into the history.
    fn show_pending_interventions(&mut self)
        ensures
            *final(self) == (UiState {
                messages: final(self).messages,
                pending_intervention_inputs: final(self).pending_intervention_inputs,
                ..*old(self)
            }),
            final(self).pending_intervention_inputs@.len() == 0,
            drafts_shown(
                old(self).messages@,
                old(self).pending_intervention_inputs@,
                final(self).messages@,
            ),
    {
        let ghost base = self.messages@;
        let ghost drafts = self.pending_intervention_inputs@;
        assert(base.take(base.len() as int) =~= base);
        let ghost mut done: int = 0;
        while self.pending_intervention_inputs.len() > 0
            invariant
                base == old(self).messages@,
                drafts == old(self).pending_intervention_inputs@,
                *self == (UiState {
                    messages: self.messages,
                    pending_intervention_inputs: self.pending_intervention_inputs,
                    ..*old(self)
                }),
                0 <= done <= drafts.len(),
                self.pending_intervention_inputs@ == drafts.skip(done),
                self.messages@.len() == base.len() + done,
                self.messages@.take(base.len() as int) == base,
                forall|i: int|
                    0 <= i < done ==> shows_draft(
                        #[trigger] drafts[i],
                        self.messages@[base.len() + i],
                    ),
            decreases self.pending_intervention_inputs@.len(),
        {
            match self.pending_intervention_inputs.pop_front() {
                Some(draft) => {
                    assert(draft == drafts[done]);
                    let item = draft.history_item();
                    let ghost before = self.messages@;
                    self.messages.push(UiMessage::from_history_item(item));
                    assert(self.messages@.take(base.len() as int) =~= before.take(
                        base.len() as int,
                    ));
                    assert(drafts.skip(done).skip(1) =~= drafts.skip(done + 1));
                    proof {
                        done = done + 1;
                    }
                    assert(self.pending_intervention_inputs@ =~= drafts.skip(done));
                },
                None => {},
            }
        }
    }

    fn set_agents(&mut self, agents: Vec<AgentSummary>)
        ensures
            event_applied(*old(self), RuntimeToUiEvent::AgentList(agents), *final(self)),
    {
        let mut list: Vec<MentionCandidate> = Vec::new();
        let mut i: usize = 0;
        while i < agents.len()
            invariant
                i <= agents@.len(),
                list@.len() == i,
                forall|k: int|
                    0 <= k < i ==> (#[trigger] list@[k]).kind == MentionKind::Subagent
                        && list@[k].label@ == agents@[k].name@ && list@[k].target@
                        == agents@[k].name@ && list@[k].description@ == agents@[k].description@,
            decreases agents@.len() - i,
        {
            list.push(
                MentionCandidate {
                    kind: MentionKind::Subagent,
                    label: agents[i].name.clone(),
                    target: agents[i].name.clone(),
                    description: agents[i].description.clone(),
                },
            );
            i = i + 1;
        }
        let ghost head = list@;
        let ghost pre = self.mention_autocomplete.candidates@;
        let mut j: usize = 0;
        while j < self.mention_autocomplete.candidates.len()
            invariant
                *self == *old(self),
                pre == self.mention_autocomplete.candidates@,
                j <= pre.len(),
                list@ == head + others_of(pre, j as int),
            decreases pre.len() - j,
        {
            if self.mention_autocomplete.candidates[j].kind != MentionKind::Subagent {
                list.push(self.mention_autocomplete.candidates[j].clone());
                assert(list@ =~= head + others_of(pre, j + 1));
            }
            j = j + 1;
        }
        assert(list@.skip(head.len() as int) =~= others_of(pre, pre.len() as int));
        self.mention_autocomplete.set_candidates(list);
        let ghost mid = *self;
        assert(agent_candidates(pre, agents@, mid.mention_autocomplete.candidates@)) by {
            assert forall|k: int| 0 <= k < agents@.len() implies (
            #[trigger] mid.mention_autocomplete.candidates@[k]) == head[k] by {}
        }
        self.update_input_autocomplete();
        assert(paste::offers_updated(mid, *self));
    }

    fn on_tool_result(&mut self, tr: ToolResultBlock)
        ensures
            event_applied(*old(self), RuntimeToUiEvent::ToolResult(tr), *final(self)),
    {
        let ghost pre = *self;
        self.finish_subagent_for_tool_result(&tr);
        let ghost a = *self;
        self.stop_tool(tr.tool_use_id.as_str());
        let ghost b = *self;
        self.drop_pause(tr.tool_use_id.as_str());
        let ghost c = *self;
        self.settle_drawer();
        let ghost d = *self;
        proof {
            assert(subagent_ended(pre, tr, a));
            assert(tool_stopped(a, tr.tool_use_id@, b));
            assert(pause_dropped(b, tr.tool_use_id@, c));
            assert(drawer_settled(c, d));
        }
        self.attach_result(tr);
    }

    fn on_pause_requested(&mut self, req: ToolPauseRequest)
        ensures
            event_applied(*old(self), RuntimeToUiEvent::ToolPauseRequested(req), *final(self)),
    {
        let ghost pre = *self;
        self.reset_permission_drawer();
        let ghost a = *self;
        match &req.kind {
            ToolPauseKind::UserInput(preview) => {
                self.prepare_user_input_preview(preview);
            },
            ToolPauseKind::Permission(_) => {},
        }
        let ghost b = *self;
        match find_pause(&self.pending_tool_previews, req.tool_use_id.as_str()) {
            Some(i) => {
                self.pending_tool_previews.set(i, req);
            },
            None => {
                self.pending_tool_previews.push(req);
            },
        }
        self.agent_status = AgentStatus::AwaitingInput;
        proof {
            assert(permission::drawer_reset(pre, a));
            assert(pause_stored(b, req, *self));
        }
    }

    fn on_subagent_started(&mut self, event: SubagentStartedEvent)
        ensures
            event_applied(*old(self), RuntimeToUiEvent::SubagentStarted(event), *final(self)),
    {
        let pair = (event.spawn_tool_use_id.clone(), event.session_id.clone());
        match find_spawn(&self.subagents_by_tool_use, event.spawn_tool_use_id.as_str()) {
            Some(i) => {
                self.subagents_by_tool_use.set(i, pair);
            },
            None => {
                self.subagents_by_tool_use.push(pair);
            },
        }
        let at = find_node(&self.subagents, event.session_id.as_str());
        let node = SubagentNode {
            session_id: event.session_id,
            parent_session_id: event.parent_session_id,
            spawn_tool_use_id: event.spawn_tool_use_id,
            agent_label: event.agent_label,
            status: SubagentStatus::Running,
            messages: Vec::new(),
        };
        let ghost gnode = node;
        match at {
            Some(i) => {
                self.subagents.set(i, node);
            },
            None => {
                self.subagents.push(node);
            },
        }
        self.agent_status = AgentStatus::Working;
        proof {
            let pre = *old(self);
            assert(self.subagents@ =~= stored(
                pre.subagents@,
                key_at(node_ids(pre.subagents@), event.session_id@),
                gnode,
            ));
        }
    }

    fn on_subagent_tool_result(&mut self, event: SubagentToolResultEvent)
        ensures
            event_applied(*old(self), RuntimeToUiEvent::SubagentToolResult(event), *final(self)),
    {
        let ghost pre = *self;
        self.stop_tool(event.tool_result.tool_use_id.as_str());
        let ghost a = *self;
        self.drop_pause(event.tool_result.tool_use_id.as_str());
        let ghost b = *self;
        let mut key = event.session_id.clone();
        key.push(':');
        key.push_str(event.tool_result.tool_use_id.as_str());
        self.drop_pause(key.as_str());
        let ghost c = *self;
        self.settle_drawer();
        let ghost d = *self;
        proof {
            assert(tool_stopped(pre, event.tool_result.tool_use_id@, a));
            assert(pause_dropped(a, event.tool_result.tool_use_id@, b));
            assert(pause_dropped(
                b,
                scoped_id(event.session_id@, event.tool_result.tool_use_id@),
                c,
            ));
            assert(drawer_settled(c, d));
        }
        self.tell_subagent(
            event.session_id.as_str(),
            Role::User,
            ContentBlock::ToolResult(event.tool_result),
        );
    }

    fn on_subagent_message(&mut self, event: SubagentMessageEvent)
        ensures
            event_applied(*old(self), RuntimeToUiEvent::SubagentMessageProduced(event), *final(self)),
    {
        match find_node(&self.subagents, event.session_id.as_str()) {
            Some(n) => {
                self.subagents[n].messages.push(event.message);
            },
            None => {},
        }
    }

    /// Brings the state up to date with an event from the runtime.
    pub fn apply_event(&mut self, event: RuntimeToUiEvent)
        ensures
            event_applied(*old(self), event, *final(self)),
    {
        match event {
            RuntimeToUiEvent::RunStarted => {
                self.pending_assistant = None;
                self.agent_status = AgentStatus::Thinking;
            },
            RuntimeToUiEvent::UserMessageInjected(item) => {
                self.messages.push(UiMessage::from_history_item(item));
                self.scroll_for_news();
            },
            RuntimeToUiEvent::TurnStarted => {
                self.push_pending();
                self.agent_status = AgentStatus::Thinking;
            },
            RuntimeToUiEvent::ThinkingDelta(t) => {
                self.agent_status = AgentStatus::Thinking;
                let mut pending = self.take_pending();
                add_thinking(&mut pending, t);
                self.pending_assistant = Some(pending);
            },
            RuntimeToUiEvent::TextDelta(t) => {
                self.agent_status = AgentStatus::Working;
                let mut pending = self.take_pending();
                add_text(&mut pending, t);
                self.pending_assistant = Some(pending);
            },
            RuntimeToUiEvent::ToolUse(tu) => {
                if find_text(&self.running_tools, tu.id.as_str()).is_none() {
                    self.running_tools.push(tu.id.clone());
                }
                let mut pending = self.take_pending();
                pending.content.push(ContentBlock::ToolUse(tu));
                self.pending_assistant = Some(pending);
                self.agent_status = AgentStatus::Working;
            },
            RuntimeToUiEvent::ToolResult(tr) => {
                self.on_tool_result(tr);
            },
            RuntimeToUiEvent::TurnEnded => {
                self.push_pending();
                self.show_pending_interventions();
                self.scroll_for_news();
                self.agent_status = AgentStatus::Working;
            },
            RuntimeToUiEvent::RunFinished => {
                self.push_pending();
                self.pending_intervention_inputs = VecDeque::new();
                self.scroll_for_news();
                self.agent_status = AgentStatus::Idle;
            },
            RuntimeToUiEvent::ToolPauseRequested(req) => {
                self.on_pause_requested(req);
            },
            RuntimeToUiEvent::SubagentStarted(event) => {
                self.on_subagent_started(event);
            },
            RuntimeToUiEvent::SubagentMessageProduced(event) => {
                self.on_subagent_message(event);
            },
            RuntimeToUiEvent::SubagentToolUse(event) => {
                self.tell_subagent(
                    event.session_id.as_str(),
                    Role::Assistant,
                    ContentBlock::ToolUse(event.tool_use),
                );
            },
            RuntimeToUiEvent::SubagentToolResult(event) => {
                self.on_subagent_tool_result(event);
            },
            RuntimeToUiEvent::SubagentFinished(event) => {
                match find_node(&self.subagents, event.session_id.as_str()) {
                    Some(n) => {
                        self.subagents[n].status = event.status;
                    },
                    None => {},
                }
            },
            RuntimeToUiEvent::Error(e) => {
                self.messages.push(UiMessage::Error { text: e });
                self.fail_running_subagents();
                if self.pending_tool_previews.len() > 0 {
                    self.agent_status = AgentStatus::AwaitingInput;
                }
                self.scroll_for_news();
            },
            RuntimeToUiEvent::Warning(text) => {
                self.messages.push(UiMessage::Warning { text });
                self.scroll_for_news();
            },
            RuntimeToUiEvent::Shutdown => {},
            RuntimeToUiEvent::CommandNotice(text) => {
                self.messages.push(UiMessage::Notice { text });
                self.scroll_for_news();
            },
            RuntimeToUiEvent::ModelChanged { provider, model, thinking_effort } => {
                self.status_bar.active_provider = provider;
                self.status_bar.model = model;
                self.status_bar.thinking_effort = thinking_effort;
                self.interaction_step = None;
                self.interaction_request = None;
            },
            RuntimeToUiEvent::SessionTitleChanged { title } => {
                self.current_session_title = title;
            },
            RuntimeToUiEvent::InteractionRequest(req) => {
                self.interaction_request = Some(req);
            },
            RuntimeToUiEvent::CommandList(cmds) => {
                self.autocomplete.all_commands = cmds;
            },
            RuntimeToUiEvent::AgentList(agents) => {
                self.set_agents(agents);
            },
            RuntimeToUiEvent::SessionChanged { .. } => {},
        }
    }

    /// The subagent with the given session id.
    pub fn subagent(&self, session_id: &str) -> (r: Option<&SubagentNode>)
        ensures
            match r {
                Some(n) => key_at(node_ids(self.subagents@), session_id@) matches Some(i) && *n
                    == self.subagents@[i],
                None => key_at(node_ids(self.subagents@), session_id@) is None,
            },
    {
        match find_node(&self.subagents, session_id) {
            Some(i) => Some(&self.subagents[i]),
            None => None,
        }
    }

    /// Shows another session: its history and subagents, and an empty input.
    pub fn apply_session_changed(
        &mut self,
        session_id: Option<String>,
        messages: Vec<HistoryItem>,
        subagents: Vec<SubagentSnapshot>,
    )
        ensures
            session_shown(*old(self), session_id, messages@, subagents@, *final(self)),
    {
        self.current_session_id = session_id;
        self.messages = UiMessage::from_history_items(messages);
        let mut nodes: Vec<SubagentNode> = Vec::new();
        let mut spawned: Vec<(String, String)> = Vec::new();
        let ghost all = subagents@;
        let mut rest = subagents;
        let mut back: Vec<SubagentSnapshot> = Vec::new();
        while rest.len() > 0
            invariant
                rest@.len() + back@.len() == all.len(),
                rest@ == all.take(rest@.len() as int),
                forall|k: int| 0 <= k < back@.len() ==> back@[k] == all[all.len() - 1 - k],
            decreases rest@.len(),
        {
            if let Some(item) = rest.pop() {
                back.push(item);
            }
            assert(rest@ =~= all.take(rest@.len() as int));
        }
        assert(nodes@ =~= restored_nodes(all, 0));
        assert(spawned@ =~= restored_spawns(all, 0));
        while back.len() > 0
            invariant
                back@.len() <= all.len(),
                nodes@ == restored_nodes(all, all.len() - back@.len()),
                spawned@ == restored_spawns(all, all.len() - back@.len()),
                forall|k: int| 0 <= k < back@.len() ==> back@[k] == all[all.len() - 1 - k],
            decreases back@.len(),
        {
            let ghost n = all.len() - back@.len();
            if let Some(item) = back.pop() {
                assert(item == all[n]);
                let node = SubagentNode::from_snapshot(item);
                let pair = (node.spawn_tool_use_id.clone(), node.session_id.clone());
                match find_spawn(&spawned, node.spawn_tool_use_id.as_str()) {
                    Some(i) => {
                        spawned.set(i, pair);
                    },
                    None => {
                        spawned.push(pair);
                    },
                }
                match find_node(&nodes, node.session_id.as_str()) {
                    Some(i) => {
                        nodes.set(i, node);
                    },
                    None => {
                        nodes.push(node);
                    },
                }
            }
        }
        self.subagents = nodes;
        self.subagents_by_tool_use = spawned;
        self.pending_assistant = None;
        self.queued_user_inputs = VecDeque::new();
        self.input = String::new();
        self.input_mentions = Vec::new();
        self.input_images = Vec::new();
        self.input_paste_markers = Vec::new();
        self.cursor_char = 0;
        self.input_scroll_line = 0;
        self.agent_status = AgentStatus::Idle;
        self.interaction_step = None;
        self.interaction_request = None;
        self.scroll_to_bottom();
    }
}

/// The subagents of the first `n` snapshots; a later one takes the place of an earlier one
/// with the same session id.
pub open spec fn restored_nodes(all: Seq<SubagentSnapshot>, n: int) -> Seq<SubagentNode>
    decreases n,
{
    if n <= 0 {
        Seq::empty()
    } else {
        let before = restored_nodes(all, n - 1);
        stored(
            before,
            key_at(node_ids(before), all[n - 1].session_id@),
            SubagentNode::of_snapshot(all[n - 1]),
        )
    }
}

/// Which subagent each tool use of the first `n` snapshots spawned.
pub open spec fn restored_spawns(all: Seq<SubagentSnapshot>, n: int) -> Seq<(String, String)>
    decreases n,
{
    if n <= 0 {
        Seq::empty()
    } else {
        let before = restored_spawns(all, n - 1);
        stored(
            before,
            key_at(spawn_ids(before), all[n - 1].spawn_tool_use_id@),
            (all[n - 1].spawn_tool_use_id, all[n - 1].session_id),
        )
    }
}

/// What showing another session does.
pub open spec fn session_shown(
    pre: UiState,
    session_id: Option<String>,
    messages: Seq<HistoryItem>,
    subagents: Seq<SubagentSnapshot>,
    post: UiState,
) -> bool {
    &&& post == (UiState {
        current_session_id: session_id,
        messages: post.messages,
        subagents: post.subagents,
        subagents_by_tool_use: post.subagents_by_tool_use,
        pending_assistant: None,
        queued_user_inputs: post.queued_user_inputs,
        input: post.input,
        input_mentions: post.input_mentions,
        input_images: post.input_images,
        input_paste_markers: post.input_paste_markers,
        cursor_char: 0,
        input_scroll_line: 0,
        agent_status: AgentStatus::Idle,
        interaction_step: None,
        interaction_request: None,
        scroll_offset: 0,
        auto_scroll: true,
        ..pre
    })
    &&& post.messages@ == Seq::new(messages.len(), |i: int| UiMessage::of_item(messages[i]))
    &&& post.subagents@ == restored_nodes(subagents, subagents.len() as int)
    &&& post.subagents_by_tool_use@ == restored_spawns(subagents, subagents.len() as int)
    &&& post.queued_user_inputs@.len() == 0
    &&& post.input@.len() == 0
    &&& post.input_mentions@.len() == 0
    &&& post.input_images@.len() == 0
    &&& post.input_paste_markers@.len() == 0
}

fn add_thinking(m: &mut Message, t: String)
    ensures
        final(m).role == old(m).role,
        thinking_added(old(m).content@, t, final(m).content@),
{
    let ghost pre = m.content@;
    match m.content.pop() {
        Some(ContentBlock::Thinking(b)) => {
            let mut b = b;
            b.thinking.push_str(t.as_str());
            m.content.push(ContentBlock::Thinking(b));
            assert(m.content@.drop_last() =~= pre.drop_last());
        },
        Some(other) => {
            m.content.push(other);
            assert(m.content@ =~= pre);
            m.content.push(ContentBlock::from_thinking(t));
        },
        None => {
            m.content.push(ContentBlock::from_thinking(t));
        },
    }
}

fn add_text(m: &mut Message, t: String)
    ensures
        final(m).role == old(m).role,
        text_added(old(m).content@, t, final(m).content@),
{
    let ghost pre = m.content@;
    match m.content.pop() {
        Some(ContentBlock::Text(b)) => {
            let mut b = b;
            b.text.push_str(t.as_str());
            m.content.push(ContentBlock::Text(b));
            assert(m.content@.drop_last() =~= pre.drop_last());
        },
        Some(other) => {
            m.content.push(other);
            assert(m.content@ =~= pre);
            m.content.push(ContentBlock::from_text(t));
        },
        None => {
            m.content.push(ContentBlock::from_text(t));
        },
    }
}

} // verus!
