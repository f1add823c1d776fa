//! The message area.
use crate::text;
use crate::tui::line;
use crate::tui::line::Color;
use crate::tui::line::Line;
use crate::tui::line::LineView;
use crate::tui::line::Span;
use crate::tui::line::SpanView;
use crate::tui::line::Style;
use crate::tui::render::styled;
use crate::tui::render::styled::AlertKind;
use crate::tui::render::subagent;
use crate::tui::selection;
use crate::tui::state::events;
use crate::tui::state::SelectionPoint;
use crate::tui::state::SubagentNode;
use crate::tui::state::TextSelection;
use crate::tui::state::UiMessage;
use crate::tui::state::UiState;
use crate::tui::widgets;
use crate::types::display::DisplayMention;
use crate::types::message;
use crate::types::message::BlockView;
use crate::types::message::ContentBlock;
use crate::types::message::Message;
use crate::types::message::Role;
use crate::types::message::ToolResultBlock;
use crate::types::message::ToolResultView;
use crate::types::message::ToolUseBlock;
use crate::types::message::ToolUseView;
use crate::width;
use vstd::prelude::*;

verus! {

/// The blocks of all of the messages, in order.
pub open spec fn all_blocks(messages: Seq<UiMessage>) -> Seq<BlockView>
    decreases messages.len(),
{
    if messages.len() == 0 {
        Seq::empty()
    } else {
        let before = all_blocks(messages.drop_last());
        match messages.last() {
            UiMessage::Message(m) => before + m@.content,
            _ => before,
        }
    }
}

/// The place of the first result for the tool use `id`.
pub open spec fn result_at(blocks: Seq<BlockView>, id: Seq<char>) -> Option<int>
    decreases blocks.len(),
{
    if blocks.len() == 0 {
        None
    } else {
        match result_at(blocks.drop_last(), id) {
            Some(i) => Some(i),
            None => match blocks.last() {
                BlockView::ToolResult(r) => if r.tool_use_id == id {
                    Some(blocks.len() - 1)
                } else {
                    None
                },
                _ => None,
            },
        }
    }
}

/// The first result for the tool use `id`.
pub open spec fn result_for(blocks: Seq<BlockView>, id: Seq<char>) -> Option<ToolResultView>
    decreases blocks.len(),
{
    if blocks.len() == 0 {
        None
    } else {
        match result_for(blocks.drop_last(), id) {
            Some(r) => Some(r),
            None => match blocks.last() {
                BlockView::ToolResult(r) => if r.tool_use_id == id {
                    Some(r)
                } else {
                    None
                },
                _ => None,
            },
        }
    }
}

/// Whether the tool use `id` is among the blocks.
pub open spec fn called(blocks: Seq<BlockView>, id: Seq<char>) -> bool
    decreases blocks.len(),
{
    if blocks.len() == 0 {
        false
    } else {
        called(blocks.drop_last(), id) || (blocks.last() matches BlockView::ToolUse(t) && t.id
            == id)
    }
}

proof fn lemma_result_for_concat(a: Seq<BlockView>, b: Seq<BlockView>, id: Seq<char>)
    ensures
        result_for(a + b, id) == (match result_for(a, id) {
            Some(r) => Some(r),
            None => result_for(b, id),
        }),
    decreases b.len(),
{
    if b.len() == 0 {
        assert(a + b =~= a);
    } else {
        assert((a + b).drop_last() =~= a + b.drop_last());
        lemma_result_for_concat(a, b.drop_last(), id);
    }
}

proof fn lemma_called_concat(a: Seq<BlockView>, b: Seq<BlockView>, id: Seq<char>)
    ensures
        called(a + b, id) == (called(a, id) || called(b, id)),
    decreases b.len(),
{
    if b.len() == 0 {
        assert(a + b =~= a);
    } else {
        assert((a + b).drop_last() =~= a + b.drop_last());
        lemma_called_concat(a, b.drop_last(), id);
    }
}

fn find_result<'a>(blocks: &'a Vec<ContentBlock>, id: &str) -> (r: Option<
    (usize, &'a ToolResultBlock),
>)
    ensures
        match r {
            Some(p) => result_for(message::blocks_view(blocks@), id@) == Some(p.1@) && result_at(
                message::blocks_view(blocks@),
                id@,
            ) == Some(p.0 as int) && p.0 < blocks@.len(),
            None => result_for(message::blocks_view(blocks@), id@) is None && result_at(
                message::blocks_view(blocks@),
                id@,
            ) is None,
        },
{
    let ghost b = message::blocks_view(blocks@);
    let mut found: Option<(usize, &'a ToolResultBlock)> = None;
    let mut i: usize = 0;
    assert(b.take(0) =~= Seq::<BlockView>::empty());
    while i < blocks.len()
        invariant
            i <= blocks@.len(),
            b == message::blocks_view(blocks@),
            match found {
                Some(p) => result_for(b.take(i as int), id@) == Some(p.1@) && result_at(
                    b.take(i as int),
                    id@,
                ) == Some(p.0 as int) && p.0 < i,
                None => result_for(b.take(i as int), id@) is None && result_at(
                    b.take(i as int),
                    id@,
                ) is None,
            },
        decreases blocks@.len() - i,
    {
        assert(b.take(i + 1).drop_last() =~= b.take(i as int));
        assert(b.take(i + 1).last() == blocks@[i as int]@);
        if found.is_none() {
            if let ContentBlock::ToolResult(tr) = &blocks[i] {
                if text::same(tr.tool_use_id.as_str(), id) {
                    found = Some((i, tr));
                }
            }
        }
        i = i + 1;
    }
    assert(b.take(i as int) =~= b);
    found
}

fn find_result_in<'a>(messages: &'a Vec<UiMessage>, id: &str) -> (r: Option<&'a ToolResultBlock>)
    ensures
        widgets::opt_result_view(r) == result_for(all_blocks(messages@), id@),
{
    let mut i: usize = 0;
    assert(messages@.take(0) =~= Seq::<UiMessage>::empty());
    while i < messages.len()
        invariant
            i <= messages@.len(),
            result_for(all_blocks(messages@.take(i as int)), id@) is None,
        decreases messages@.len() - i,
    {
        assert(messages@.take(i + 1).drop_last() =~= messages@.take(i as int));
        if let UiMessage::Message(m) = &messages[i] {
            proof {
                lemma_result_for_concat(all_blocks(messages@.take(i as int)), m@.content, id@);
            }
            if let Some(p) = find_result(&m.content, id) {
                proof {
                    lemma_first_result_stays(messages@, i + 1, id@);
                }
                return Some(p.1);
            }
        }
        i = i + 1;
    }
    assert(messages@.take(i as int) =~= messages@);
    None
}

proof fn lemma_first_result_stays(messages: Seq<UiMessage>, n: int, id: Seq<char>)
    requires
        0 <= n <= messages.len(),
        result_for(all_blocks(messages.take(n)), id) is Some,
    ensures
        result_for(all_blocks(messages), id) == result_for(all_blocks(messages.take(n)), id),
    decreases messages.len(),
{
    if n == messages.len() {
        assert(messages.take(n) =~= messages);
    } else {
        let t = messages.drop_last();
        assert(t.take(n) =~= messages.take(n));
        lemma_first_result_stays(t, n, id);
        if let UiMessage::Message(m) = messages.last() {
            lemma_result_for_concat(all_blocks(t), m@.content, id);
        }
    }
}

/// Whether one of the first `n` blocks is the tool use `id`.
fn is_called(blocks: &Vec<ContentBlock>, n: usize, id: &str) -> (r: bool)
    requires
        n <= blocks@.len(),
    ensures
        r == called(message::blocks_view(blocks@).take(n as int), id@),
{
    let ghost b = message::blocks_view(blocks@);
    let mut i: usize = 0;
    let mut found = false;
    assert(b.take(0) =~= Seq::<BlockView>::empty());
    while i < n
        invariant
            i <= n <= blocks@.len(),
            b == message::blocks_view(blocks@),
            found == called(b.take(i as int), id@),
        decreases n - i,
    {
        assert(b.take(i + 1).drop_last() =~= b.take(i as int));
        assert(b.take(i + 1).last() == blocks@[i as int]@);
        if let ContentBlock::ToolUse(t) = &blocks[i] {
            if text::same(t.id.as_str(), id) {
                found = true;
            }
        }
        i = i + 1;
    }
    found
}

/// Whether the tool use `id` is in one of the first `n` messages.
fn is_called_in(messages: &Vec<UiMessage>, n: usize, id: &str) -> (r: bool)
    requires
        n <= messages@.len(),
    ensures
        r == called(all_blocks(messages@.take(n as int)), id@),
{
    let mut i: usize = 0;
    let mut found = false;
    assert(messages@.take(0) =~= Seq::<UiMessage>::empty());
    while i < n
        invariant
            i <= n <= messages@.len(),
            found == called(all_blocks(messages@.take(i as int)), id@),
        decreases n - i,
    {
        assert(messages@.take(i + 1).drop_last() =~= messages@.take(i as int));
        if let UiMessage::Message(m) = &messages[i] {
            proof {
                lemma_called_concat(all_blocks(messages@.take(i as int)), m@.content, id@);
                assert(m@.content.take(m.content@.len() as int) =~= m@.content);
            }
            if is_called(&m.content, m.content.len(), id) {
                found = true;
            }
        }
        i = i + 1;
    }
    found
}

/// The subagent that a tool use spawned.
pub open spec fn node_for(s: UiState, id: Seq<char>) -> Option<SubagentNode> {
    match events::key_at(events::spawn_ids(s.subagents_by_tool_use@), id) {
        Some(i) => match events::key_at(
            events::node_ids(s.subagents@),
            s.subagents_by_tool_use@[i].1@,
        ) {
            Some(n) => Some(s.subagents@[n]),
            None => None,
        },
        None => None,
    }
}

fn find_spawned<'a>(state: &'a UiState, id: &str) -> (r: Option<&'a SubagentNode>)
    ensures
        match r {
            Some(n) => node_for(*state, id@) == Some(*n),
            None => node_for(*state, id@) is None,
        },
{
    match events::find_spawn(&state.subagents_by_tool_use, id) {
        Some(i) => match events::find_node(
            &state.subagents,
            state.subagents_by_tool_use[i].1.as_str(),
        ) {
            Some(n) => Some(&state.subagents[n]),
            None => None,
        },
        None => None,
    }
}

/// How things are shown: the width, whether long output is cut short, and the time in
/// milliseconds.
#[derive(Debug, Clone, Copy, PartialEq, Eq, Structural)]
pub struct Look {
    pub width: usize,
    pub collapsed: bool,
    pub ms: u64,
}

/// A tool use with its result.
pub open spec fn tool_use_lines(
    s: UiState,
    tool: ToolUseView,
    result: Option<ToolResultView>,
    look: Look,
) -> Seq<LineView> {
    if tool.name == "subagent"@ {
        subagent::subagent_lines(
            tool,
            result,
            node_for(s, tool.id),
            look.width as int,
            Some(s.status_bar.cwd@),
        )
    } else {
        widgets::tool_lines(
            tool,
            result,
            None,
            look.width as int,
            Some(s.status_bar.cwd@),
            look.collapsed,
            look.ms as int,
        )
    }
}

fn render_tool_use(
    state: &UiState,
    tool: &ToolUseBlock,
    result: Option<&ToolResultBlock>,
    look: Look,
) -> (r: Vec<Line>)
    ensures
        line::lines_view(r@) == tool_use_lines(
            *state,
            tool@,
            widgets::opt_result_view(result),
            look,
        ),
{
    if text::same(tool.name.as_str(), "subagent") {
        let node = find_spawned(state, tool.id.as_str());
        subagent::render_subagent_tool(
            tool,
            result,
            node,
            look.width,
            Some(state.status_bar.cwd.as_str()),
        )
    } else {
        widgets::render_tool(
            tool,
            result,
            None,
            look.width,
            Some(state.status_bar.cwd.as_str()),
            look.collapsed,
            look.ms,
        )
    }
}

/// A block of a message, with the result where it is a tool use.
pub open spec fn block_lines(
    s: UiState,
    role: Role,
    block: BlockView,
    result: Option<ToolResultView>,
    look: Look,
) -> Seq<LineView> {
    match block {
        BlockView::Text(t) => if role == Role::User {
            styled::user_block(t, Seq::empty(), look.width as int)
        } else {
            widgets::plain_lines(t, look.width as int)
        },
        BlockView::Image(_, _) => Seq::empty(),
        BlockView::Thinking(t) => widgets::thinking_lines(t, look.width as int),
        BlockView::ToolUse(t) => tool_use_lines(s, t, result, look),
        BlockView::ToolResult(r) => widgets::bordered(
            r.content,
            look.width as int,
            if r.is_error {
                Color::Rgb(255, 100, 100)
            } else {
                Color::Rgb(100, 200, 130)
            },
            false,
            None,
        ),
    }
}

fn render_block(
    state: &UiState,
    role: Role,
    block: &ContentBlock,
    result: Option<&ToolResultBlock>,
    look: Look,
) -> (r: Vec<Line>)
    ensures
        line::lines_view(r@) == block_lines(
            *state,
            role,
            block@,
            widgets::opt_result_view(result),
            look,
        ),
{
    match block {
        ContentBlock::Text(tb) => {
            if role == Role::User {
                let none: Vec<DisplayMention> = Vec::new();
                assert(none@ =~= Seq::<DisplayMention>::empty());
                styled::build_user_lines(tb.text.as_str(), &none, look.width)
            } else {
                widgets::build_plain_lines(tb.text.as_str(), look.width)
            }
        },
        ContentBlock::Image(_) => {
            let none: Vec<Line> = Vec::new();
            assert(line::lines_view(none@) =~= Seq::<LineView>::empty());
            none
        },
        ContentBlock::Thinking(tb) => widgets::build_thinking_lines(
            tb.thinking.as_str(),
            look.width,
        ),
        ContentBlock::ToolUse(tu) => render_tool_use(state, tu, result, look),
        ContentBlock::ToolResult(tr) => {
            let color = if tr.is_error {
                Color::Rgb(255, 100, 100)
            } else {
                Color::Rgb(100, 200, 130)
            };
            widgets::build_bordered_lines(tr.content.as_str(), look.width, color, false, None)
        },
    }
}

/// The lines with a block added to them, a free line between the two.
pub open spec fn added(all: Seq<LineView>, block: Seq<LineView>) -> Seq<LineView> {
    if block.len() == 0 {
        all
    } else if all.len() == 0 {
        block
    } else {
        all.push(line::blank()) + block
    }
}

fn add_block(all: &mut Vec<Line>, block: Vec<Line>)
    ensures
        line::lines_view(final(all)@) == added(line::lines_view(old(all)@), line::lines_view(block@)),
{
    let ghost before = line::lines_view(all@);
    let ghost b = line::lines_view(block@);
    assert(before.len() == all@.len() && b.len() == block@.len());
    if block.len() > 0 {
        if all.len() > 0 {
            line::push_line(all, line::empty_line());
        }
        line::append_lines(all, block);
        assert(line::lines_view(all@) =~= added(before, b));
    }
}

pub open spec fn result_of_block(every: Seq<BlockView>, block: BlockView) -> Option<
    ToolResultView,
> {
    match block {
        BlockView::ToolUse(t) => result_for(every, t.id),
        _ => None,
    }
}

/// `all` with the first `n` blocks of a message added to it. `every` holds the blocks of all
/// messages, `passed` those of the messages before. The result of a tool use that came before it
/// is shown with the tool use, and not again.
pub open spec fn content_lines(
    s: UiState,
    all: Seq<LineView>,
    passed: Seq<BlockView>,
    every: Seq<BlockView>,
    role: Role,
    content: Seq<BlockView>,
    n: int,
    look: Look,
) -> Seq<LineView>
    decreases n,
{
    if n <= 0 {
        all
    } else {
        let before = content_lines(s, all, passed, every, role, content, n - 1, look);
        let block = content[n - 1];
        let shown_already = block matches BlockView::ToolResult(r) && called(
            passed + content.take(n - 1),
            r.tool_use_id,
        );
        if shown_already {
            before
        } else {
            added(before, block_lines(s, role, block, result_of_block(every, block), look))
        }
    }
}

fn add_message(state: &UiState, all: &mut Vec<Line>, index: usize, m: &Message, look: Look)
    requires
        index < state.messages@.len(),
        state.messages@[index as int] == UiMessage::Message(*m),
    ensures
        line::lines_view(final(all)@) == content_lines(
            *state,
            line::lines_view(old(all)@),
            all_blocks(state.messages@.take(index as int)),
            all_blocks(state.messages@),
            m.role,
            m@.content,
            m@.content.len() as int,
            look,
        ),
{
    let ghost first = line::lines_view(all@);
    let ghost passed = all_blocks(state.messages@.take(index as int));
    let ghost every = all_blocks(state.messages@);
    let ghost content = m@.content;
    let mut i: usize = 0;
    while i < m.content.len()
        invariant
            i <= m.content@.len(),
            index < state.messages@.len(),
            passed == all_blocks(state.messages@.take(index as int)),
            every == all_blocks(state.messages@),
            content == message::blocks_view(m.content@),
            line::lines_view(all@) == content_lines(
                *state,
                first,
                passed,
                every,
                m.role,
                content,
                i as int,
                look,
            ),
        decreases m.content@.len() - i,
    {
        assert(content[i as int] == m.content@[i as int]@);
        let mut shown_already = false;
        let mut result: Option<&ToolResultBlock> = None;
        match &m.content[i] {
            ContentBlock::ToolResult(tr) => {
                proof {
                    lemma_called_concat(passed, content.take(i as int), tr.tool_use_id@);
                }
                shown_already =
                is_called_in(&state.messages, index, tr.tool_use_id.as_str()) || is_called(
                    &m.content,
                    i,
                    tr.tool_use_id.as_str(),
                );
            },
            ContentBlock::ToolUse(tu) => {
                result = find_result_in(&state.messages, tu.id.as_str());
            },
            _ => {},
        }
        if !shown_already {
            let block = render_block(state, m.role, &m.content[i], result, look);
            add_block(all, block);
        }
        i = i + 1;
    }
}

/// The first `n` entries of the message area.
pub open spec fn entry_lines(s: UiState, n: int, look: Look) -> Seq<LineView>
    decreases n,
{
    if n <= 0 {
        Seq::empty()
    } else {
        let before = entry_lines(s, n - 1, look);
        match s.messages@[n - 1] {
            UiMessage::Display(d) => added(
                before,
                styled::user_block(d.text@, d.mentions@, look.width as int),
            ),
            UiMessage::Notice { text } => added(
                before,
                styled::alert_lines(text@, look.width as int, AlertKind::Notice),
            ),
            UiMessage::Warning { text } => added(
                before,
                styled::alert_lines(text@, look.width as int, AlertKind::Warning),
            ),
            UiMessage::Error { text } => added(
                before,
                styled::alert_lines(text@, look.width as int, AlertKind::Error),
            ),
            UiMessage::Message(m) => content_lines(
                s,
                before,
                all_blocks(s.messages@.take(n - 1)),
                all_blocks(s.messages@),
                m.role,
                m@.content,
                m@.content.len() as int,
                look,
            ),
        }
    }
}

/// `all` with the first `n` blocks of the message that is coming in added to it.
pub open spec fn incoming_lines(
    s: UiState,
    all: Seq<LineView>,
    content: Seq<BlockView>,
    n: int,
    look: Look,
) -> Seq<LineView>
    decreases n,
{
    if n <= 0 {
        all
    } else {
        let before = incoming_lines(s, all, content, n - 1, look);
        let block = content[n - 1];
        let shown_already = block matches BlockView::ToolResult(r) && result_at(
            content,
            r.tool_use_id,
        ) == Some(n - 1) && called(content.take(n - 1), r.tool_use_id);
        if shown_already {
            before
        } else {
            added(
                before,
                block_lines(s, Role::Assistant, block, result_of_block(content, block), look),
            )
        }
    }
}

/// All lines of the message area.
pub open spec fn shown_lines(s: UiState, look: Look) -> Seq<LineView> {
    let done = entry_lines(s, s.messages@.len() as int, look);
    match s.pending_assistant {
        Some(m) => incoming_lines(s, done, m@.content, m@.content.len() as int, look),
        None => done,
    }
}

fn add_incoming(state: &UiState, all: &mut Vec<Line>, m: &Message, look: Look)
    ensures
        line::lines_view(final(all)@) == incoming_lines(
            *state,
            line::lines_view(old(all)@),
            m@.content,
            m@.content.len() as int,
            look,
        ),
{
    let ghost first = line::lines_view(all@);
    let ghost content = m@.content;
    let mut i: usize = 0;
    while i < m.content.len()
        invariant
            i <= m.content@.len(),
            content == message::blocks_view(m.content@),
            line::lines_view(all@) == incoming_lines(*state, first, content, i as int, look),
        decreases m.content@.len() - i,
    {
        assert(content[i as int] == m.content@[i as int]@);
        let mut shown_already = false;
        let mut result: Option<&ToolResultBlock> = None;
        match &m.content[i] {
            ContentBlock::ToolResult(tr) => {
                let is_first = match find_result(&m.content, tr.tool_use_id.as_str()) {
                    Some(p) => p.0 == i,
                    None => false,
                };
                shown_already = is_first && is_called(&m.content, i, tr.tool_use_id.as_str());
            },
            ContentBlock::ToolUse(tu) => {
                result =
                match find_result(&m.content, tu.id.as_str()) {
                    Some(p) => Some(p.1),
                    None => None,
                };
            },
            _ => {},
        }
        if !shown_already {
            let block = render_block(state, Role::Assistant, &m.content[i], result, look);
            add_block(all, block);
        }
        i = i + 1;
    }
}

pub fn build_message_lines(state: &UiState, look: Look) -> (r: Vec<Line>)
    ensures
        line::lines_view(r@) == shown_lines(*state, look),
{
    let mut all: Vec<Line> = Vec::new();
    assert(line::lines_view(all@) =~= Seq::<LineView>::empty());
    let mut i: usize = 0;
    while i < state.messages.len()
        invariant
            i <= state.messages@.len(),
            line::lines_view(all@) == entry_lines(*state, i as int, look),
        decreases state.messages@.len() - i,
    {
        match &state.messages[i] {
            UiMessage::Display(d) => {
                let block = styled::build_display_message_lines(d, look.width);
                add_block(&mut all, block);
            },
            UiMessage::Notice { text } => {
                let block = styled::build_alert_lines(
                    text.as_str(),
                    look.width,
                    AlertKind::Notice,
                );
                add_block(&mut all, block);
            },
            UiMessage::Warning { text } => {
                let block = styled::build_alert_lines(
                    text.as_str(),
                    look.width,
                    AlertKind::Warning,
                );
                add_block(&mut all, block);
            },
            UiMessage::Error { text } => {
                let block = styled::build_alert_lines(text.as_str(), look.width, AlertKind::Error);
                add_block(&mut all, block);
            },
            UiMessage::Message(m) => {
                add_message(state, &mut all, i, m, look);
            },
        }
        i = i + 1;
    }
    if let Some(m) = &state.pending_assistant {
        add_incoming(state, &mut all, m, look);
    }
    all
}

/// Where the messages are scrolled to, counted in lines from the bottom, once there are `total`
/// lines where there were `prev`: what the user reads stays in place while lines come in below
/// it, and nothing is scrolled out of sight altogether.
pub open spec fn scrolled_to(
    offset: int,
    prev: int,
    total: int,
    height: int,
    auto_scroll: bool,
) -> int {
    let moved = if auto_scroll {
        offset
    } else {
        text::min_int(offset + text::minus(total, prev), usize::MAX as int)
    };
    text::min_int(moved, text::minus(total, height))
}

/// The line at the top of the message area.
pub open spec fn top_line(offset: int, total: int, height: int) -> int {
    text::minus(total, height) - offset
}

/// While the user reads older messages, lines that come in below do not move what they read.
pub proof fn law_reading_place_is_kept(offset: int, prev: int, total: int, height: int)
    requires
        0 <= height <= prev <= total <= usize::MAX,
        0 <= offset <= prev - height,
    ensures
        top_line(scrolled_to(offset, prev, total, height, false), total, height) == top_line(
            offset,
            prev,
            height,
        ),
{
}

/// At the bottom the newest line is the last one in sight.
pub proof fn law_bottom_shows_the_newest(total: int, height: int)
    requires
        0 <= height <= total,
    ensures
        top_line(scrolled_to(0, total, total, height, true), total, height) + height == total,
{
}

/// The columns of line `row` that are selected.
pub open spec fn selected_columns(
    selected: Option<TextSelection>,
    row: int,
    s: Seq<char>,
) -> Option<(int, int)> {
    match selected {
        None => None,
        Some(sel) => if sel.start == sel.end {
            None
        } else {
            let (start, end) = if selection::not_after(sel.start, sel.end) {
                (sel.start, sel.end)
            } else {
                (sel.end, sel.start)
            };
            let from = if row == start.row {
                start.col as int
            } else {
                0
            };
            let to = if row == end.row {
                text::min_int(end.col + 1, usize::MAX as int)
            } else {
                width::unicode_str_width(s) as int
            };
            if start.row <= row <= end.row && from < to {
                Some((from, to))
            } else {
                None
            }
        },
    }
}

pub fn selected_cols_for_line(selected: Option<TextSelection>, row: usize, s: &str) -> (r: Option<
    (usize, usize),
>)
    ensures
        match r {
            Some(p) => selected_columns(selected, row as int, s@) == Some((p.0 as int, p.1 as int)),
            None => selected_columns(selected, row as int, s@) is None,
        },
{
    match selected {
        None => None,
        Some(sel) => {
            let a = sel.start;
            let b = sel.end;
            if a.row == b.row && a.col == b.col {
                return None;
            }
            let forward = a.row < b.row || (a.row == b.row && a.col <= b.col);
            let (start, end): (SelectionPoint, SelectionPoint) = if forward {
                (a, b)
            } else {
                (b, a)
            };
            if row < start.row || row > end.row {
                return None;
            }
            let from: usize = if row == start.row {
                start.col
            } else {
                0
            };
            let to: usize = if row == end.row {
                end.col.saturating_add(1)
            } else {
                width::str_width(s)
            };
            if from < to {
                Some((from, to))
            } else {
                None
            }
        },
    }
}

#[verifier::allow_in_spec]
pub fn highlight_style() -> (r: Style)
    returns
        (Style {
            fg: Some(Color::Rgb(40, 44, 52)),
            bg: Some(Color::Rgb(180, 210, 255)),
            bold: true,
            italic: false,
        }),
{
    line::bold(line::colors(Color::Rgb(40, 44, 52), Color::Rgb(180, 210, 255)))
}

/// A text in no style but for what takes up any of the columns from `from` up to `to`.
pub open spec fn marked(s: Seq<char>, from: int, to: int) -> Seq<SpanView>
    decreases s.len(),
{
    if s.len() == 0 {
        Seq::empty()
    } else {
        let start = width::columns(s.drop_last());
        let end = start + width::char_columns(s.last());
        line::with_char(
            marked(s.drop_last(), from, to),
            s.last(),
            if end > from && start < to {
                highlight_style()
            } else {
                line::plain()
            },
        )
    }
}

pub fn highlighted_line(s: &str, from: usize, to: usize, bg: Option<Color>) -> (r: Line)
    ensures
        r@ == (LineView { spans: marked(s@, from as int, to as int), bg }),
{
    let chars = text::chars_of(s);
    let ghost t = s@;
    let n: usize = chars.len();
    let mut spans: Vec<Span> = Vec::new();
    let mut col: u128 = 0;
    let mut i: usize = 0;
    assert(t.take(0) =~= Seq::<char>::empty());
    assert(line::spans_view(spans@) =~= Seq::<SpanView>::empty());
    while i < n
        invariant
            chars@ == t,
            n == chars@.len(),
            i <= n,
            col <= 3 * i,
            col == width::columns(t.take(i as int)),
            line::spans_view(spans@) == marked(t.take(i as int), from as int, to as int),
        decreases n - i,
    {
        assert(t.take(i + 1).drop_last() =~= t.take(i as int));
        assert(t.take(i + 1).last() == chars@[i as int]);
        let next: u128 = col + width::char_width(chars[i]) as u128;
        let style = if next > from as u128 && col < to as u128 {
            highlight_style()
        } else {
            line::plain()
        };
        line::push_char_span(&mut spans, chars[i], style);
        col = next;
        i = i + 1;
    }
    assert(t.take(i as int) =~= t);
    Line { spans, bg }
}

/// The lines with the selected part of those in sight marked.
pub open spec fn with_selection(
    lines: Seq<LineView>,
    selected: Option<TextSelection>,
    top: int,
    height: int,
) -> Seq<LineView> {
    Seq::new(
        lines.len(),
        |i: int|
            {
                let s = line::text_of(lines[i].spans);
                match selected_columns(selected, i, s) {
                    Some(p) => if top <= i < top + height {
                        LineView { spans: marked(s, p.0, p.1), bg: lines[i].bg }
                    } else {
                        lines[i]
                    },
                    None => lines[i],
                }
            },
    )
}

pub fn apply_text_selection_highlight(
    lines: &mut Vec<Line>,
    selected: Option<TextSelection>,
    top: usize,
    height: usize,
)
    ensures
        line::lines_view(final(lines)@) == with_selection(
            line::lines_view(old(lines)@),
            selected,
            top as int,
            height as int,
        ),
{
    let ghost all = line::lines_view(lines@);
    let ghost goal = with_selection(all, selected, top as int, height as int);
    let n: usize = lines.len();
    let mut i: usize = 0;
    while i < n
        invariant
            i <= n == lines@.len(),
            n == all.len(),
            goal == with_selection(all, selected, top as int, height as int),
            forall|k: int|
                0 <= k < n ==> #[trigger] lines@[k]@ == (if k < i {
                    goal[k]
                } else {
                    all[k]
                }),
        decreases n - i,
    {
        let ghost before = lines@;
        assert(lines@[i as int]@ == all[i as int]);
        if i >= top && i - top < height {
            let s = line::line_to_plain_text(&lines[i]);
            if let Some(p) = selected_cols_for_line(selected, i, s.as_str()) {
                let bg = lines[i].bg;
                let l = highlighted_line(s.as_str(), p.0, p.1, bg);
                lines.set(i, l);
            }
        }
        assert(lines@[i as int]@ == goal[i as int]);
        i = i + 1;
        assert forall|k: int| 0 <= k < n implies #[trigger] lines@[k]@ == (if k < i {
            goal[k]
        } else {
            all[k]
        }) by {
            assert(k != i - 1 ==> lines@[k] == before[k]);
        }
    }
    assert(line::lines_view(lines@) =~= goal);
}

/// The message area as it is to be drawn: its lines, and the one at the top.
#[derive(Debug, PartialEq, Eq)]
pub struct DrawnMessages {
    pub lines: Vec<Line>,
    pub top: usize,
}

/// The text of every line.
pub open spec fn line_texts(lines: Seq<LineView>) -> Seq<Seq<char>> {
    Seq::new(lines.len(), |i: int| line::text_of(lines[i].spans))
}

fn texts_of(lines: &Vec<Line>) -> (r: Vec<String>)
    ensures
        text::views(r@) == line_texts(line::lines_view(lines@)),
{
    let mut out: Vec<String> = Vec::new();
    let mut i: usize = 0;
    while i < lines.len()
        invariant
            i <= lines@.len(),
            out@.len() == i,
            forall|k: int|
                0 <= k < i ==> #[trigger] out@[k]@ == line::text_of(lines@[k]@.spans),
        decreases lines@.len() - i,
    {
        out.push(line::line_to_plain_text(&lines[i]));
        i = i + 1;
    }
    assert(text::views(out@) =~= line_texts(line::lines_view(lines@)));
    out
}

/// Whether there is nothing to show.
pub open spec fn nothing_to_show(s: UiState) -> bool {
    s.messages@.len() == 0 && s.pending_assistant is None
}

/// What drawing the messages leaves in the state.
pub open spec fn messages_drawn(pre: UiState, look: Look, height: int, post: UiState) -> bool {
    let lines = shown_lines(pre, look);
    let total = lines.len() as int;
    if nothing_to_show(pre) {
        &&& post == (UiState {
            selectable_message_lines: post.selectable_message_lines,
            message_scroll_y: 0,
            ..pre
        })
        &&& post.selectable_message_lines@.len() == 0
    } else if total == 0 {
        post == (UiState { total_lines: 0, ..pre })
    } else {
        let offset = scrolled_to(
            pre.scroll_offset as int,
            pre.total_lines as int,
            total,
            height,
            pre.auto_scroll,
        );
        &&& post == (UiState {
            total_lines: total as usize,
            scroll_offset: offset as usize,
            selectable_message_lines: post.selectable_message_lines,
            message_scroll_y: top_line(offset, total, height) as usize,
            ..pre
        })
        &&& text::views(post.selectable_message_lines@) == line_texts(lines)
    }
}

/// Lays the messages out in an area of the given height, and scrolls them. Nothing is drawn
/// where there is no line to draw.
pub fn render_messages(state: &mut UiState, look: Look, height: usize) -> (r: Option<DrawnMessages>)
    ensures
        messages_drawn(*old(state), look, height as int, *final(state)),
        r is None <==> nothing_to_show(*old(state)) || shown_lines(*old(state), look).len() == 0,
        r matches Some(d) ==> {
            &&& d.top == final(state).message_scroll_y
            &&& line::lines_view(d.lines@) == with_selection(
                shown_lines(*old(state), look),
                old(state).text_selection,
                d.top as int,
                height as int,
            )
            &&& d.top == 0 || d.top + height <= d.lines@.len()
        },
{
    if state.messages.len() == 0 && state.pending_assistant.is_none() {
        state.selectable_message_lines = Vec::new();
        state.message_scroll_y = 0;
        return None;
    }
    let mut lines = build_message_lines(state, look);
    let total: usize = lines.len();
    assert(shown_lines(*state, look).len() == total);
    let prev: usize = state.total_lines;
    state.total_lines = total;
    if total == 0 {
        return None;
    }
    if !state.auto_scroll {
        let delta: usize = total.saturating_sub(prev);
        state.scroll_offset = state.scroll_offset.saturating_add(delta);
    }
    let max_scroll: usize = total.saturating_sub(height);
    let capped: usize = text::min_usize(state.scroll_offset, max_scroll);
    state.scroll_offset = capped;
    let top: usize = max_scroll - capped;
    state.selectable_message_lines = texts_of(&lines);
    state.message_scroll_y = top;
    apply_text_selection_highlight(&mut lines, state.text_selection, top, height);
    assert(line::lines_view(lines@).len() == lines@.len());
    Some(DrawnMessages { lines, top })
}

} // verus!
