//! What a subagent looks like among the messages.
use crate::text;
use crate::tui::line;
use crate::tui::line::Color;
use crate::tui::line::Line;
use crate::tui::line::LineView;
use crate::tui::line::Span;
use crate::tui::line::SpanView;
use crate::tui::line::Style;
use crate::tui::line::Wave;
use crate::tui::render::labels;
use crate::tui::state::SubagentNode;
use crate::tui::widgets;
use crate::tui::widgets::wrap;
use crate::tui::widgets::wrap::word_wrap;
use crate::types::events::SubagentStatus;
use crate::types::message;
use crate::types::message::BlockView;
use crate::types::message::ContentBlock;
use crate::types::message::MessageView;
use crate::types::message::ToolResultBlock;
use crate::types::message::ToolResultView;
use crate::types::message::ToolUseBlock;
use crate::types::message::ToolUseView;
use crate::width;
use vstd::prelude::*;

verus! {

/// From how many tools on those in the middle are left out.
pub const MANY_TOOLS: usize = 6;

#[verifier::allow_in_spec]
pub fn dim_style() -> (r: Style)
    returns
        (Style {
            fg: Some(Color::Rgb(140, 145, 155)),
            bg: None,
            bold: false,
            italic: false,
        }),
{
    line::rgb(140, 145, 155)
}

/// Whether a tool with the id `id` is among `tools`.
pub open spec fn has_tool(tools: Seq<ToolUseView>, id: Seq<char>) -> bool {
    exists|i: int| 0 <= i < tools.len() && (#[trigger] tools[i]).id == id
}

/// `tools` and those of the first `n` blocks that are not among them yet.
pub open spec fn with_tools(tools: Seq<ToolUseView>, blocks: Seq<BlockView>, n: int) -> Seq<
    ToolUseView,
>
    decreases n,
{
    if n <= 0 {
        tools
    } else {
        let before = with_tools(tools, blocks, n - 1);
        match blocks[n - 1] {
            BlockView::ToolUse(t) => if has_tool(before, t.id) {
                before
            } else {
                before.push(t)
            },
            _ => before,
        }
    }
}

/// The tools that the first `n` messages use, each once.
pub open spec fn tools_of(messages: Seq<MessageView>, n: int) -> Seq<ToolUseView>
    decreases n,
{
    if n <= 0 {
        Seq::empty()
    } else {
        with_tools(
            tools_of(messages, n - 1),
            messages[n - 1].content,
            messages[n - 1].content.len() as int,
        )
    }
}

proof fn lemma_with_tools_distinct(tools: Seq<ToolUseView>, blocks: Seq<BlockView>, n: int)
    requires
        n <= blocks.len(),
        distinct_tools(tools),
    ensures
        distinct_tools(with_tools(tools, blocks, n)),
    decreases n,
{
    if n > 0 {
        lemma_with_tools_distinct(tools, blocks, n - 1);
    }
}

pub open spec fn distinct_tools(tools: Seq<ToolUseView>) -> bool {
    forall|i: int, j: int|
        0 <= i < j < tools.len() ==> (#[trigger] tools[i]).id != (#[trigger] tools[j]).id
}

/// No tool of a subagent is shown twice.
pub proof fn law_each_tool_once(messages: Seq<MessageView>, n: int)
    requires
        n <= messages.len(),
    ensures
        distinct_tools(tools_of(messages, n)),
    decreases n,
{
    if n > 0 {
        law_each_tool_once(messages, n - 1);
        lemma_with_tools_distinct(
            tools_of(messages, n - 1),
            messages[n - 1].content,
            messages[n - 1].content.len() as int,
        );
    }
}

pub open spec fn uses_view(v: Seq<&ToolUseBlock>) -> Seq<ToolUseView> {
    Seq::new(v.len(), |i: int| v[i]@)
}

fn knows_tool(tools: &Vec<&ToolUseBlock>, id: &str) -> (r: bool)
    ensures
        r == has_tool(uses_view(tools@), id@),
{
    let ghost v = uses_view(tools@);
    let mut i: usize = 0;
    while i < tools.len()
        invariant
            i <= tools@.len(),
            v == uses_view(tools@),
            forall|k: int| 0 <= k < i ==> (#[trigger] v[k]).id != id@,
        decreases tools@.len() - i,
    {
        if text::same(tools[i].id.as_str(), id) {
            assert(v[i as int].id == id@);
            return true;
        }
        i = i + 1;
    }
    false
}

fn add_tools<'a>(tools: &mut Vec<&'a ToolUseBlock>, blocks: &'a Vec<ContentBlock>)
    ensures
        uses_view(final(tools)@) == with_tools(
            uses_view(old(tools)@),
            message::blocks_view(blocks@),
            blocks@.len() as int,
        ),
{
    let ghost first = uses_view(tools@);
    let ghost b = message::blocks_view(blocks@);
    let mut i: usize = 0;
    while i < blocks.len()
        invariant
            i <= blocks@.len(),
            b == message::blocks_view(blocks@),
            uses_view(tools@) == with_tools(first, b, i as int),
        decreases blocks@.len() - i,
    {
        let ghost before = uses_view(tools@);
        assert(b[i as int] == blocks@[i as int]@);
        if let ContentBlock::ToolUse(t) = &blocks[i] {
            if !knows_tool(tools, t.id.as_str()) {
                tools.push(t);
                assert(uses_view(tools@) =~= before.push(t@));
            }
        }
        i = i + 1;
    }
}

fn collect_tools(node: &SubagentNode) -> (r: Vec<&ToolUseBlock>)
    ensures
        uses_view(r@) == tools_of(
            message::messages_view(node.messages@),
            node.messages@.len() as int,
        ),
{
    let ghost m = message::messages_view(node.messages@);
    let mut tools: Vec<&ToolUseBlock> = Vec::new();
    assert(uses_view(tools@) =~= Seq::<ToolUseView>::empty());
    let mut i: usize = 0;
    while i < node.messages.len()
        invariant
            i <= node.messages@.len(),
            m == message::messages_view(node.messages@),
            uses_view(tools@) == tools_of(m, i as int),
        decreases node.messages@.len() - i,
    {
        assert(m[i as int] == node.messages@[i as int]@);
        add_tools(&mut tools, &node.messages[i].content);
        i = i + 1;
    }
    tools
}

/// A tool of a subagent on one line.
pub open spec fn tool_row(
    tool: ToolUseView,
    first: bool,
    content_width: int,
    project_dir: Option<Seq<char>>,
) -> LineView {
    let head = seq![
        line::raw(
            if first {
                "  └─ "@
            } else {
                "     "@
            },
        ),
        line::sp(labels::tool_label(tool.name), line::rgb(220, 220, 225)),
    ];
    line::of_spans(
        match labels::tool_summary(tool, project_dir) {
            Some(s) => head.push(line::raw(" "@)).push(
                line::sp(width::cut_with_dots(s, text::minus(content_width, 10)), dim_style()),
            ),
            None => head,
        },
    )
}

fn tool_line(
    tool: &ToolUseBlock,
    first: bool,
    content_width: usize,
    project_dir: Option<&str>,
) -> (r: Line)
    ensures
        r@ == tool_row(tool@, first, content_width as int, widgets::opt_str_view(project_dir)),
{
    let prefix = if first {
        "  └─ "
    } else {
        "     "
    };
    let name = labels::format_tool_label(tool.name.as_str());
    let l = line::line2(line::raw_span(prefix), line::span_of(name, line::rgb(220, 220, 225)));
    let mut spans = l.spans;
    if let Some(summary) = labels::subagent_tool_summary(tool, project_dir) {
        let short = width::truncate_str(summary.as_str(), content_width.saturating_sub(10));
        line::push_span(&mut spans, line::raw_span(" "));
        line::push_span(&mut spans, line::span_of(short, dim_style()));
    }
    line::line_of(spans)
}

/// The first `n` tools: of many, the first three and the last three with dots between them.
pub open spec fn tool_rows(
    tools: Seq<ToolUseView>,
    n: int,
    content_width: int,
    project_dir: Option<Seq<char>>,
) -> Seq<LineView>
    decreases n,
{
    if n <= 0 {
        Seq::empty()
    } else {
        let i = n - 1;
        let before = tool_rows(tools, n - 1, content_width, project_dir);
        let many = tools.len() > MANY_TOOLS;
        let marked = if many && i == 3 {
            before.push(line::of_spans(seq![line::raw("     "@), line::sp("..."@, dim_style())]))
        } else {
            before
        };
        if many && 3 <= i < tools.len() - 3 {
            marked
        } else {
            marked.push(tool_row(tools[i], i == 0, content_width, project_dir))
        }
    }
}

fn push_tool_rows(
    lines: &mut Vec<Line>,
    tools: &Vec<&ToolUseBlock>,
    content_width: usize,
    project_dir: Option<&str>,
)
    ensures
        line::lines_view(final(lines)@) == line::lines_view(old(lines)@) + tool_rows(
            uses_view(tools@),
            tools@.len() as int,
            content_width as int,
            widgets::opt_str_view(project_dir),
        ),
{
    let ghost before = line::lines_view(lines@);
    let ghost t = uses_view(tools@);
    let ghost cw = content_width as int;
    let ghost dir = widgets::opt_str_view(project_dir);
    let total: usize = tools.len();
    let many = total > MANY_TOOLS;
    let mut i: usize = 0;
    assert(before + tool_rows(t, 0, cw, dir) =~= before);
    while i < total
        invariant
            i <= total == tools@.len(),
            t == uses_view(tools@),
            cw == content_width,
            dir == widgets::opt_str_view(project_dir),
            many == (total > MANY_TOOLS),
            line::lines_view(lines@) == before + tool_rows(t, i as int, cw, dir),
        decreases total - i,
    {
        if many && i == 3 {
            line::push_line(
                lines,
                line::line2(line::raw_span("     "), line::span("...", dim_style())),
            );
        }
        if !(many && i >= 3 && i < total - 3) {
            line::push_line(lines, tool_line(tools[i], i == 0, content_width, project_dir));
        }
        assert(line::lines_view(lines@) =~= before + tool_rows(t, i + 1, cw, dir));
        i = i + 1;
    }
}

/// The error that a subagent ended with, indented.
pub open spec fn error_lines(
    result: Option<ToolResultView>,
    content_width: int,
) -> Seq<LineView> {
    match result {
        Some(r) => if r.is_error {
            let content = if text::trimmed(r.content).len() == 0 {
                "Subagent failed"@
            } else {
                text::trimmed(r.content)
            };
            widgets::prefixed(
                wrap::wrapped(content, text::max_int(text::minus(content_width, 2), 1)),
                seq![line::raw("  "@)],
                line::rgb(255, 100, 100),
            )
        } else {
            Seq::empty()
        },
        None => Seq::empty(),
    }
}

pub fn push_subagent_error_lines(
    lines: &mut Vec<Line>,
    result: Option<&ToolResultBlock>,
    content_width: usize,
)
    ensures
        line::lines_view(final(lines)@) == line::lines_view(old(lines)@) + error_lines(
            widgets::opt_result_view(result),
            content_width as int,
        ),
{
    let ghost before = line::lines_view(lines@);
    if let Some(tr) = result {
        if tr.is_error {
            let bare = text::trim(tr.content.as_str());
            let content = if text::char_count(bare.as_str()) == 0 {
                text::copy("Subagent failed")
            } else {
                bare
            };
            let indent = "  ";
            proof {
                reveal_strlit("  ");
            }
            let room: usize = content_width.saturating_sub(width::str_width(indent));
            let texts = word_wrap(content.as_str(), text::max_usize(room, 1));
            let prefix = line::line1(line::raw_span(indent));
            widgets::push_prefixed(lines, &texts, &prefix.spans, line::rgb(255, 100, 100));
            return;
        }
    }
    assert(line::lines_view(lines@) =~= before + Seq::<LineView>::empty());
}

/// The name that a subagent goes by.
pub open spec fn name_of(tool: ToolUseView, node: Option<SubagentNode>) -> Seq<char> {
    match node {
        Some(n) => n.agent_label@,
        None => widgets::input_text_or(tool.input, "name"@, "Subagent"@),
    }
}

/// The heading: the name, moving while the subagent runs, and the title as far as it fits.
pub open spec fn heading(
    tool: ToolUseView,
    node: Option<SubagentNode>,
    content_width: int,
) -> Seq<SpanView> {
    let label = labels::agent_label(name_of(tool, node));
    let running = match node {
        Some(n) => n.status == SubagentStatus::Running,
        None => true,
    };
    let style = if running {
        line::colored(Color::Moving(Wave::Subagent))
    } else {
        line::bold(line::rgb(0x42, 0xd9, 0xe8))
    };
    let head = seq![line::raw("· "@), line::sp(label, style)];
    let title = text::trimmed(widgets::input_text_or(tool.input, "title"@, Seq::empty()));
    let room = text::minus(content_width, line::spans_width(head) + 3);
    if title.len() > 0 && room >= 8 {
        head.push(line::sp(" · "@, dim_style())).push(
            line::sp(width::cut_with_ellipsis(title, room), dim_style()),
        )
    } else {
        head
    }
}

fn heading_spans(
    tool: &ToolUseBlock,
    node: Option<&SubagentNode>,
    content_width: usize,
) -> (r: Vec<Span>)
    ensures
        line::spans_view(r@) == heading(
            tool@,
            (match node {
                Some(n) => Some(*n),
                None => None,
            }),
            content_width as int,
        ),
{
    proof {
        reveal_strlit("");
        assert(""@ =~= Seq::<char>::empty());
    }
    let name = match node {
        Some(n) => text::copy(n.agent_label.as_str()),
        None => widgets::text_input_or(&tool.input, "name", "Subagent"),
    };
    let label = labels::format_subagent_label(name.as_str());
    let running = match node {
        Some(n) => n.status == SubagentStatus::Running,
        None => true,
    };
    let style = if running {
        line::colored(Color::Moving(Wave::Subagent))
    } else {
        line::bold(line::rgb(0x42, 0xd9, 0xe8))
    };
    let l = line::line2(line::raw_span("· "), line::span_of(label, style));
    let mut spans = l.spans;
    proof {
        line::lemma_spans_width_nonneg(line::spans_view(spans@));
    }
    let full = widgets::text_input_or(&tool.input, "title", "");
    let title = text::trim(full.as_str());
    let used: usize = line::width_of_spans(&spans).saturating_add(3);
    let room: usize = content_width.saturating_sub(used);
    if text::char_count(title.as_str()) > 0 && room >= 8 {
        let short = width::truncate_to_width(title.as_str(), room);
        line::push_span(&mut spans, line::span(" · ", dim_style()));
        line::push_span(&mut spans, line::span_of(short, dim_style()));
    }
    spans
}

/// A subagent: its heading, the tools that it uses, and the error that it ended with.
pub open spec fn subagent_lines(
    tool: ToolUseView,
    result: Option<ToolResultView>,
    node: Option<SubagentNode>,
    content_width: int,
    project_dir: Option<Seq<char>>,
) -> Seq<LineView> {
    let head = seq![line::of_spans(heading(tool, node, content_width))];
    let rows = match node {
        Some(n) => {
            let tools = tools_of(
                message::messages_view(n.messages@),
                n.messages@.len() as int,
            );
            tool_rows(tools, tools.len() as int, content_width, project_dir)
        },
        None => Seq::empty(),
    };
    head + rows + error_lines(result, content_width)
}

pub fn render_subagent_tool(
    tool_use: &ToolUseBlock,
    result: Option<&ToolResultBlock>,
    node: Option<&SubagentNode>,
    content_width: usize,
    project_dir: Option<&str>,
) -> (r: Vec<Line>)
    ensures
        line::lines_view(r@) == subagent_lines(
            tool_use@,
            widgets::opt_result_view(result),
            (match node {
                Some(n) => Some(*n),
                None => None,
            }),
            content_width as int,
            widgets::opt_str_view(project_dir),
        ),
{
    let mut lines: Vec<Line> = Vec::new();
    assert(line::lines_view(lines@) =~= Seq::<LineView>::empty());
    line::push_line(
        &mut lines,
        line::line_of(heading_spans(tool_use, node, content_width)),
    );
    let ghost head = line::lines_view(lines@);
    match node {
        Some(n) => {
            let tools = collect_tools(n);
            assert(uses_view(tools@).len() == tools@.len());
            push_tool_rows(&mut lines, &tools, content_width, project_dir);
        },
        None => {
            assert(head + Seq::<LineView>::empty() =~= head);
        },
    }
    push_subagent_error_lines(&mut lines, result, content_width);
    assert(line::lines_view(lines@) =~= subagent_lines(
        tool_use@,
        widgets::opt_result_view(result),
        (match node {
            Some(n) => Some(*n),
            None => None,
        }),
        content_width as int,
        widgets::opt_str_view(project_dir),
    ));
    lines
}

} // verus!
