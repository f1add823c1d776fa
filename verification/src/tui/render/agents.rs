//! The panel on which the user looks at agents and changes them.
use crate::text;
use crate::tui::line;
use crate::tui::line::Color;
use crate::tui::line::Line;
use crate::tui::line::LineView;
use crate::tui::line::Span;
use crate::tui::line::SpanView;
use crate::tui::line::Style;
use crate::tui::line::Wave;
use crate::tui::render::editor;
use crate::tui::render::model_panel;
use crate::tui::render::permission;
use crate::tui::state::agents;
use crate::tui::state::agents::AgentCreateStep;
use crate::tui::state::agents::AgentEditorDraft;
use crate::tui::state::agents::AgentEditorField;
use crate::tui::state::agents::AgentManagerState;
use crate::tui::state::agents::AgentManagerView;
use crate::tui::state::agents::AgentModelEntry;
use crate::tui::state::Rect;
use crate::tui::widgets;
use crate::tui::widgets::wrap;
use crate::tui::widgets::wrap::word_wrap;
use crate::types::events::AgentRecord;
use crate::width;
use vstd::prelude::*;

verus! {

pub const AGENT_TOOLS_SECTION_LINES: usize = 21;

pub const AGENT_EDIT_CONTENT_INSTRUCTIONS_MAX_LINES: usize = 10;

pub const AGENT_DESCRIPTION_MAX_LINES: usize = 3;

/// How many agents, and how many models, are listed at a time.
pub const LISTED_AGENTS: usize = 18;

pub const LISTED_MODELS: usize = 20;

/// The lines above every page of the panel.
pub const PANEL_PREFIX_LINES: usize = 2;

pub const DESCRIPTION_HINT: &'static str = "例如：擅长翻译 Rust 代码注释，只读取必要文件，保持代码不变。";

pub const INSTRUCTIONS_HINT: &'static str = "输入 agent 的系统指令。";

pub const UNSET: &'static str = "未填写";

/// The style of a line that can be selected.
#[verifier::allow_in_spec]
pub fn selectable_style(selected: bool) -> (r: Style)
    returns
        (if selected {
            Style { fg: Some(Color::Rgb(0x42, 0xd9, 0xe8)), bg: None, bold: true, italic: false }
        } else {
            Style { fg: Some(Color::Rgb(0xa5, 0xac, 0xb6)), bg: None, bold: false, italic: false }
        }),
{
    if selected {
        permission::chosen()
    } else {
        line::rgb(0xa5, 0xac, 0xb6)
    }
}

/// What stands in front of a line that can be selected.
pub open spec fn pointer(selected: bool) -> Seq<char> {
    if selected {
        "❯"@
    } else {
        " "@
    }
}

fn pointer_text(selected: bool) -> (r: &'static str)
    ensures
        r@ == pointer(selected),
{
    if selected {
        "❯"
    } else {
        " "
    }
}

pub open spec fn one(s: Seq<char>, style: Style) -> LineView {
    line::of_spans(seq![line::sp(s, style)])
}

fn one_line(s: &str, style: Style) -> (r: Line)
    ensures
        r@ == one(s@, style),
{
    line::line1(line::span(s, style))
}

/// The heading of a section.
pub open spec fn section(label: Seq<char>) -> LineView {
    one(label, line::bold(permission::gray()))
}

pub fn push_agent_section(lines: &mut Vec<Line>, label: &str)
    ensures
        line::lines_view(final(lines)@) == line::lines_view(old(lines)@).push(section(label@)),
{
    line::push_line(lines, one_line(label, line::bold(permission::gray())));
}

/// A value behind its label.
pub open spec fn labelled(label: Seq<char>, value: Seq<char>) -> LineView {
    line::of_spans(seq![line::sp(label, permission::gray()), line::raw(value)])
}

fn labelled_line(label: &str, value: &str) -> (r: Line)
    ensures
        r@ == labelled(label@, value@),
{
    line::line2(line::span(label, permission::gray()), line::raw_span(value))
}

fn push_blank(lines: &mut Vec<Line>)
    ensures
        line::lines_view(final(lines)@) == line::lines_view(old(lines)@).push(line::blank()),
{
    line::push_line(lines, line::empty_line());
}

/// Free lines.
pub open spec fn blanks(n: int) -> Seq<LineView> {
    Seq::new(n as nat, |i: int| line::blank())
}

fn push_blanks(lines: &mut Vec<Line>, n: usize)
    ensures
        line::lines_view(final(lines)@) == line::lines_view(old(lines)@) + blanks(n as int),
{
    let ghost before = line::lines_view(lines@);
    let mut i: usize = 0;
    assert(before =~= before + blanks(0));
    while i < n
        invariant
            i <= n,
            line::lines_view(lines@) == before + blanks(i as int),
        decreases n - i,
    {
        push_blank(lines);
        assert(before + blanks(i + 1) =~= (before + blanks(i as int)).push(line::blank()));
        i = i + 1;
    }
}

/// The names of tools, in a list.
pub open spec fn tool_names(tools: Seq<String>) -> Seq<char> {
    if tools.len() == 0 {
        "无"@
    } else {
        text::joined(text::views(tools), ", "@)
    }
}

pub fn format_tool_names(tools: &Vec<String>) -> (r: String)
    ensures
        r@ == tool_names(tools@),
{
    if tools.len() == 0 {
        text::copy("无")
    } else {
        text::join(tools, ", ")
    }
}

/// Which tools an agent may use, in words.
pub open spec fn tool_words(tools: Seq<String>, disallow: Seq<String>) -> Seq<char> {
    if tools.len() == 0 {
        if disallow.len() == 0 {
            "继承全部"@
        } else {
            "继承全部，禁用 "@ + tool_names(disallow)
        }
    } else {
        "仅允许 "@ + tool_names(tools)
    }
}

pub fn agent_tool_summary_text(tools: &Vec<String>, disallow_tools: &Vec<String>) -> (r: String)
    ensures
        r@ == tool_words(tools@, disallow_tools@),
{
    if tools.len() == 0 {
        if disallow_tools.len() == 0 {
            text::copy("继承全部")
        } else {
            let names = format_tool_names(disallow_tools);
            text::concat("继承全部，禁用 ", names.as_str())
        }
    } else {
        let names = format_tool_names(tools);
        text::concat("仅允许 ", names.as_str())
    }
}

/// Which tools an agent may use, on one line or two.
pub open spec fn tool_summary(tools: Seq<String>, disallow: Seq<String>) -> Seq<LineView> {
    let first = seq![labelled("工具  "@, tool_words(tools, disallow))];
    if tools.len() > 0 && disallow.len() > 0 {
        first.push(labelled("禁用  "@, tool_names(disallow)))
    } else {
        first
    }
}

pub fn push_agent_tool_summary(
    lines: &mut Vec<Line>,
    tools: &Vec<String>,
    disallow_tools: &Vec<String>,
)
    ensures
        line::lines_view(final(lines)@) == line::lines_view(old(lines)@) + tool_summary(
            tools@,
            disallow_tools@,
        ),
{
    let ghost before = line::lines_view(lines@);
    let words = agent_tool_summary_text(tools, disallow_tools);
    line::push_line(lines, labelled_line("工具  ", words.as_str()));
    if tools.len() > 0 && disallow_tools.len() > 0 {
        let names = format_tool_names(disallow_tools);
        line::push_line(lines, labelled_line("禁用  ", names.as_str()));
    }
    assert(line::lines_view(lines@) =~= before + tool_summary(tools@, disallow_tools@));
}

/// The lines that the summary of the tools takes.
pub open spec fn summary_rows(tools: Seq<String>, disallow: Seq<String>) -> int {
    if tools.len() == 0 || disallow.len() == 0 {
        1
    } else {
        2
    }
}

pub fn agent_tool_summary_line_count(tools: &Vec<String>, disallow_tools: &Vec<String>) -> (r:
    usize)
    ensures
        r == summary_rows(tools@, disallow_tools@),
{
    if tools.len() == 0 || disallow_tools.len() == 0 {
        1
    } else {
        2
    }
}

/// The summary takes as many lines as are reckoned with.
pub proof fn law_summary_rows(tools: Seq<String>, disallow: Seq<String>)
    ensures
        tool_summary(tools, disallow).len() == summary_rows(tools, disallow),
{
}

pub open spec fn model_words(model: Option<String>) -> Seq<char> {
    match model {
        Some(m) => m@,
        None => "继承主会话模型"@,
    }
}

pub fn format_agent_model(model: &Option<String>) -> (r: String)
    ensures
        r@ == model_words(*model),
{
    match model {
        Some(m) => text::copy(m.as_str()),
        None => text::copy("继承主会话模型"),
    }
}

/// A choice that can be selected.
pub open spec fn choice(selected: bool, label: Seq<char>) -> LineView {
    one(pointer(selected) + " "@ + label, selectable_style(selected))
}

fn choice_line(selected: bool, label: &str) -> (r: Line)
    ensures
        r@ == choice(selected, label@),
{
    let mut t = text::concat(pointer_text(selected), " ");
    t.push_str(label);
    line::line1(line::span_of(t, selectable_style(selected)))
}

/// A choice with what it means.
pub open spec fn explained(selected: bool, label: Seq<char>, desc: Seq<char>) -> LineView {
    one(
        pointer(selected) + " "@ + text::filled(label, 10) + " "@ + desc,
        selectable_style(selected),
    )
}

pub fn selectable_row(selected: bool, label: &str, desc: &str) -> (r: Line)
    ensures
        r@ == explained(selected, label@, desc@),
{
    let mut t = text::concat(pointer_text(selected), " ");
    let name = text::fill(label, 10);
    t.push_str(name.as_str());
    t.push_str(" ");
    t.push_str(desc);
    line::line1(line::span_of(t, selectable_style(selected)))
}

/// The line on which a new agent can be made.
pub open spec fn create_row(selected: bool) -> LineView {
    one(
        pointer(selected) + " "@ + width::padded("创建agent"@, 22) + " "@ + width::padded(
            "新建"@,
            12,
        ) + " "@ + "手动创建或根据描述生成 agent"@,
        selectable_style(selected),
    )
}

fn create_line(selected: bool) -> (r: Line)
    ensures
        r@ == create_row(selected),
{
    let mut t = text::concat(pointer_text(selected), " ");
    let name = width::pad_display_width("创建agent", 22);
    t.push_str(name.as_str());
    t.push_str(" ");
    let source = width::pad_display_width("新建", 12);
    t.push_str(source.as_str());
    t.push_str(" ");
    t.push_str("手动创建或根据描述生成 agent");
    line::line1(line::span_of(t, selectable_style(selected)))
}

/// An agent on its line.
pub open spec fn record_row(record: AgentRecord, selected: bool, w: int) -> LineView {
    let lock = if record.editable {
        Seq::empty()
    } else {
        " readonly"@
    };
    one(
        pointer(selected) + " "@ + width::padded(width::cut_with_dots(record.name@, 22), 22) + " "@
            + width::padded(agents::source_words(record.source_kind), 12) + " "@
            + width::cut_with_dots(record.description@, text::minus(w, 48)) + lock,
        selectable_style(selected),
    )
}

fn record_line(record: &AgentRecord, selected: bool, w: usize) -> (r: Line)
    ensures
        r@ == record_row(*record, selected, w as int),
{
    proof {
        reveal_strlit("");
        assert(""@ =~= Seq::<char>::empty());
    }
    let mut t = text::concat(pointer_text(selected), " ");
    let name = width::truncate_str(record.name.as_str(), 22);
    let wide = width::pad_display_width(name.as_str(), 22);
    t.push_str(wide.as_str());
    t.push_str(" ");
    let source = width::pad_display_width(agents::source_label(record.source_kind), 12);
    t.push_str(source.as_str());
    t.push_str(" ");
    let desc = width::truncate_str(record.description.as_str(), w.saturating_sub(48));
    t.push_str(desc.as_str());
    t.push_str(
        if record.editable {
            ""
        } else {
            " readonly"
        },
    );
    line::line1(line::span_of(t, selectable_style(selected)))
}

/// The agents from `start` up to `n`, each kind below its heading.
pub open spec fn record_rows(
    records: Seq<AgentRecord>,
    start: int,
    n: int,
    selected: int,
    w: int,
) -> Seq<LineView>
    decreases n - start,
{
    if n <= start {
        Seq::empty()
    } else {
        let before = record_rows(records, start, n - 1, selected, w);
        let record = records[n - 1];
        let headed = if n - 1 == start || records[n - 2].source_kind != record.source_kind {
            before.push(section(agents::source_words(record.source_kind) + " agent"@))
        } else {
            before
        };
        headed.push(record_row(record, selected > 0 && n == selected, w))
    }
}

/// The first agent that is listed.
pub open spec fn list_start(selected: int) -> int {
    text::minus(text::minus(selected, 1), 9)
}

pub open spec fn list_end(selected: int, count: int) -> int {
    text::min_int(list_start(selected) + LISTED_AGENTS, count)
}

/// A selected agent is listed.
pub proof fn law_selected_agent_is_listed(selected: int, count: int)
    requires
        1 <= selected <= count,
    ensures
        list_start(selected) <= selected - 1 < list_end(selected, count),
{
}

/// The list of agents.
pub open spec fn list_lines(manager: AgentManagerState, w: int) -> Seq<LineView> {
    let head = seq![create_row(manager.selected == 0), line::blank()];
    let records = manager.records@;
    if records.len() == 0 {
        head + seq![
            one("  暂无自定义 agent；内置 agent 会在可用时显示在这里。"@, permission::gray()),
            line::blank(),
        ]
    } else {
        (head + record_rows(
            records,
            list_start(manager.selected as int),
            list_end(manager.selected as int, records.len() as int),
            manager.selected as int,
            w,
        )).push(line::blank())
    }
}

pub fn build_agents_list_lines(manager: &AgentManagerState, w: usize, lines: &mut Vec<Line>)
    ensures
        line::lines_view(final(lines)@) == line::lines_view(old(lines)@) + list_lines(
            *manager,
            w as int,
        ),
{
    let ghost before = line::lines_view(lines@);
    line::push_line(lines, create_line(manager.selected == 0));
    push_blank(lines);
    if manager.records.len() == 0 {
        line::push_line(
            lines,
            one_line("  暂无自定义 agent；内置 agent 会在可用时显示在这里。", permission::gray()),
        );
        push_blank(lines);
        assert(line::lines_view(lines@) =~= before + list_lines(*manager, w as int));
        return;
    }
    let ghost records = manager.records@;
    let count: usize = manager.records.len();
    let start: usize = manager.selected.saturating_sub(1).saturating_sub(9);
    let end: usize = text::min_usize(start.saturating_add(LISTED_AGENTS), count);
    let ghost head = line::lines_view(lines@);
    let ghost sel = manager.selected as int;
    let mut i: usize = start;
    assert(head =~= head + record_rows(records, start as int, start as int, sel, w as int));
    while i < end
        invariant
            start <= i,
            i <= end || (end < start && i == start),
            end <= count == manager.records@.len(),
            records == manager.records@,
            sel == manager.selected,
            line::lines_view(lines@) == head + record_rows(
                records,
                start as int,
                i as int,
                sel,
                w as int,
            ),
        decreases end - i,
    {
        let record = &manager.records[i];
        let fresh = i == start || manager.records[i - 1].source_kind != record.source_kind;
        if fresh {
            let t = text::concat(agents::source_label(record.source_kind), " agent");
            push_agent_section(lines, t.as_str());
        }
        let selected = manager.selected > 0 && i == manager.selected - 1;
        line::push_line(lines, record_line(record, selected, w));
        assert(line::lines_view(lines@) =~= head + record_rows(
            records,
            start as int,
            i + 1,
            sel,
            w as int,
        ));
        i = i + 1;
    }
    assert(record_rows(records, start as int, i as int, sel, w as int) =~= record_rows(
        records,
        start as int,
        end as int,
        sel,
        w as int,
    ));
    push_blank(lines);
    assert(line::lines_view(lines@) =~= before + list_lines(*manager, w as int));
}

/// What can be done with an agent.
pub open spec fn detail_actions(editable: bool) -> Seq<Seq<char>> {
    if editable {
        seq!["编辑"@, "删除"@, "返回"@]
    } else {
        seq!["返回"@]
    }
}

/// The choices among `labels`; a selection behind the last is the last.
pub open spec fn choices(labels: Seq<Seq<char>>, selected: int) -> Seq<LineView> {
    Seq::new(
        labels.len(),
        |i: int| choice(i == text::min_int(selected, labels.len() - 1), labels[i]),
    )
}

/// What is shown of an agent above its instructions.
pub open spec fn detail_head(record: AgentRecord) -> Seq<LineView> {
    let top = seq![
        line::text_line(record.name@ + "  "@ + agents::source_words(record.source_kind)),
        line::text_line("描述: "@ + record.description@),
    ] + tool_summary(record.tools@, record.disallow_tools@) + seq![
        line::text_line(
            "模型: "@ + match record.model {
                Some(m) => m@,
                None => "默认模型"@,
            },
        ),
    ];
    let placed = match record.path {
        Some(p) => top.push(line::text_line("路径: "@ + p@)),
        None => top,
    };
    placed + seq![line::blank(), section("系统指令"@)]
}

/// How many lines of the instructions are shown where `above` lines stand above them and the
/// choices take `below`. Without a height there is room for all of them.
pub open spec fn instruction_rows(
    count: int,
    height: Option<usize>,
    above: int,
    below: int,
) -> int {
    match height {
        None => count,
        Some(h) => text::min_int(count, text::minus(text::minus(h as int, above), below)),
    }
}

/// An agent with its instructions, and what can be done with it at the bottom.
pub open spec fn detail_lines(
    manager: AgentManagerState,
    idx: int,
    w: int,
    height: Option<usize>,
) -> Seq<LineView> {
    if idx >= manager.records@.len() {
        Seq::empty()
    } else {
        let record = manager.records@[idx];
        let head = detail_head(record);
        let actions = detail_actions(record.editable);
        let below = actions.len() + 4;
        let texts = wrap::wrapped(record.instructions@, w);
        let above = PANEL_PREFIX_LINES + head.len();
        let rows = instruction_rows(texts.len() as int, height, above, below as int);
        let body = widgets::prefixed(texts.take(rows), Seq::empty(), line::plain());
        let free = match height {
            None => 0,
            Some(h) => text::minus(h as int, above + rows + below),
        };
        head + body + blanks(free) + seq![line::blank(), section("操作"@)] + choices(
            actions,
            manager.detail_action_selected as int,
        ) + seq![line::blank()]
    }
}

fn push_detail_head(lines: &mut Vec<Line>, record: &AgentRecord)
    ensures
        line::lines_view(final(lines)@) == line::lines_view(old(lines)@) + detail_head(*record),
{
    let ghost before = line::lines_view(lines@);
    let mut t = text::concat(record.name.as_str(), "  ");
    t.push_str(agents::source_label(record.source_kind));
    line::push_line(lines, line::plain_line(t.as_str()));
    let d = text::concat("描述: ", record.description.as_str());
    line::push_line(lines, line::plain_line(d.as_str()));
    push_agent_tool_summary(lines, &record.tools, &record.disallow_tools);
    let m = text::concat(
        "模型: ",
        match &record.model {
            Some(m) => m.as_str(),
            None => "默认模型",
        },
    );
    line::push_line(lines, line::plain_line(m.as_str()));
    if let Some(p) = &record.path {
        let t = text::concat("路径: ", p.as_str());
        line::push_line(lines, line::plain_line(t.as_str()));
    }
    push_blank(lines);
    push_agent_section(lines, "系统指令");
    assert(line::lines_view(lines@) =~= before + detail_head(*record));
}

fn push_choices(lines: &mut Vec<Line>, labels: &Vec<String>, selected: usize)
    requires
        labels@.len() > 0,
    ensures
        line::lines_view(final(lines)@) == line::lines_view(old(lines)@) + choices(
            text::views(labels@),
            selected as int,
        ),
{
    let ghost before = line::lines_view(lines@);
    let ghost all = choices(text::views(labels@), selected as int);
    let n: usize = labels.len();
    let at: usize = text::min_usize(selected, n - 1);
    let mut i: usize = 0;
    assert(before =~= before + all.take(0));
    while i < n
        invariant
            i <= n == labels@.len(),
            at == text::min_int(selected as int, n - 1),
            all == choices(text::views(labels@), selected as int),
            line::lines_view(lines@) == before + all.take(i as int),
        decreases n - i,
    {
        line::push_line(lines, choice_line(i == at, labels[i].as_str()));
        assert(before + all.take(i + 1) =~= (before + all.take(i as int)).push(all[i as int]));
        i = i + 1;
    }
    assert(all.take(n as int) =~= all);
}

fn action_labels(editable: bool) -> (r: Vec<String>)
    ensures
        text::views(r@) == detail_actions(editable),
        r@.len() == detail_actions(editable).len(),
{
    let mut out: Vec<String> = Vec::new();
    if editable {
        out.push(text::copy("编辑"));
        out.push(text::copy("删除"));
    }
    out.push(text::copy("返回"));
    assert(text::views(out@) =~= detail_actions(editable));
    out
}

/// `lines` holds the lines above the page.
pub fn build_agent_detail_lines(
    manager: &AgentManagerState,
    idx: usize,
    w: usize,
    height: Option<usize>,
    lines: &mut Vec<Line>,
)
    requires
        old(lines)@.len() == PANEL_PREFIX_LINES,
    ensures
        line::lines_view(final(lines)@) == line::lines_view(old(lines)@) + detail_lines(
            *manager,
            idx as int,
            w as int,
            height,
        ),
{
    let ghost before = line::lines_view(lines@);
    assert(before.len() == PANEL_PREFIX_LINES);
    if idx >= manager.records.len() {
        assert(before =~= before + Seq::<LineView>::empty());
        return;
    }
    let record = &manager.records[idx];
    push_detail_head(lines, record);
    let ghost head = detail_head(*record);
    assert(line::lines_view(lines@).len() == lines@.len());
    let above: usize = lines.len();
    assert(above == PANEL_PREFIX_LINES + head.len());
    let actions = action_labels(record.editable);
    let below: usize = actions.len() + 4;
    let mut texts = word_wrap(record.instructions.as_str(), w);
    let ghost t = text::views(texts@);
    assert(t.len() == texts@.len());
    let rows: usize = match height {
        None => texts.len(),
        Some(h) => text::min_usize(texts.len(), h.saturating_sub(above).saturating_sub(below)),
    };
    let gone = texts.split_off(rows);
    assert(text::views(texts@) =~= t.take(rows as int));
    let nothing: Vec<Span> = Vec::new();
    assert(line::spans_view(nothing@) =~= Seq::<SpanView>::empty());
    widgets::push_prefixed(lines, &texts, &nothing, line::plain());
    let free: usize = match height {
        None => 0,
        Some(h) => h.saturating_sub(above).saturating_sub(rows).saturating_sub(below),
    };
    push_blanks(lines, free);
    push_blank(lines);
    push_agent_section(lines, "操作");
    push_choices(lines, &actions, manager.detail_action_selected);
    push_blank(lines);
    assert(line::lines_view(lines@) =~= before + detail_lines(
        *manager,
        idx as int,
        w as int,
        height,
    ));
}

pub open spec fn menu_actions() -> Seq<Seq<char>> {
    seq!["编辑内容"@, "编辑工具"@, "编辑模型"@, "返回列表"@]
}

/// The menu of what can be edited of an agent.
pub open spec fn edit_menu_lines(manager: AgentManagerState) -> Seq<LineView> {
    let top = seq![
        one("编辑 agent: "@ + manager.draft.name@, permission::chosen()),
        line::blank(),
        labelled("来源: "@, agents::source_words(manager.draft.source_kind)),
    ];
    let placed = match manager.draft.original_path {
        Some(p) => top.push(labelled("路径: "@, p@)),
        None => top,
    };
    placed.push(line::blank()) + choices(menu_actions(), manager.edit_action_selected as int)
}

pub fn build_agent_edit_menu_lines(manager: &AgentManagerState, lines: &mut Vec<Line>)
    ensures
        line::lines_view(final(lines)@) == line::lines_view(old(lines)@) + edit_menu_lines(
            *manager,
        ),
{
    let ghost before = line::lines_view(lines@);
    let t = text::concat("编辑 agent: ", manager.draft.name.as_str());
    line::push_line(lines, one_line(t.as_str(), permission::chosen()));
    push_blank(lines);
    line::push_line(
        lines,
        labelled_line("来源: ", agents::source_label(manager.draft.source_kind)),
    );
    if let Some(p) = &manager.draft.original_path {
        line::push_line(lines, labelled_line("路径: ", p.as_str()));
    }
    push_blank(lines);
    let mut labels: Vec<String> = Vec::new();
    labels.push(text::copy("编辑内容"));
    labels.push(text::copy("编辑工具"));
    labels.push(text::copy("编辑模型"));
    labels.push(text::copy("返回列表"));
    assert(text::views(labels@) =~= menu_actions());
    push_choices(lines, &labels, manager.edit_action_selected);
    assert(line::lines_view(lines@) =~= before + edit_menu_lines(*manager));
}

/// The cursor in a field: at its end unless it is being edited.
pub open spec fn field_cursor(draft: AgentEditorDraft, field: AgentEditorField, s: Seq<char>) -> int {
    if draft.field == field {
        draft.cursor as int
    } else {
        s.len() as int
    }
}

fn cursor_in(draft: &AgentEditorDraft, field: AgentEditorField, s: &str) -> (r: usize)
    ensures
        r == field_cursor(*draft, field, s@),
{
    if draft.field == field {
        draft.cursor
    } else {
        text::char_count(s)
    }
}

/// The boxes for the name and the description.
pub open spec fn name_box(draft: AgentEditorDraft, w: int) -> Seq<LineView> {
    editor::field_box("名称"@, draft.name@, draft.field == AgentEditorField::Name, w, UNSET@)
}

pub open spec fn description_box(draft: AgentEditorDraft, w: int) -> Seq<LineView> {
    editor::text_box(
        "描述"@,
        draft.description@,
        field_cursor(draft, AgentEditorField::Description, draft.description@),
        draft.field == AgentEditorField::Description,
        w,
        AGENT_DESCRIPTION_MAX_LINES as int,
        UNSET@,
    )
}

pub open spec fn instructions_box(draft: AgentEditorDraft, w: int, max_lines: int) -> Seq<LineView> {
    editor::text_box(
        "系统指令"@,
        draft.instructions@,
        field_cursor(draft, AgentEditorField::Instructions, draft.instructions@),
        draft.field == AgentEditorField::Instructions,
        w,
        max_lines,
        INSTRUCTIONS_HINT@,
    )
}

fn push_name_box(lines: &mut Vec<Line>, draft: &AgentEditorDraft, w: usize)
    ensures
        line::lines_view(final(lines)@) == line::lines_view(old(lines)@) + name_box(
            *draft,
            w as int,
        ),
{
    editor::editor_field_box(
        lines,
        "名称",
        draft.name.as_str(),
        draft.field == AgentEditorField::Name,
        w,
        UNSET,
    );
}

fn push_description_box(lines: &mut Vec<Line>, draft: &AgentEditorDraft, w: usize)
    ensures
        line::lines_view(final(lines)@) == line::lines_view(old(lines)@) + description_box(
            *draft,
            w as int,
        ),
{
    editor::editor_text_box(
        lines,
        "描述",
        draft.description.as_str(),
        cursor_in(draft, AgentEditorField::Description, draft.description.as_str()),
        draft.field == AgentEditorField::Description,
        w,
        AGENT_DESCRIPTION_MAX_LINES,
        UNSET,
    );
}

fn push_instructions_box(
    lines: &mut Vec<Line>,
    draft: &AgentEditorDraft,
    w: usize,
    max_lines: usize,
)
    ensures
        line::lines_view(final(lines)@) == line::lines_view(old(lines)@) + instructions_box(
            *draft,
            w as int,
            max_lines as int,
        ),
{
    editor::editor_text_box(
        lines,
        "系统指令",
        draft.instructions.as_str(),
        cursor_in(draft, AgentEditorField::Instructions, draft.instructions.as_str()),
        draft.field == AgentEditorField::Instructions,
        w,
        max_lines,
        INSTRUCTIONS_HINT,
    );
}

/// The page on which the words of an agent are edited.
pub open spec fn edit_metadata_lines(manager: AgentManagerState, w: int) -> Seq<LineView> {
    seq![
        one("编辑内容"@, permission::chosen()),
        labelled("来源: "@, agents::source_words(manager.draft.source_kind)),
        line::blank(),
    ] + name_box(manager.draft, w) + description_box(manager.draft, w) + instructions_box(
        manager.draft,
        w,
        AGENT_EDIT_CONTENT_INSTRUCTIONS_MAX_LINES as int,
    )
}

pub fn build_agent_edit_metadata_lines(manager: &AgentManagerState, w: usize, lines: &mut Vec<Line>)
    ensures
        line::lines_view(final(lines)@) == line::lines_view(old(lines)@) + edit_metadata_lines(
            *manager,
            w as int,
        ),
{
    let ghost before = line::lines_view(lines@);
    line::push_line(lines, one_line("编辑内容", permission::chosen()));
    line::push_line(
        lines,
        labelled_line("来源: ", agents::source_label(manager.draft.source_kind)),
    );
    push_blank(lines);
    push_name_box(lines, &manager.draft, w);
    push_description_box(lines, &manager.draft, w);
    push_instructions_box(
        lines,
        &manager.draft,
        w,
        AGENT_EDIT_CONTENT_INSTRUCTIONS_MAX_LINES,
    );
    assert(line::lines_view(lines@) =~= before + edit_metadata_lines(*manager, w as int));
}

/// The lines for a text box where `above` lines stand above it.
pub open spec fn box_rows(above: int, height: Option<usize>, preferred: int) -> int {
    match height {
        None => preferred,
        Some(h) => text::min_int(
            text::max_int(text::minus(h as int, above + 3), 1),
            preferred,
        ),
    }
}

pub fn text_box_max_lines(above: usize, height: Option<usize>, preferred: usize) -> (r: usize)
    requires
        preferred >= 1,
    ensures
        r == box_rows(above as int, height, preferred as int),
{
    match height {
        None => preferred,
        Some(h) => {
            let room: usize = h.saturating_sub(above).saturating_sub(3);
            text::min_usize(text::max_usize(room, 1), preferred)
        },
    }
}

/// Whether an agent with these tools may use `tool`.
pub open spec fn tool_enabled(draft: AgentEditorDraft, tool: Seq<char>) -> bool {
    !text::views(draft.disallow_tools@).contains(tool) && (draft.tools@.len() == 0 || text::views(
        draft.tools@,
    ).contains(tool))
}

pub fn tool_effectively_enabled(draft: &AgentEditorDraft, tool: &str) -> (r: bool)
    ensures
        r == tool_enabled(*draft, tool@),
{
    if text::list_contains(&draft.disallow_tools, tool) {
        return false;
    }
    draft.tools.len() == 0 || text::list_contains(&draft.tools, tool)
}

/// A tool that can be switched on and off.
pub open spec fn switch(
    selected: bool,
    enabled: bool,
    label: Seq<char>,
    desc: Seq<char>,
) -> LineView {
    line::text_line(
        pointer(selected) + " ["@ + (if enabled {
            "x"@
        } else {
            " "@
        }) + "] "@ + text::filled(label, 10) + " "@ + desc,
    )
}

pub fn tool_row(selected: bool, enabled: bool, label: &str, desc: &str) -> (r: Line)
    ensures
        r@ == switch(selected, enabled, label@, desc@),
{
    let mut t = text::concat(pointer_text(selected), " [");
    t.push_str(
        if enabled {
            "x"
        } else {
            " "
        },
    );
    t.push_str("] ");
    let name = text::fill(label, 10);
    t.push_str(name.as_str());
    t.push_str(" ");
    t.push_str(desc);
    line::plain_line(t.as_str())
}

/// The switches of the tools that can be allowed, alone and in groups.
pub open spec fn allow_switches(
    read: bool,
    bash: bool,
    edit: bool,
    write: bool,
    ask: bool,
    at: int,
) -> Seq<LineView> {
    seq![
        switch(at == 1, read, "读工具组"@, "read"@),
        switch(at == 2, bash && edit && write, "写工具组"@, "bash, edit, write"@),
        switch(at == 3, read, "read"@, "读取文件"@),
        switch(at == 4, bash, "bash"@, "执行命令"@),
        switch(at == 5, edit, "edit"@, "编辑文件"@),
        switch(at == 6, write, "write"@, "写入文件"@),
        switch(at == 7, ask, "ask_user"@, "询问用户"@),
    ]
}

/// The tools that can be allowed.
pub open spec fn allow_rows(draft: AgentEditorDraft, at: int) -> Seq<LineView> {
    allow_switches(
        tool_enabled(draft, "read"@),
        tool_enabled(draft, "bash"@),
        tool_enabled(draft, "edit"@),
        tool_enabled(draft, "write"@),
        tool_enabled(draft, "ask_user"@),
        at,
    )
}

/// The switches of the tools that can be forbidden.
pub open spec fn deny_switches(
    read: bool,
    bash: bool,
    edit: bool,
    write: bool,
    ask: bool,
    at: int,
) -> Seq<LineView> {
    seq![
        switch(at == 8, read, "read"@, "不读取文件"@),
        switch(at == 9, bash, "bash"@, "不执行命令"@),
        switch(at == 10, edit, "edit"@, "不编辑文件"@),
        switch(at == 11, write, "write"@, "不写入文件"@),
        switch(at == 12, ask, "ask_user"@, "不询问用户"@),
    ]
}

/// The tools that can be forbidden.
pub open spec fn deny_rows(draft: AgentEditorDraft, at: int) -> Seq<LineView> {
    let denied = text::views(draft.disallow_tools@);
    deny_switches(
        denied.contains("read"@),
        denied.contains("bash"@),
        denied.contains("edit"@),
        denied.contains("write"@),
        denied.contains("ask_user"@),
        at,
    )
}

/// The page on which tools are allowed and forbidden.
pub open spec fn tools_lines(manager: AgentManagerState) -> Seq<LineView> {
    let draft = manager.draft;
    let at = manager.tool_selected as int;
    let inherited = draft.tools@.len() == 0;
    let free = draft.disallow_tools@.len() == 0;
    seq![
        section("工具策略"@),
        line::blank(),
        switch(
            at == 0,
            inherited && free,
            "继承全部"@,
            if free {
                "使用父会话可用工具"@
            } else {
                "使用父会话工具，排除禁用项"@
            },
        ),
        line::blank(),
        section(
            if inherited {
                "有效工具"@
            } else {
                "仅允许"@
            },
        ),
        line::blank(),
    ] + allow_rows(draft, at) + seq![line::blank(), section("禁用"@), line::blank()] + deny_rows(
        draft,
        at,
    )
}

/// The page of tools takes the lines that are kept free for it.
pub proof fn law_tools_section_lines(manager: AgentManagerState)
    ensures
        tools_lines(manager).len() == AGENT_TOOLS_SECTION_LINES,
{
}

fn push_allow_switches(
    lines: &mut Vec<Line>,
    read: bool,
    bash: bool,
    edit: bool,
    write: bool,
    ask: bool,
    at: usize,
)
    ensures
        line::lines_view(final(lines)@) == line::lines_view(old(lines)@) + allow_switches(
            read,
            bash,
            edit,
            write,
            ask,
            at as int,
        ),
{
    let ghost before = line::lines_view(lines@);
    line::push_line(lines, tool_row(at == 1, read, "读工具组", "read"));
    line::push_line(
        lines,
        tool_row(at == 2, bash && edit && write, "写工具组", "bash, edit, write"),
    );
    line::push_line(lines, tool_row(at == 3, read, "read", "读取文件"));
    line::push_line(lines, tool_row(at == 4, bash, "bash", "执行命令"));
    line::push_line(lines, tool_row(at == 5, edit, "edit", "编辑文件"));
    line::push_line(lines, tool_row(at == 6, write, "write", "写入文件"));
    line::push_line(lines, tool_row(at == 7, ask, "ask_user", "询问用户"));
    assert(line::lines_view(lines@) =~= before + allow_switches(
        read,
        bash,
        edit,
        write,
        ask,
        at as int,
    ));
}

fn push_allow_rows(lines: &mut Vec<Line>, draft: &AgentEditorDraft, at: usize)
    ensures
        line::lines_view(final(lines)@) == line::lines_view(old(lines)@) + allow_rows(
            *draft,
            at as int,
        ),
{
    let read = tool_effectively_enabled(draft, "read");
    let bash = tool_effectively_enabled(draft, "bash");
    let edit = tool_effectively_enabled(draft, "edit");
    let write = tool_effectively_enabled(draft, "write");
    let ask = tool_effectively_enabled(draft, "ask_user");
    push_allow_switches(lines, read, bash, edit, write, ask, at);
}

fn push_deny_switches(
    lines: &mut Vec<Line>,
    read: bool,
    bash: bool,
    edit: bool,
    write: bool,
    ask: bool,
    at: usize,
)
    ensures
        line::lines_view(final(lines)@) == line::lines_view(old(lines)@) + deny_switches(
            read,
            bash,
            edit,
            write,
            ask,
            at as int,
        ),
{
    let ghost before = line::lines_view(lines@);
    line::push_line(lines, tool_row(at == 8, read, "read", "不读取文件"));
    line::push_line(lines, tool_row(at == 9, bash, "bash", "不执行命令"));
    line::push_line(lines, tool_row(at == 10, edit, "edit", "不编辑文件"));
    line::push_line(lines, tool_row(at == 11, write, "write", "不写入文件"));
    line::push_line(lines, tool_row(at == 12, ask, "ask_user", "不询问用户"));
    assert(line::lines_view(lines@) =~= before + deny_switches(
        read,
        bash,
        edit,
        write,
        ask,
        at as int,
    ));
}

fn push_deny_rows(lines: &mut Vec<Line>, draft: &AgentEditorDraft, at: usize)
    ensures
        line::lines_view(final(lines)@) == line::lines_view(old(lines)@) + deny_rows(
            *draft,
            at as int,
        ),
{
    let d = &draft.disallow_tools;
    let read = text::list_contains(d, "read");
    let bash = text::list_contains(d, "bash");
    let edit = text::list_contains(d, "edit");
    let write = text::list_contains(d, "write");
    let ask = text::list_contains(d, "ask_user");
    push_deny_switches(lines, read, bash, edit, write, ask, at);
}

pub fn build_agent_tools_lines(manager: &AgentManagerState, lines: &mut Vec<Line>)
    ensures
        line::lines_view(final(lines)@) == line::lines_view(old(lines)@) + tools_lines(*manager),
{
    let ghost before = line::lines_view(lines@);
    let draft = &manager.draft;
    let at: usize = manager.tool_selected;
    let inherited = draft.tools.len() == 0;
    let free = draft.disallow_tools.len() == 0;
    push_agent_section(lines, "工具策略");
    push_blank(lines);
    line::push_line(
        lines,
        tool_row(
            at == 0,
            inherited && free,
            "继承全部",
            if free {
                "使用父会话可用工具"
            } else {
                "使用父会话工具，排除禁用项"
            },
        ),
    );
    push_blank(lines);
    push_agent_section(
        lines,
        if inherited {
            "有效工具"
        } else {
            "仅允许"
        },
    );
    push_blank(lines);
    push_allow_rows(lines, draft, at);
    push_blank(lines);
    push_agent_section(lines, "禁用");
    push_blank(lines);
    push_deny_rows(lines, draft, at);
    assert(line::lines_view(lines@) =~= before + tools_lines(*manager));
}

/// The mark of what is in use.
pub open spec fn check_mark(on: bool) -> Seq<char> {
    if on {
        " ✔"@
    } else {
        Seq::empty()
    }
}

fn check_text(on: bool) -> (r: &'static str)
    ensures
        r@ == check_mark(on),
{
    proof {
        reveal_strlit("");
        assert(""@ =~= Seq::<char>::empty());
    }
    if on {
        " ✔"
    } else {
        ""
    }
}

/// Whether the draft names this model of this provider.
pub open spec fn names_model(model: Option<String>, provider: Seq<char>, id: Seq<char>) -> bool {
    model matches Some(m) && m@ == provider + "/"@ + id
}

/// The lines of one entry.
pub open spec fn model_entry_lines(
    entry: AgentModelEntry,
    selected: bool,
    model: Option<String>,
) -> Seq<LineView> {
    match entry {
        AgentModelEntry::Inherit => seq![
            choice(selected, "继承主会话模型"@ + check_mark(model is None)),
            line::blank(),
            section("可选模型"@),
            line::blank(),
        ],
        AgentModelEntry::ProviderHeader { name } => seq![section(name@)],
        AgentModelEntry::Model { provider_key, model: m } => seq![
            line::text_line(
                pointer(selected) + " "@ + model_panel::model_name(m) + check_mark(
                    names_model(model, provider_key@, m.id@),
                ),
            ),
        ],
    }
}

/// The lines of the first `n` entries.
pub open spec fn model_entries_lines(
    entries: Seq<AgentModelEntry>,
    n: int,
    selected: int,
    model: Option<String>,
) -> Seq<LineView>
    decreases n,
{
    if n <= 0 {
        Seq::empty()
    } else {
        model_entries_lines(entries, n - 1, selected, model) + model_entry_lines(
            entries[n - 1],
            n - 1 == selected,
            model,
        )
    }
}

pub open spec fn listed_models(entries: Seq<AgentModelEntry>) -> int {
    text::min_int(entries.len() as int, LISTED_MODELS as int)
}

/// The page on which the model of an agent is picked.
pub open spec fn model_lines(manager: AgentManagerState) -> Seq<LineView> {
    seq![section("当前配置"@), line::blank()] + model_entries_lines(
        manager.model_entries@,
        listed_models(manager.model_entries@),
        manager.model_selected as int,
        manager.draft.model,
    )
}

fn push_model_entry(
    lines: &mut Vec<Line>,
    entry: &AgentModelEntry,
    selected: bool,
    model: &Option<String>,
)
    ensures
        line::lines_view(final(lines)@) == line::lines_view(old(lines)@) + model_entry_lines(
            *entry,
            selected,
            *model,
        ),
{
    let ghost before = line::lines_view(lines@);
    match entry {
        AgentModelEntry::Inherit => {
            let t = text::concat("继承主会话模型", check_text(model.is_none()));
            line::push_line(lines, choice_line(selected, t.as_str()));
            push_blank(lines);
            push_agent_section(lines, "可选模型");
            push_blank(lines);
        },
        AgentModelEntry::ProviderHeader { name } => {
            push_agent_section(lines, name.as_str());
        },
        AgentModelEntry::Model { provider_key, model: m } => {
            let mut value = text::concat(provider_key.as_str(), "/");
            value.push_str(m.id.as_str());
            let named = text::same_opt(model, value.as_str());
            let mut t = text::concat(pointer_text(selected), " ");
            t.push_str(
                match &m.name {
                    Some(n) => n.as_str(),
                    None => m.id.as_str(),
                },
            );
            t.push_str(check_text(named));
            line::push_line(lines, line::plain_line(t.as_str()));
        },
    }
    assert(line::lines_view(lines@) =~= before + model_entry_lines(*entry, selected, *model));
}

pub fn build_agent_model_lines(manager: &AgentManagerState, lines: &mut Vec<Line>)
    ensures
        line::lines_view(final(lines)@) == line::lines_view(old(lines)@) + model_lines(*manager),
{
    let ghost before = line::lines_view(lines@);
    push_agent_section(lines, "当前配置");
    push_blank(lines);
    let ghost head = line::lines_view(lines@);
    let ghost e = manager.model_entries@;
    let ghost sel = manager.model_selected as int;
    let n: usize = text::min_usize(manager.model_entries.len(), LISTED_MODELS);
    let mut i: usize = 0;
    assert(head =~= head + model_entries_lines(e, 0, sel, manager.draft.model));
    while i < n
        invariant
            i <= n <= manager.model_entries@.len(),
            e == manager.model_entries@,
            sel == manager.model_selected,
            line::lines_view(lines@) == head + model_entries_lines(
                e,
                i as int,
                sel,
                manager.draft.model,
            ),
        decreases n - i,
    {
        push_model_entry(
            lines,
            &manager.model_entries[i],
            i == manager.model_selected,
            &manager.draft.model,
        );
        assert(line::lines_view(lines@) =~= head + model_entries_lines(
            e,
            i + 1,
            sel,
            manager.draft.model,
        ));
        i = i + 1;
    }
    assert(line::lines_view(lines@) =~= before + model_lines(*manager));
}

/// The lines that the first `n` entries take.
pub open spec fn model_rows(entries: Seq<AgentModelEntry>, n: int) -> int
    decreases n,
{
    if n <= 0 {
        0
    } else {
        model_rows(entries, n - 1) + if entries[n - 1] is Inherit {
            4int
        } else {
            1
        }
    }
}

/// The models take as many lines as are reckoned with.
pub proof fn law_model_rows(
    entries: Seq<AgentModelEntry>,
    n: int,
    selected: int,
    model: Option<String>,
)
    ensures
        model_entries_lines(entries, n, selected, model).len() == model_rows(entries, n),
    decreases n,
{
    if n > 0 {
        law_model_rows(entries, n - 1, selected, model);
    }
}

pub fn agent_model_section_line_count(manager: &AgentManagerState) -> (r: usize)
    ensures
        r == model_rows(manager.model_entries@, listed_models(manager.model_entries@)),
        r <= 80,
{
    let n: usize = text::min_usize(manager.model_entries.len(), LISTED_MODELS);
    let mut sum: usize = 0;
    let mut i: usize = 0;
    while i < n
        invariant
            i <= n <= manager.model_entries@.len(),
            n <= 20,
            sum <= 4 * i,
            sum == model_rows(manager.model_entries@, i as int),
        decreases n - i,
    {
        match &manager.model_entries[i] {
            AgentModelEntry::Inherit => {
                sum = sum + 4;
            },
            _ => {
                sum = sum + 1;
            },
        }
        i = i + 1;
    }
    sum
}

/// The lines that are missing up to the height of a section.
pub open spec fn section_fill(expected: int, current: int) -> Seq<LineView> {
    blanks(text::minus(expected, current))
}

pub fn pad_lines_to_section_height(lines: &mut Vec<Line>, expected: usize, current: usize)
    ensures
        line::lines_view(final(lines)@) == line::lines_view(old(lines)@) + section_fill(
            expected as int,
            current as int,
        ),
{
    push_blanks(lines, expected.saturating_sub(current));
}

/// A value on the page of an agent that exists already.
pub open spec fn summary_row(label: Seq<char>, value: Seq<char>) -> LineView {
    labelled(label + "  "@, value)
}

pub fn editor_summary_row(lines: &mut Vec<Line>, label: &str, value: &str)
    ensures
        line::lines_view(final(lines)@) == line::lines_view(old(lines)@).push(
            summary_row(label@, value@),
        ),
{
    let t = text::concat(label, "  ");
    line::push_line(lines, labelled_line(t.as_str(), value));
}

/// What stands above the boxes of an agent in the making.
pub open spec fn editor_head(draft: AgentEditorDraft) -> Seq<LineView> {
    seq![
        line::text_line(
            agents::source_words(draft.source_kind) + "级 agent  "@ + if draft.original_path is Some {
                "编辑"@
            } else {
                "创建"@
            },
        ),
        line::blank(),
        labelled("来源  "@, agents::source_words(draft.source_kind)),
    ] + tool_summary(draft.tools@, draft.disallow_tools@) + seq![
        labelled("模型  "@, model_words(draft.model)),
        line::blank(),
    ]
}

fn push_editor_head(lines: &mut Vec<Line>, draft: &AgentEditorDraft)
    ensures
        line::lines_view(final(lines)@) == line::lines_view(old(lines)@) + editor_head(*draft),
{
    let ghost before = line::lines_view(lines@);
    let mut t = text::concat(agents::source_label(draft.source_kind), "级 agent  ");
    t.push_str(
        if draft.original_path.is_some() {
            "编辑"
        } else {
            "创建"
        },
    );
    line::push_line(lines, line::plain_line(t.as_str()));
    push_blank(lines);
    line::push_line(lines, labelled_line("来源  ", agents::source_label(draft.source_kind)));
    push_agent_tool_summary(lines, &draft.tools, &draft.disallow_tools);
    let m = format_agent_model(&draft.model);
    line::push_line(lines, labelled_line("模型  ", m.as_str()));
    push_blank(lines);
    assert(line::lines_view(lines@) =~= before + editor_head(*draft));
}

/// The sections below the boxes of an agent that exists already: the tools and the model, the
/// one that is being edited in full.
pub open spec fn editor_sections(manager: AgentManagerState) -> Seq<LineView> {
    let draft = manager.draft;
    let tools = summary_row("工具"@, tool_words(draft.tools@, draft.disallow_tools@));
    let model = summary_row("模型"@, model_words(draft.model));
    let tools_fill = section_fill(AGENT_TOOLS_SECTION_LINES as int, 1);
    let model_fill = section_fill(
        model_rows(manager.model_entries@, listed_models(manager.model_entries@)),
        1,
    );
    seq![line::blank()] + match draft.field {
        AgentEditorField::Model => model_lines(manager) + seq![line::blank(), tools] + tools_fill,
        AgentEditorField::Tools => tools_lines(manager) + seq![line::blank(), model] + model_fill,
        _ => seq![tools] + tools_fill + seq![line::blank(), model] + model_fill,
    }
}

fn push_editor_sections(lines: &mut Vec<Line>, manager: &AgentManagerState)
    ensures
        line::lines_view(final(lines)@) == line::lines_view(old(lines)@) + editor_sections(
            *manager,
        ),
{
    let ghost before = line::lines_view(lines@);
    let draft = &manager.draft;
    let tools = agent_tool_summary_text(&draft.tools, &draft.disallow_tools);
    let model = format_agent_model(&draft.model);
    let model_height: usize = agent_model_section_line_count(manager);
    push_blank(lines);
    match draft.field {
        AgentEditorField::Model => {
            build_agent_model_lines(manager, lines);
            push_blank(lines);
            editor_summary_row(lines, "工具", tools.as_str());
            pad_lines_to_section_height(lines, AGENT_TOOLS_SECTION_LINES, 1);
        },
        AgentEditorField::Tools => {
            build_agent_tools_lines(manager, lines);
            push_blank(lines);
            editor_summary_row(lines, "模型", model.as_str());
            pad_lines_to_section_height(lines, model_height, 1);
        },
        _ => {
            editor_summary_row(lines, "工具", tools.as_str());
            pad_lines_to_section_height(lines, AGENT_TOOLS_SECTION_LINES, 1);
            push_blank(lines);
            editor_summary_row(lines, "模型", model.as_str());
            pad_lines_to_section_height(lines, model_height, 1);
        },
    }
    assert(line::lines_view(lines@) =~= before + editor_sections(*manager));
}

/// The page of an agent in the making, in full.
pub open spec fn editor_lines(
    manager: AgentManagerState,
    w: int,
    height: Option<usize>,
) -> Seq<LineView> {
    let draft = manager.draft;
    let top = editor_head(draft) + name_box(draft, w) + description_box(draft, w);
    let boxes = top + instructions_box(
        draft,
        w,
        box_rows(PANEL_PREFIX_LINES + top.len(), height, 10),
    );
    if draft.original_path is Some {
        boxes + editor_sections(manager)
    } else {
        boxes
    }
}

/// `lines` holds the lines above the page.
pub fn build_agent_editor_lines(
    manager: &AgentManagerState,
    w: usize,
    height: Option<usize>,
    lines: &mut Vec<Line>,
)
    requires
        old(lines)@.len() == PANEL_PREFIX_LINES,
    ensures
        line::lines_view(final(lines)@) == line::lines_view(old(lines)@) + editor_lines(
            *manager,
            w as int,
            height,
        ),
{
    let ghost before = line::lines_view(lines@);
    assert(before.len() == PANEL_PREFIX_LINES);
    let draft = &manager.draft;
    push_editor_head(lines, draft);
    push_name_box(lines, draft, w);
    push_description_box(lines, draft, w);
    let ghost top = editor_head(*draft) + name_box(*draft, w as int) + description_box(
        *draft,
        w as int,
    );
    assert(line::lines_view(lines@) =~= before + top);
    assert(line::lines_view(lines@).len() == lines@.len());
    let rows: usize = text_box_max_lines(lines.len(), height, 10);
    push_instructions_box(lines, draft, w, rows);
    if draft.original_path.is_some() {
        push_editor_sections(lines, manager);
    }
    assert(line::lines_view(lines@) =~= before + editor_lines(*manager, w as int, height));
}

pub open spec fn step_words(step: AgentCreateStep) -> Seq<char> {
    match step {
        AgentCreateStep::Scope => "范围"@,
        AgentCreateStep::Tools => "工具"@,
        AgentCreateStep::Model => "模型"@,
        AgentCreateStep::Method => "方式"@,
        AgentCreateStep::ManualName => "名称"@,
        AgentCreateStep::ManualDescription => "描述"@,
        AgentCreateStep::ManualInstructions => "指令"@,
        AgentCreateStep::GenerateDescription => "生成"@,
    }
}

pub fn agent_create_step_label(step: AgentCreateStep) -> (r: &'static str)
    ensures
        r@ == step_words(step),
{
    match step {
        AgentCreateStep::Scope => "范围",
        AgentCreateStep::Tools => "工具",
        AgentCreateStep::Model => "模型",
        AgentCreateStep::Method => "方式",
        AgentCreateStep::ManualName => "名称",
        AgentCreateStep::ManualDescription => "描述",
        AgentCreateStep::ManualInstructions => "指令",
        AgentCreateStep::GenerateDescription => "生成",
    }
}

/// The name of a step, standing out where it is the current one.
pub open spec fn tab(step: AgentCreateStep, current: AgentCreateStep) -> SpanView {
    line::sp(
        " "@ + step_words(step) + " "@,
        if step == current {
            permission::chosen()
        } else {
            permission::gray()
        },
    )
}

pub open spec fn tab_divider() -> SpanView {
    line::sp("›"@, editor::border_style())
}

/// The steps that everyone goes through, and the current one where it is another.
pub open spec fn tabs(step: AgentCreateStep) -> LineView {
    let first = seq![
        tab(AgentCreateStep::Scope, step),
        tab_divider(),
        tab(AgentCreateStep::Tools, step),
        tab_divider(),
        tab(AgentCreateStep::Model, step),
        tab_divider(),
        tab(AgentCreateStep::Method, step),
    ];
    let common = step == AgentCreateStep::Scope || step == AgentCreateStep::Tools || step
        == AgentCreateStep::Model || step == AgentCreateStep::Method;
    line::of_spans(
        if common {
            first
        } else {
            first.push(tab_divider()).push(tab(step, step))
        },
    )
}

fn tab_span(step: AgentCreateStep, current: AgentCreateStep) -> (r: Span)
    ensures
        r@ == tab(step, current),
{
    let mut t = text::concat(" ", agent_create_step_label(step));
    t.push_str(" ");
    line::span_of(
        t,
        if step == current {
            permission::chosen()
        } else {
            permission::gray()
        },
    )
}

pub fn push_agent_create_tabs(lines: &mut Vec<Line>, step: AgentCreateStep)
    ensures
        line::lines_view(final(lines)@) == line::lines_view(old(lines)@).push(tabs(step)),
{
    let mut spans: Vec<Span> = Vec::new();
    assert(line::spans_view(spans@) =~= Seq::<SpanView>::empty());
    line::push_span(&mut spans, tab_span(AgentCreateStep::Scope, step));
    line::push_span(&mut spans, line::span("›", editor::border_style()));
    line::push_span(&mut spans, tab_span(AgentCreateStep::Tools, step));
    line::push_span(&mut spans, line::span("›", editor::border_style()));
    line::push_span(&mut spans, tab_span(AgentCreateStep::Model, step));
    line::push_span(&mut spans, line::span("›", editor::border_style()));
    line::push_span(&mut spans, tab_span(AgentCreateStep::Method, step));
    let common = step == AgentCreateStep::Scope || step == AgentCreateStep::Tools || step
        == AgentCreateStep::Model || step == AgentCreateStep::Method;
    if !common {
        line::push_span(&mut spans, line::span("›", editor::border_style()));
        line::push_span(&mut spans, tab_span(step, step));
    }
    assert(line::spans_view(spans@) =~= tabs(step).spans);
    line::push_line(lines, line::line_of(spans));
}

/// What has been chosen so far for an agent in the making.
pub open spec fn chosen_lines(draft: AgentEditorDraft) -> Seq<LineView> {
    seq![labelled("来源  "@, agents::source_words(draft.source_kind))] + tool_summary(
        draft.tools@,
        draft.disallow_tools@,
    ) + seq![labelled("模型  "@, model_words(draft.model)), line::blank()]
}

pub fn manager_summary_lines(draft: &AgentEditorDraft, lines: &mut Vec<Line>)
    ensures
        line::lines_view(final(lines)@) == line::lines_view(old(lines)@) + chosen_lines(*draft),
{
    let ghost before = line::lines_view(lines@);
    line::push_line(lines, labelled_line("来源  ", agents::source_label(draft.source_kind)));
    push_agent_tool_summary(lines, &draft.tools, &draft.disallow_tools);
    let m = format_agent_model(&draft.model);
    line::push_line(lines, labelled_line("模型  ", m.as_str()));
    push_blank(lines);
    assert(line::lines_view(lines@) =~= before + chosen_lines(*draft));
}

/// What stands above the box in which an agent is described to be generated.
pub open spec fn generate_head(draft: AgentEditorDraft) -> Seq<LineView> {
    seq![
        line::text_line(
            "描述生成 "@ + agents::source_words(draft.source_kind) + "级 agent"@,
        ),
    ] + tool_summary(draft.tools@, draft.disallow_tools@) + seq![
        labelled("模型  "@, model_words(draft.model)),
        line::blank(),
    ]
}

/// The page on which an agent is described to be generated, below `above` lines.
pub open spec fn generate_lines(
    draft: AgentEditorDraft,
    w: int,
    height: Option<usize>,
    above: int,
) -> Seq<LineView> {
    let head = generate_head(draft);
    head + editor::text_box(
        "用途描述"@,
        draft.generated_description@,
        draft.cursor as int,
        true,
        w,
        box_rows(above + head.len(), height, 12),
        DESCRIPTION_HINT@,
    )
}

pub fn build_agent_generate_lines(
    draft: &AgentEditorDraft,
    w: usize,
    height: Option<usize>,
    lines: &mut Vec<Line>,
)
    ensures
        line::lines_view(final(lines)@) == line::lines_view(old(lines)@) + generate_lines(
            *draft,
            w as int,
            height,
            old(lines)@.len() as int,
        ),
{
    let ghost before = line::lines_view(lines@);
    assert(before.len() == lines@.len());
    let mut t = text::concat("描述生成 ", agents::source_label(draft.source_kind));
    t.push_str("级 agent");
    line::push_line(lines, line::plain_line(t.as_str()));
    push_agent_tool_summary(lines, &draft.tools, &draft.disallow_tools);
    let m = format_agent_model(&draft.model);
    line::push_line(lines, labelled_line("模型  ", m.as_str()));
    push_blank(lines);
    assert(line::lines_view(lines@) =~= before + generate_head(*draft));
    assert(line::lines_view(lines@).len() == lines@.len());
    let rows: usize = text_box_max_lines(lines.len(), height, 12);
    editor::editor_text_box(
        lines,
        "用途描述",
        draft.generated_description.as_str(),
        draft.cursor,
        true,
        w,
        rows,
        DESCRIPTION_HINT,
    );
    assert(line::lines_view(lines@) =~= before + generate_lines(
        *draft,
        w as int,
        height,
        before.len() as int,
    ));
}

/// A step of making an agent.
pub open spec fn step_lines(
    manager: AgentManagerState,
    step: AgentCreateStep,
    w: int,
    height: Option<usize>,
) -> Seq<LineView> {
    let draft = manager.draft;
    let above = PANEL_PREFIX_LINES + 2;
    match step {
        AgentCreateStep::Scope => seq![
            section("保存位置"@),
            line::blank(),
            explained(manager.create_scope_selected == 0, "项目级"@, "写入当前项目 .omini/agents"@),
            explained(manager.create_scope_selected == 1, "用户级"@, "写入 ~/.omini/agents"@),
            line::blank(),
        ],
        AgentCreateStep::Tools => tools_lines(manager),
        AgentCreateStep::Model => model_lines(manager),
        AgentCreateStep::Method => seq![
            section("创建方式"@),
            line::blank(),
            explained(
                manager.create_method_selected == 0,
                "LLM 创建"@,
                "下一步输入用途描述，生成草稿后可预览保存"@,
            ),
            explained(
                manager.create_method_selected == 1,
                "手动创建"@,
                "逐步填写名称、描述和系统指令"@,
            ),
            line::blank(),
        ],
        AgentCreateStep::ManualName => (chosen_lines(draft) + editor::field_box(
            "名称"@,
            draft.name@,
            draft.field == AgentEditorField::Name,
            w,
            "agent-name"@,
        )).push(line::blank()),
        AgentCreateStep::ManualDescription => (chosen_lines(draft) + editor::text_box(
            "描述"@,
            draft.description@,
            draft.cursor as int,
            draft.field == AgentEditorField::Description,
            w,
            AGENT_DESCRIPTION_MAX_LINES as int,
            "这个 agent 适合做什么"@,
        )).push(line::blank()),
        AgentCreateStep::ManualInstructions => (chosen_lines(draft) + editor::text_box(
            "系统指令"@,
            draft.instructions@,
            draft.cursor as int,
            true,
            w,
            box_rows(above + chosen_lines(draft).len(), height, 12),
            INSTRUCTIONS_HINT@,
        )).push(line::blank()),
        AgentCreateStep::GenerateDescription => generate_lines(draft, w, height, above),
    }
}

/// A step of making an agent, below the names of the steps.
pub open spec fn create_lines(
    manager: AgentManagerState,
    step: AgentCreateStep,
    w: int,
    height: Option<usize>,
) -> Seq<LineView> {
    seq![tabs(step), line::blank()] + step_lines(manager, step, w, height)
}

fn push_scope_step(lines: &mut Vec<Line>, selected: usize)
    ensures
        line::lines_view(final(lines)@) == line::lines_view(old(lines)@) + seq![
            section("保存位置"@),
            line::blank(),
            explained(selected == 0, "项目级"@, "写入当前项目 .omini/agents"@),
            explained(selected == 1, "用户级"@, "写入 ~/.omini/agents"@),
            line::blank(),
        ],
{
    let ghost before = line::lines_view(lines@);
    push_agent_section(lines, "保存位置");
    push_blank(lines);
    line::push_line(
        lines,
        selectable_row(selected == 0, "项目级", "写入当前项目 .omini/agents"),
    );
    line::push_line(lines, selectable_row(selected == 1, "用户级", "写入 ~/.omini/agents"));
    push_blank(lines);
    assert(line::lines_view(lines@) =~= before + seq![
        section("保存位置"@),
        line::blank(),
        explained(selected == 0, "项目级"@, "写入当前项目 .omini/agents"@),
        explained(selected == 1, "用户级"@, "写入 ~/.omini/agents"@),
        line::blank(),
    ]);
}

fn push_method_step(lines: &mut Vec<Line>, selected: usize)
    ensures
        line::lines_view(final(lines)@) == line::lines_view(old(lines)@) + seq![
            section("创建方式"@),
            line::blank(),
            explained(selected == 0, "LLM 创建"@, "下一步输入用途描述，生成草稿后可预览保存"@),
            explained(selected == 1, "手动创建"@, "逐步填写名称、描述和系统指令"@),
            line::blank(),
        ],
{
    let ghost before = line::lines_view(lines@);
    push_agent_section(lines, "创建方式");
    push_blank(lines);
    line::push_line(
        lines,
        selectable_row(selected == 0, "LLM 创建", "下一步输入用途描述，生成草稿后可预览保存"),
    );
    line::push_line(
        lines,
        selectable_row(selected == 1, "手动创建", "逐步填写名称、描述和系统指令"),
    );
    push_blank(lines);
    assert(line::lines_view(lines@) =~= before + seq![
        section("创建方式"@),
        line::blank(),
        explained(selected == 0, "LLM 创建"@, "下一步输入用途描述，生成草稿后可预览保存"@),
        explained(selected == 1, "手动创建"@, "逐步填写名称、描述和系统指令"@),
        line::blank(),
    ]);
}

/// `lines` holds the lines above the page.
pub fn build_agent_create_lines(
    manager: &AgentManagerState,
    step: AgentCreateStep,
    w: usize,
    height: Option<usize>,
    lines: &mut Vec<Line>,
)
    requires
        old(lines)@.len() == PANEL_PREFIX_LINES,
    ensures
        line::lines_view(final(lines)@) == line::lines_view(old(lines)@) + create_lines(
            *manager,
            step,
            w as int,
            height,
        ),
{
    let ghost first = line::lines_view(lines@);
    assert(first.len() == PANEL_PREFIX_LINES);
    push_agent_create_tabs(lines, step);
    push_blank(lines);
    let ghost before = line::lines_view(lines@);
    assert(before =~= first + seq![tabs(step), line::blank()]);
    assert(before.len() == lines@.len());
    let draft = &manager.draft;
    match step {
        AgentCreateStep::Scope => {
            push_scope_step(lines, manager.create_scope_selected);
        },
        AgentCreateStep::Tools => {
            build_agent_tools_lines(manager, lines);
        },
        AgentCreateStep::Model => {
            build_agent_model_lines(manager, lines);
        },
        AgentCreateStep::Method => {
            push_method_step(lines, manager.create_method_selected);
        },
        AgentCreateStep::ManualName => {
            manager_summary_lines(draft, lines);
            editor::editor_field_box(
                lines,
                "名称",
                draft.name.as_str(),
                draft.field == AgentEditorField::Name,
                w,
                "agent-name",
            );
            push_blank(lines);
        },
        AgentCreateStep::ManualDescription => {
            manager_summary_lines(draft, lines);
            editor::editor_text_box(
                lines,
                "描述",
                draft.description.as_str(),
                draft.cursor,
                draft.field == AgentEditorField::Description,
                w,
                AGENT_DESCRIPTION_MAX_LINES,
                "这个 agent 适合做什么",
            );
            push_blank(lines);
        },
        AgentCreateStep::ManualInstructions => {
            manager_summary_lines(draft, lines);
            assert(line::lines_view(lines@).len() == lines@.len());
            let rows: usize = text_box_max_lines(lines.len(), height, 12);
            editor::editor_text_box(
                lines,
                "系统指令",
                draft.instructions.as_str(),
                draft.cursor,
                true,
                w,
                rows,
                INSTRUCTIONS_HINT,
            );
            push_blank(lines);
        },
        AgentCreateStep::GenerateDescription => {
            build_agent_generate_lines(draft, w, height, lines);
        },
    }
    assert(line::lines_view(lines@) =~= before + step_lines(*manager, step, w as int, height));
    assert(line::lines_view(lines@) =~= first + create_lines(*manager, step, w as int, height));
}

/// The page that is shown while an agent is generated.
pub open spec fn generating_lines(draft: AgentEditorDraft, w: int) -> Seq<LineView> {
    let bare = text::trimmed(draft.generated_description@);
    let shown = if bare.len() == 0 {
        UNSET@
    } else {
        bare
    };
    let texts = wrap::wrapped(shown, w);
    seq![
        line::of_spans(
            seq![
                line::raw(
                    "描述生成 "@ + agents::source_words(draft.source_kind) + "级 agent  "@,
                ),
                line::sp("生成中"@, permission::chosen()),
            ],
        ),
        line::blank(),
    ] + tool_summary(draft.tools@, draft.disallow_tools@) + seq![
        labelled("模型  "@, model_words(draft.model)),
        line::blank(),
        one("正在生成 agent..."@, line::colored(Color::Moving(Wave::Status))),
        line::blank(),
        section("用途描述"@),
    ] + widgets::prefixed(
        texts.take(text::min_int(texts.len() as int, 8)),
        Seq::empty(),
        line::plain(),
    )
}

pub fn build_agent_generating_lines(draft: &AgentEditorDraft, w: usize, lines: &mut Vec<Line>)
    ensures
        line::lines_view(final(lines)@) == line::lines_view(old(lines)@) + generating_lines(
            *draft,
            w as int,
        ),
{
    let ghost before = line::lines_view(lines@);
    let mut t = text::concat("描述生成 ", agents::source_label(draft.source_kind));
    t.push_str("级 agent  ");
    line::push_line(
        lines,
        line::line2(line::raw_span(t.as_str()), line::span("生成中", permission::chosen())),
    );
    push_blank(lines);
    push_agent_tool_summary(lines, &draft.tools, &draft.disallow_tools);
    let m = format_agent_model(&draft.model);
    line::push_line(lines, labelled_line("模型  ", m.as_str()));
    push_blank(lines);
    line::push_line(
        lines,
        one_line("正在生成 agent...", line::colored(Color::Moving(Wave::Status))),
    );
    push_blank(lines);
    push_agent_section(lines, "用途描述");
    let bare = text::trim(draft.generated_description.as_str());
    let shown = if text::char_count(bare.as_str()) == 0 {
        text::copy(UNSET)
    } else {
        bare
    };
    let mut texts = word_wrap(shown.as_str(), w);
    let ghost all = text::views(texts@);
    assert(all.len() == texts@.len());
    if texts.len() > 8 {
        let gone = texts.split_off(8);
    }
    assert(text::views(texts@) =~= all.take(text::min_int(all.len() as int, 8)));
    let nothing: Vec<Span> = Vec::new();
    assert(line::spans_view(nothing@) =~= Seq::<SpanView>::empty());
    widgets::push_prefixed(lines, &texts, &nothing, line::plain());
    assert(line::lines_view(lines@) =~= before + generating_lines(*draft, w as int));
}

/// The question whether an agent is to be deleted.
pub open spec fn delete_lines(manager: AgentManagerState, idx: int) -> Seq<LineView> {
    if idx >= manager.records@.len() {
        Seq::empty()
    } else {
        let record = manager.records@[idx];
        seq![
            line::text_line("确认删除 agent: "@ + record.name@),
            line::text_line(
                "来源: "@ + agents::source_words(record.source_kind) + "  路径: "@
                    + match record.path {
                    Some(p) => p@,
                    None => Seq::empty(),
                },
            ),
            line::blank(),
        ]
    }
}

fn push_delete_lines(lines: &mut Vec<Line>, manager: &AgentManagerState, idx: usize)
    ensures
        line::lines_view(final(lines)@) == line::lines_view(old(lines)@) + delete_lines(
            *manager,
            idx as int,
        ),
{
    proof {
        reveal_strlit("");
        assert(""@ =~= Seq::<char>::empty());
    }
    let ghost before = line::lines_view(lines@);
    if idx < manager.records.len() {
        let record = &manager.records[idx];
        let t = text::concat("确认删除 agent: ", record.name.as_str());
        line::push_line(lines, line::plain_line(t.as_str()));
        let mut s = text::concat("来源: ", agents::source_label(record.source_kind));
        s.push_str("  路径: ");
        s.push_str(
            match &record.path {
                Some(p) => p.as_str(),
                None => "",
            },
        );
        line::push_line(lines, line::plain_line(s.as_str()));
        push_blank(lines);
    }
    assert(line::lines_view(lines@) =~= before + delete_lines(*manager, idx as int));
}

/// The page that is open.
pub open spec fn page_lines(
    manager: AgentManagerState,
    w: int,
    height: Option<usize>,
) -> Seq<LineView> {
    match manager.view {
        AgentManagerView::List => list_lines(manager, w),
        AgentManagerView::Detail(idx) => detail_lines(manager, idx as int, w, height),
        AgentManagerView::EditMenu => edit_menu_lines(manager),
        AgentManagerView::EditMetadata => edit_metadata_lines(manager, w),
        AgentManagerView::EditTools => tools_lines(manager),
        AgentManagerView::EditModel => model_lines(manager),
        AgentManagerView::Create(step) => create_lines(manager, step, w, height),
        AgentManagerView::GeneratedPreview => editor_lines(manager, w, height),
        AgentManagerView::Generate => generate_lines(
            manager.draft,
            w,
            height,
            PANEL_PREFIX_LINES as int,
        ),
        AgentManagerView::Generating => generating_lines(manager.draft, w),
        AgentManagerView::ConfirmDelete(idx) => delete_lines(manager, idx as int),
    }
}

pub open spec fn panel_head() -> Seq<LineView> {
    seq![
        line::of_spans(
            seq![
                line::sp("Agents"@, permission::chosen()),
                line::sp("  管理内置、项目级和用户级 agent"@, permission::gray()),
            ],
        ),
        line::blank(),
    ]
}

/// The lines of the panel: a heading, the open page, and a message.
pub open spec fn panel_lines(
    manager: AgentManagerState,
    w: int,
    height: Option<usize>,
) -> Seq<LineView> {
    let page = panel_head() + page_lines(manager, w, height);
    match manager.message {
        Some(m) => page + seq![line::blank(), one(m@, line::rgb(220, 185, 145))],
        None => page,
    }
}

pub fn build_agents_lines(manager: &AgentManagerState, w: usize, height: Option<usize>) -> (r: Vec<
    Line,
>)
    ensures
        line::lines_view(r@) == panel_lines(*manager, w as int, height),
{
    let mut lines: Vec<Line> = Vec::new();
    assert(line::lines_view(lines@) =~= Seq::<LineView>::empty());
    line::push_line(
        &mut lines,
        line::line2(
            line::span("Agents", permission::chosen()),
            line::span("  管理内置、项目级和用户级 agent", permission::gray()),
        ),
    );
    push_blank(&mut lines);
    let ghost head = line::lines_view(lines@);
    assert(head =~= panel_head());
    assert(head.len() == lines@.len());
    match manager.view {
        AgentManagerView::List => {
            build_agents_list_lines(manager, w, &mut lines);
        },
        AgentManagerView::Detail(idx) => {
            build_agent_detail_lines(manager, idx, w, height, &mut lines);
        },
        AgentManagerView::EditMenu => {
            build_agent_edit_menu_lines(manager, &mut lines);
        },
        AgentManagerView::EditMetadata => {
            build_agent_edit_metadata_lines(manager, w, &mut lines);
        },
        AgentManagerView::EditTools => {
            build_agent_tools_lines(manager, &mut lines);
        },
        AgentManagerView::EditModel => {
            build_agent_model_lines(manager, &mut lines);
        },
        AgentManagerView::Create(step) => {
            build_agent_create_lines(manager, step, w, height, &mut lines);
        },
        AgentManagerView::GeneratedPreview => {
            build_agent_editor_lines(manager, w, height, &mut lines);
        },
        AgentManagerView::Generate => {
            build_agent_generate_lines(&manager.draft, w, height, &mut lines);
        },
        AgentManagerView::Generating => {
            build_agent_generating_lines(&manager.draft, w, &mut lines);
        },
        AgentManagerView::ConfirmDelete(idx) => {
            push_delete_lines(&mut lines, manager, idx);
        },
    }
    if let Some(m) = &manager.message {
        push_blank(&mut lines);
        line::push_line(&mut lines, one_line(m.as_str(), line::rgb(220, 185, 145)));
    }
    assert(line::lines_view(lines@) =~= panel_lines(*manager, w as int, height));
    lines
}

/// What the keys do on the open page.
pub open spec fn footer_words(view: AgentManagerView) -> Seq<char> {
    match view {
        AgentManagerView::List => "↑↓ 选择 · Enter 确认 · Esc 关闭"@,
        AgentManagerView::Detail(_) => "↑↓ 选择操作 · Enter 确认 · Esc 返回"@,
        AgentManagerView::EditMenu => "↑↓ 选择 · Enter 确认 · Esc 返回"@,
        AgentManagerView::EditMetadata => "Tab 切换字段 · Enter/Esc 自动保存并返回菜单"@,
        AgentManagerView::EditTools =>
            "↑↓ 选择工具 · Space 开关 · Enter/Esc 自动保存并返回菜单"@,
        AgentManagerView::EditModel => "↑↓ 选择模型 · Enter/Esc 自动保存并返回菜单"@,
        AgentManagerView::Create(step) => match step {
            AgentCreateStep::Scope => "↑↓ 选择 · Enter 确认 · Esc 返回"@,
            AgentCreateStep::Tools => "↑↓ 选择 · Space 开关 · Enter 确认 · Esc 返回"@,
            AgentCreateStep::Model => "↑↓ 选择 · Enter 确认 · Esc 返回"@,
            AgentCreateStep::Method => "↑↓ 选择 · Enter 确认 · Esc 上一步"@,
            AgentCreateStep::ManualName => "输入名称 · Enter 下一步 · Esc 上一步"@,
            AgentCreateStep::ManualDescription => "输入描述 · Enter 下一步 · Esc 上一步"@,
            AgentCreateStep::ManualInstructions => "输入系统指令 · Enter 保存 · Esc 上一步"@,
            AgentCreateStep::GenerateDescription =>
                "输入预期 agent 描述 · Enter 生成 · Esc 返回"@,
        },
        AgentManagerView::GeneratedPreview => "Tab 切换字段 · Enter 保存 · Esc 返回"@,
        AgentManagerView::Generate => "输入预期 agent 描述 · Enter 生成 · Esc 返回"@,
        AgentManagerView::Generating => "正在生成 agent，完成后会自动进入预览"@,
        AgentManagerView::ConfirmDelete(_) => "Enter 删除 · Esc 返回"@,
    }
}

pub fn agents_footer_hint(view: AgentManagerView) -> (r: Line)
    ensures
        r@ == one(footer_words(view), permission::gray()),
{
    let words = match view {
        AgentManagerView::List => "↑↓ 选择 · Enter 确认 · Esc 关闭",
        AgentManagerView::Detail(_) => "↑↓ 选择操作 · Enter 确认 · Esc 返回",
        AgentManagerView::EditMenu => "↑↓ 选择 · Enter 确认 · Esc 返回",
        AgentManagerView::EditMetadata => "Tab 切换字段 · Enter/Esc 自动保存并返回菜单",
        AgentManagerView::EditTools =>
            "↑↓ 选择工具 · Space 开关 · Enter/Esc 自动保存并返回菜单",
        AgentManagerView::EditModel => "↑↓ 选择模型 · Enter/Esc 自动保存并返回菜单",
        AgentManagerView::Create(step) => match step {
            AgentCreateStep::Scope => "↑↓ 选择 · Enter 确认 · Esc 返回",
            AgentCreateStep::Tools => "↑↓ 选择 · Space 开关 · Enter 确认 · Esc 返回",
            AgentCreateStep::Model => "↑↓ 选择 · Enter 确认 · Esc 返回",
            AgentCreateStep::Method => "↑↓ 选择 · Enter 确认 · Esc 上一步",
            AgentCreateStep::ManualName => "输入名称 · Enter 下一步 · Esc 上一步",
            AgentCreateStep::ManualDescription => "输入描述 · Enter 下一步 · Esc 上一步",
            AgentCreateStep::ManualInstructions => "输入系统指令 · Enter 保存 · Esc 上一步",
            AgentCreateStep::GenerateDescription => "输入预期 agent 描述 · Enter 生成 · Esc 返回",
        },
        AgentManagerView::GeneratedPreview => "Tab 切换字段 · Enter 保存 · Esc 返回",
        AgentManagerView::Generate => "输入预期 agent 描述 · Enter 生成 · Esc 返回",
        AgentManagerView::Generating => "正在生成 agent，完成后会自动进入预览",
        AgentManagerView::ConfirmDelete(_) => "Enter 删除 · Esc 返回",
    };
    one_line(words, permission::gray())
}

/// The lines above the text of a field on the page of an agent in the making.
pub open spec fn editor_field_row(draft: AgentEditorDraft, field_index: int) -> int {
    7 + summary_rows(draft.tools@, draft.disallow_tools@) + field_index * 4
}

pub fn agent_editor_cursor_prefix_lines(draft: &AgentEditorDraft, field_index: usize) -> (r: usize)
    requires
        field_index <= 1,
    ensures
        r == editor_field_row(*draft, field_index as int),
{
    7 + agent_tool_summary_line_count(&draft.tools, &draft.disallow_tools) + field_index * 4
}

/// The lines above the text of a step of making an agent by hand.
pub open spec fn step_field_row(draft: AgentEditorDraft) -> int {
    7 + summary_rows(draft.tools@, draft.disallow_tools@)
}

pub fn agent_manual_create_field_cursor_prefix_lines(draft: &AgentEditorDraft) -> (r: usize)
    ensures
        r == step_field_row(*draft),
{
    7 + agent_tool_summary_line_count(&draft.tools, &draft.disallow_tools)
}

/// The description as it is in sight.
pub open spec fn description_window(draft: AgentEditorDraft, cursor: int, input_width: int) ->
    editor::WindowView {
    editor::text_window(
        draft.description@,
        cursor,
        input_width,
        AGENT_DESCRIPTION_MAX_LINES as int,
        UNSET@,
    )
}

/// The lines above the text of the instructions on the page of an agent in the making.
pub open spec fn editor_instructions_row(draft: AgentEditorDraft, input_width: int) -> int {
    14 + summary_rows(draft.tools@, draft.disallow_tools@) + description_window(
        draft,
        field_cursor(draft, AgentEditorField::Description, draft.description@),
        input_width,
    ).lines.len()
}

fn window_of_description(draft: &AgentEditorDraft, cursor: usize, input_width: usize) -> (r:
    editor::EditableTextWindow)
    ensures
        r@ == description_window(*draft, cursor as int, input_width as int),
{
    editor::editable_text_window(
        draft.description.as_str(),
        cursor,
        input_width,
        AGENT_DESCRIPTION_MAX_LINES,
        UNSET,
    )
}

/// How many lines the box of a text to generate from is reckoned to have.
pub open spec fn generate_rows(height: Option<usize>, create_flow: bool) -> int {
    match height {
        None => 12,
        Some(h) => text::min_int(
            text::max_int(
                text::minus(
                    h as int,
                    if create_flow {
                        10
                    } else {
                        8
                    },
                ),
                1,
            ),
            12,
        ),
    }
}

pub fn agent_generate_text_max_lines(height: Option<usize>, create_flow: bool) -> (r: usize)
    ensures
        r == generate_rows(height, create_flow),
{
    match height {
        None => 12,
        Some(h) => {
            let room: usize = h.saturating_sub(
                if create_flow {
                    10
                } else {
                    8
                },
            );
            text::min_usize(text::max_usize(room, 1), 12)
        },
    }
}

/// The lines above the text to generate from.
pub open spec fn generate_row(draft: AgentEditorDraft, create_flow: bool) -> int {
    (if create_flow {
        2int
    } else {
        0
    }) + 5 + summary_rows(draft.tools@, draft.disallow_tools@)
}

pub fn agent_generate_cursor_prefix_lines(draft: &AgentEditorDraft, create_flow: bool) -> (r: usize)
    ensures
        r == generate_row(*draft, create_flow),
        r <= 9,
{
    (if create_flow {
        2usize
    } else {
        0
    }) + 5 + agent_tool_summary_line_count(&draft.tools, &draft.disallow_tools)
}

/// A cursor in a window below `rows` lines, behind the edge of its box.
pub open spec fn cursor_below(rows: int, window: editor::WindowView) -> (int, int) {
    (
        text::min_int(rows + window.cursor_line, usize::MAX as int),
        text::min_int(2 + window.cursor_col, usize::MAX as int),
    )
}

fn place_below(rows: usize, window: &editor::EditableTextWindow) -> (r: (usize, usize))
    ensures
        (r.0 as int, r.1 as int) == cursor_below(rows as int, window@),
{
    (rows.saturating_add(window.cursor_line), window.cursor_col.saturating_add(2))
}

/// The cursor on the page of an agent in the making.
pub open spec fn preview_cursor(draft: AgentEditorDraft, input_width: int) -> Option<(int, int)> {
    match draft.field {
        AgentEditorField::Name => Some(
            (
                PANEL_PREFIX_LINES + editor_field_row(draft, 0),
                editor::box_column(draft.name@, draft.cursor as int),
            ),
        ),
        AgentEditorField::Description => Some(
            cursor_below(
                PANEL_PREFIX_LINES + editor_field_row(draft, 1),
                description_window(draft, draft.cursor as int, input_width),
            ),
        ),
        AgentEditorField::Instructions => Some(
            cursor_below(
                PANEL_PREFIX_LINES + editor_instructions_row(draft, input_width),
                editor::text_window(
                    draft.instructions@,
                    draft.cursor as int,
                    input_width,
                    AGENT_EDIT_CONTENT_INSTRUCTIONS_MAX_LINES as int,
                    INSTRUCTIONS_HINT@,
                ),
            ),
        ),
        _ => None,
    }
}

/// The cursor on the page on which the words of an agent are edited.
pub open spec fn metadata_cursor(draft: AgentEditorDraft, input_width: int) -> Option<(int, int)> {
    match draft.field {
        AgentEditorField::Name => Some(
            (
                PANEL_PREFIX_LINES + 5,
                editor::box_column(draft.name@, draft.cursor as int),
            ),
        ),
        AgentEditorField::Description => Some(
            cursor_below(
                PANEL_PREFIX_LINES + 9,
                description_window(draft, draft.cursor as int, input_width),
            ),
        ),
        AgentEditorField::Instructions => Some(
            cursor_below(
                PANEL_PREFIX_LINES + 12 + description_window(
                    draft,
                    draft.description@.len() as int,
                    input_width,
                ).lines.len(),
                editor::text_window(
                    draft.instructions@,
                    draft.cursor as int,
                    input_width,
                    AGENT_EDIT_CONTENT_INSTRUCTIONS_MAX_LINES as int,
                    INSTRUCTIONS_HINT@,
                ),
            ),
        ),
        _ => None,
    }
}

/// The cursor in the text that an agent is generated from.
pub open spec fn generate_cursor(
    draft: AgentEditorDraft,
    input_width: int,
    height: Option<usize>,
    create_flow: bool,
) -> (int, int) {
    cursor_below(
        PANEL_PREFIX_LINES + generate_row(draft, create_flow),
        editor::text_window(
            draft.generated_description@,
            draft.cursor as int,
            input_width,
            generate_rows(height, create_flow),
            DESCRIPTION_HINT@,
        ),
    )
}

/// The cursor in a step of making an agent.
pub open spec fn step_cursor(
    draft: AgentEditorDraft,
    step: AgentCreateStep,
    input_width: int,
    height: Option<usize>,
) -> Option<(int, int)> {
    let rows = PANEL_PREFIX_LINES + step_field_row(draft);
    match step {
        AgentCreateStep::ManualName => Some(
            (rows, editor::box_column(draft.name@, draft.cursor as int)),
        ),
        AgentCreateStep::ManualDescription => Some(
            cursor_below(
                rows,
                editor::text_window(
                    draft.description@,
                    draft.cursor as int,
                    input_width,
                    AGENT_DESCRIPTION_MAX_LINES as int,
                    "这个 agent 适合做什么"@,
                ),
            ),
        ),
        AgentCreateStep::ManualInstructions => Some(
            cursor_below(
                rows,
                editor::text_window(
                    draft.instructions@,
                    draft.cursor as int,
                    input_width,
                    generate_rows(height, true),
                    INSTRUCTIONS_HINT@,
                ),
            ),
        ),
        AgentCreateStep::GenerateDescription => Some(
            generate_cursor(draft, input_width, height, true),
        ),
        _ => None,
    }
}

/// The line and the column of the cursor in the panel, where something is being written.
pub open spec fn panel_cursor(
    manager: AgentManagerState,
    w: int,
    height: Option<usize>,
) -> Option<(int, int)> {
    let input_width = editor::inner_width(w);
    match manager.view {
        AgentManagerView::GeneratedPreview => preview_cursor(manager.draft, input_width),
        AgentManagerView::EditMetadata => metadata_cursor(manager.draft, input_width),
        AgentManagerView::Generate => Some(
            generate_cursor(manager.draft, input_width, height, false),
        ),
        AgentManagerView::Create(step) => step_cursor(manager.draft, step, input_width, height),
        _ => None,
    }
}

pub open spec fn opt_place(o: Option<(usize, usize)>) -> Option<(int, int)> {
    match o {
        Some(p) => Some((p.0 as int, p.1 as int)),
        None => None,
    }
}

fn cursor_of_preview(draft: &AgentEditorDraft, input_width: usize) -> (r: Option<(usize, usize)>)
    ensures
        opt_place(r) == preview_cursor(*draft, input_width as int),
{
    match draft.field {
        AgentEditorField::Name => Some(
            (
                PANEL_PREFIX_LINES + agent_editor_cursor_prefix_lines(draft, 0),
                editor::input_box_cursor_col(draft.name.as_str(), draft.cursor),
            ),
        ),
        AgentEditorField::Description => {
            let window = window_of_description(draft, draft.cursor, input_width);
            Some(
                place_below(
                    PANEL_PREFIX_LINES + agent_editor_cursor_prefix_lines(draft, 1),
                    &window,
                ),
            )
        },
        AgentEditorField::Instructions => {
            let at: usize = cursor_in(
                draft,
                AgentEditorField::Description,
                draft.description.as_str(),
            );
            let above = window_of_description(draft, at, input_width);
            let window = editor::editable_text_window(
                draft.instructions.as_str(),
                draft.cursor,
                input_width,
                AGENT_EDIT_CONTENT_INSTRUCTIONS_MAX_LINES,
                INSTRUCTIONS_HINT,
            );
            proof {
                lemma_window_rows(
                    draft.description@,
                    at as int,
                    input_width as int,
                    AGENT_DESCRIPTION_MAX_LINES as int,
                    UNSET@,
                );
            }
            assert(above@.lines.len() == above.lines@.len());
            let rows: usize = PANEL_PREFIX_LINES + 14 + agent_tool_summary_line_count(
                &draft.tools,
                &draft.disallow_tools,
            ) + above.lines.len();
            Some(place_below(rows, &window))
        },
        _ => None,
    }
}

proof fn lemma_window_rows(
    s: Seq<char>,
    cursor: int,
    max: int,
    max_lines: int,
    placeholder: Seq<char>,
)
    ensures
        editor::text_window(s, cursor, max, max_lines, placeholder).lines.len() <= text::max_int(
            max_lines,
            1,
        ),
{
    if s.len() > 0 {
        editor::law_cursor_is_in_sight(s, cursor, max, max_lines, placeholder);
    }
}

fn cursor_of_metadata(draft: &AgentEditorDraft, input_width: usize) -> (r: Option<(usize, usize)>)
    ensures
        opt_place(r) == metadata_cursor(*draft, input_width as int),
{
    match draft.field {
        AgentEditorField::Name => Some(
            (
                PANEL_PREFIX_LINES + 5,
                editor::input_box_cursor_col(draft.name.as_str(), draft.cursor),
            ),
        ),
        AgentEditorField::Description => {
            let window = window_of_description(draft, draft.cursor, input_width);
            Some(place_below(PANEL_PREFIX_LINES + 9, &window))
        },
        AgentEditorField::Instructions => {
            let end: usize = text::char_count(draft.description.as_str());
            let above = window_of_description(draft, end, input_width);
            let window = editor::editable_text_window(
                draft.instructions.as_str(),
                draft.cursor,
                input_width,
                AGENT_EDIT_CONTENT_INSTRUCTIONS_MAX_LINES,
                INSTRUCTIONS_HINT,
            );
            proof {
                lemma_window_rows(
                    draft.description@,
                    end as int,
                    input_width as int,
                    AGENT_DESCRIPTION_MAX_LINES as int,
                    UNSET@,
                );
            }
            assert(above@.lines.len() == above.lines@.len());
            Some(place_below(PANEL_PREFIX_LINES + 12 + above.lines.len(), &window))
        },
        _ => None,
    }
}

fn cursor_of_generate(
    draft: &AgentEditorDraft,
    input_width: usize,
    height: Option<usize>,
    create_flow: bool,
) -> (r: (usize, usize))
    ensures
        (r.0 as int, r.1 as int) == generate_cursor(
            *draft,
            input_width as int,
            height,
            create_flow,
        ),
{
    let window = editor::editable_text_window(
        draft.generated_description.as_str(),
        draft.cursor,
        input_width,
        agent_generate_text_max_lines(height, create_flow),
        DESCRIPTION_HINT,
    );
    place_below(
        PANEL_PREFIX_LINES + agent_generate_cursor_prefix_lines(draft, create_flow),
        &window,
    )
}

fn cursor_of_step(
    draft: &AgentEditorDraft,
    step: AgentCreateStep,
    input_width: usize,
    height: Option<usize>,
) -> (r: Option<(usize, usize)>)
    ensures
        opt_place(r) == step_cursor(*draft, step, input_width as int, height),
{
    let rows: usize = PANEL_PREFIX_LINES + agent_manual_create_field_cursor_prefix_lines(draft);
    match step {
        AgentCreateStep::ManualName => Some(
            (rows, editor::input_box_cursor_col(draft.name.as_str(), draft.cursor)),
        ),
        AgentCreateStep::ManualDescription => {
            let window = editor::editable_text_window(
                draft.description.as_str(),
                draft.cursor,
                input_width,
                AGENT_DESCRIPTION_MAX_LINES,
                "这个 agent 适合做什么",
            );
            Some(place_below(rows, &window))
        },
        AgentCreateStep::ManualInstructions => {
            let window = editor::editable_text_window(
                draft.instructions.as_str(),
                draft.cursor,
                input_width,
                agent_generate_text_max_lines(height, true),
                INSTRUCTIONS_HINT,
            );
            Some(place_below(rows, &window))
        },
        AgentCreateStep::GenerateDescription => Some(
            cursor_of_generate(draft, input_width, height, true),
        ),
        _ => None,
    }
}

pub fn agent_editor_cursor(manager: &AgentManagerState, w: usize, height: Option<usize>) -> (r:
    Option<(usize, usize)>)
    ensures
        opt_place(r) == panel_cursor(*manager, w as int, height),
{
    let input_width: usize = editor::input_box_inner_width(w);
    match manager.view {
        AgentManagerView::GeneratedPreview => cursor_of_preview(&manager.draft, input_width),
        AgentManagerView::EditMetadata => cursor_of_metadata(&manager.draft, input_width),
        AgentManagerView::Generate => Some(
            cursor_of_generate(&manager.draft, input_width, height, false),
        ),
        AgentManagerView::Create(step) => cursor_of_step(
            &manager.draft,
            step,
            input_width,
            height,
        ),
        _ => None,
    }
}

/// While the words of an agent are edited, the cursor is on a line of text in the box of its
/// field.
pub proof fn law_metadata_cursor_is_in_its_box(manager: AgentManagerState, w: int)
    requires
        manager.view == AgentManagerView::EditMetadata,
        manager.draft.field == AgentEditorField::Name || (manager.draft.field
            == AgentEditorField::Description && manager.draft.description@.len() > 0) || (
        manager.draft.field == AgentEditorField::Instructions
            && manager.draft.instructions@.len() > 0),
    ensures
        ({
            let draft = manager.draft;
            let lines = panel_head() + edit_metadata_lines(manager, w);
            let bw = editor::box_width(w);
            let iw = editor::inner_width(w);
            panel_cursor(manager, w, None) matches Some(at) && {
                &&& 0 <= at.0 < lines.len()
                &&& match draft.field {
                    AgentEditorField::Name => lines[at.0] == (if draft.name@.len() == 0 {
                        editor::box_content(UNSET@, editor::placeholder_style(), bw)
                    } else {
                        editor::box_content(draft.name@, line::plain(), bw)
                    }),
                    AgentEditorField::Description => {
                        let window = description_window(draft, draft.cursor as int, iw);
                        lines[at.0] == editor::box_content(
                            window.lines[window.cursor_line],
                            line::plain(),
                            bw,
                        )
                    },
                    _ => {
                        let window = editor::text_window(
                            draft.instructions@,
                            draft.cursor as int,
                            iw,
                            AGENT_EDIT_CONTENT_INSTRUCTIONS_MAX_LINES as int,
                            INSTRUCTIONS_HINT@,
                        );
                        lines[at.0] == editor::box_content(
                            window.lines[window.cursor_line],
                            line::plain(),
                            bw,
                        )
                    },
                }
            }
        }),
{
    let draft = manager.draft;
    let iw = editor::inner_width(w);
    lemma_window_rows(
        draft.description@,
        field_cursor(draft, AgentEditorField::Description, draft.description@),
        iw,
        AGENT_DESCRIPTION_MAX_LINES as int,
        UNSET@,
    );
    if draft.description@.len() > 0 {
        editor::law_cursor_is_in_sight(
            draft.description@,
            draft.cursor as int,
            iw,
            AGENT_DESCRIPTION_MAX_LINES as int,
            UNSET@,
        );
    }
    if draft.instructions@.len() > 0 {
        editor::law_cursor_is_in_sight(
            draft.instructions@,
            draft.cursor as int,
            iw,
            AGENT_EDIT_CONTENT_INSTRUCTIONS_MAX_LINES as int,
            INSTRUCTIONS_HINT@,
        );
    }
}

/// How many rows the panel may take of `height` rows: three quarters, rounded, and more where
/// that is little.
pub open spec fn panel_limit(height: int) -> int {
    text::min_int(
        text::max_int((3 * height + 2) / 4, 28),
        text::max_int(text::minus(height, 4), 1),
    )
}

/// The rows of the panel with `count` lines.
pub open spec fn panel_rows(height: int, count: int) -> int {
    let limit = panel_limit(height);
    text::min_int(text::max_int(count, 5), limit - 3) + 3
}

/// The panel at the bottom of `area`.
pub open spec fn agents_area(area: Rect, count: int) -> Rect {
    let rows = panel_rows(area.height as int, count);
    Rect {
        x: area.x,
        y: (area.y + area.height - rows) as u16,
        width: area.width,
        height: rows as u16,
    }
}

/// The lines of the panel stand in this part of it.
pub open spec fn agents_content(panel: Rect) -> Rect {
    Rect {
        x: (panel.x + 2) as u16,
        y: (panel.y + 1) as u16,
        width: text::minus(panel.width as int, 4) as u16,
        height: (panel.height - 3) as u16,
    }
}

/// The panel as it is to be drawn.
#[derive(Debug, PartialEq, Eq)]
pub struct DrawnAgents {
    pub area: Rect,
    pub divider: Line,
    pub content: Rect,
    pub lines: Vec<Line>,
    pub footer: Line,
    pub cursor: Option<(u16, u16)>,
}

/// The cursor on the screen, kept inside of the content.
pub open spec fn screen_cursor(at: (int, int), content: Rect) -> (u16, u16) {
    (
        text::min_int(
            text::min_int(content.x + at.1 % 0x10000, u16::MAX as int),
            text::min_int(content.x + text::minus(content.width as int, 1), u16::MAX as int),
        ) as u16,
        text::min_int(
            text::min_int(content.y + at.0 % 0x10000, u16::MAX as int),
            text::min_int(content.y + text::minus(content.height as int, 1), u16::MAX as int),
        ) as u16,
    )
}

fn cursor_on_screen(at: (usize, usize), content: Rect) -> (r: (u16, u16))
    ensures
        r == screen_cursor((at.0 as int, at.1 as int), content),
{
    let x: u16 = content.x.saturating_add((at.1 % 0x10000) as u16);
    let right: u16 = content.x.saturating_add(content.width.saturating_sub(1));
    let y: u16 = content.y.saturating_add((at.0 % 0x10000) as u16);
    let bottom: u16 = content.y.saturating_add(content.height.saturating_sub(1));
    (
        if x <= right {
            x
        } else {
            right
        },
        if y <= bottom {
            y
        } else {
            bottom
        },
    )
}

/// The drawn panel for `manager` in `area`.
pub open spec fn agents_shown(manager: AgentManagerState, area: Rect, r: DrawnAgents) -> bool {
    let natural = panel_lines(manager, text::minus(area.width as int, 4), None);
    let panel = agents_area(area, natural.len() as int);
    let content = agents_content(panel);
    let height = Some(content.height as usize);
    &&& r.area == panel
    &&& r.divider@ == model_panel::divider_line(area.width as int)
    &&& r.content == content
    &&& line::lines_view(r.lines@) == panel_lines(manager, content.width as int, height)
    &&& r.footer@ == one(footer_words(manager.view), permission::gray())
    &&& r.cursor == match panel_cursor(manager, content.width as int, height) {
        Some(at) => Some(screen_cursor(at, content)),
        None => None,
    }
}

fn agents_height(height: u16, count: usize) -> (r: u16)
    requires
        height >= 12,
    ensures
        r == panel_rows(height as int, count as int),
        8 <= r <= height - 4,
{
    let rounded: u16 = ((3 * height as u32 + 2) / 4) as u16;
    let a: u16 = if rounded >= 28 {
        rounded
    } else {
        28
    };
    let room: u16 = height - 4;
    let limit: u16 = if a <= room {
        a
    } else {
        room
    };
    let most: usize = text::min_usize(text::max_usize(count, 5), (limit - 3) as usize);
    most as u16 + 3
}

/// Lays the panel out at the bottom of `area`, which has room for it.
pub fn render_agents_panel(manager: &AgentManagerState, area: Rect) -> (r: DrawnAgents)
    requires
        area.height >= 12,
        area.y + area.height <= u16::MAX,
        area.x + 2 <= u16::MAX,
    ensures
        agents_shown(*manager, area, r),
{
    let natural = build_agents_lines(manager, area.width.saturating_sub(4) as usize, None);
    assert(line::lines_view(natural@).len() == natural@.len());
    let rows: u16 = agents_height(area.height, natural.len());
    let panel = Rect {
        x: area.x,
        y: area.y + area.height - rows,
        width: area.width,
        height: rows,
    };
    let content = Rect {
        x: panel.x + 2,
        y: panel.y + 1,
        width: panel.width.saturating_sub(4),
        height: rows - 3,
    };
    let height: Option<usize> = Some(content.height as usize);
    let lines = build_agents_lines(manager, content.width as usize, height);
    let dashes = text::repeat('━', area.width.saturating_sub(1) as usize);
    let divider = line::line1(line::span_of(dashes, line::colored(model_panel::bright())));
    let footer = agents_footer_hint(manager.view);
    let cursor: Option<(u16, u16)> = match agent_editor_cursor(
        manager,
        content.width as usize,
        height,
    ) {
        Some(at) => Some(cursor_on_screen(at, content)),
        None => None,
    };
    DrawnAgents { area: panel, divider, content, lines, footer, cursor }
}

} // verus!
