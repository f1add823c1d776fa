//! The drawer in which the user allows a tool or answers its questions.
use crate::text;
use crate::tui::line;
use crate::tui::line::Color;
use crate::tui::line::Line;
use crate::tui::line::LineView;
use crate::tui::line::Span;
use crate::tui::line::SpanView;
use crate::tui::line::Style;
use crate::tui::render::messages;
use crate::tui::state;
use crate::tui::state::permission;
use crate::tui::state::Rect;
use crate::tui::state::SubagentNode;
use crate::tui::state::UiMessage;
use crate::tui::state::UiState;
use crate::tui::widgets;
use crate::tui::widgets::file_mutation;
use crate::tui::widgets::wrap;
use crate::tui::widgets::wrap::word_wrap;
use crate::types::events::BashPreview;
use crate::types::events::PermissionPreview;
use crate::types::events::ToolPauseKind;
use crate::types::events::ToolPauseRequest;
use crate::types::events::UserInputOption;
use crate::types::events::UserInputPreview;
use crate::types::events::UserInputQuestion;
use crate::types::message;
use crate::types::message::BlockView;
use crate::types::message::ContentBlock;
use crate::types::message::Message;
use crate::types::message::MessageView;
use crate::types::message::ToolUseBlock;
use crate::types::message::ToolUseView;
use crate::width;
use vstd::prelude::*;

verus! {

pub const PERMISSION_DRAWER_MAX_HEIGHT: u16 = 18;

pub const EDIT_PERMISSION_DRAWER_MAX_HEIGHT: u16 = 50;

pub const USER_INPUT_NONE_LABEL: &'static str = "None of the above";

pub const USER_INPUT_NONE_DESCRIPTION: &'static str = "Optionally, add details in notes (tab).";

pub const USER_INPUT_NOTE_PREFIX: &'static str = "› ";

pub const USER_INPUT_NOTE_PLACEHOLDER: &'static str = "Add notes";

#[verifier::allow_in_spec]
pub fn gray() -> (r: Style)
    returns
        (Style { fg: Some(Color::Rgb(140, 145, 155)), bg: None, bold: false, italic: false }),
{
    line::rgb(140, 145, 155)
}

#[verifier::allow_in_spec]
pub fn light() -> (r: Style)
    returns
        (Style { fg: Some(Color::Rgb(220, 220, 225)), bg: None, bold: false, italic: false }),
{
    line::rgb(220, 220, 225)
}

/// The style of what is selected.
#[verifier::allow_in_spec]
pub fn chosen() -> (r: Style)
    returns
        (Style { fg: Some(Color::Rgb(0x42, 0xd9, 0xe8)), bg: None, bold: true, italic: false }),
{
    line::bold(line::rgb(0x42, 0xd9, 0xe8))
}

#[verifier::allow_in_spec]
pub fn permission_option_style(selected: bool) -> (r: Style)
    returns
        (if selected {
            Style { fg: Some(Color::Rgb(0x42, 0xd9, 0xe8)), bg: None, bold: true, italic: false }
        } else {
            Style { fg: None, bg: None, bold: false, italic: false }
        }),
{
    if selected {
        chosen()
    } else {
        line::plain()
    }
}

/// What allowing and denying a request means.
pub open spec fn option_words(kind: ToolPauseKind) -> (Seq<char>, Seq<char>) {
    match kind {
        ToolPauseKind::Permission(PermissionPreview::Bash(_)) => (
            "run command"@,
            "skip command"@,
        ),
        ToolPauseKind::Permission(PermissionPreview::Edit(_)) => (
            "apply changes"@,
            "reject changes"@,
        ),
        ToolPauseKind::Permission(PermissionPreview::Write(_)) => (
            "write file"@,
            "reject write"@,
        ),
        ToolPauseKind::Permission(PermissionPreview::Read(_)) => ("read file"@, "skip read"@),
        ToolPauseKind::Permission(PermissionPreview::Custom { summary }) => (
            "allow tool"@,
            "deny tool"@,
        ),
        ToolPauseKind::UserInput(_) => ("submit response"@, "cancel request"@),
    }
}

pub fn permission_option_descriptions(request: &ToolPauseRequest) -> (r: (
    &'static str,
    &'static str,
))
    ensures
        (r.0@, r.1@) == option_words(request.kind),
{
    match &request.kind {
        ToolPauseKind::Permission(PermissionPreview::Bash(_)) => ("run command", "skip command"),
        ToolPauseKind::Permission(PermissionPreview::Edit(_)) => (
            "apply changes",
            "reject changes",
        ),
        ToolPauseKind::Permission(PermissionPreview::Write(_)) => ("write file", "reject write"),
        ToolPauseKind::Permission(PermissionPreview::Read(_)) => ("read file", "skip read"),
        ToolPauseKind::Permission(PermissionPreview::Custom { summary: _ }) => (
            "allow tool",
            "deny tool",
        ),
        ToolPauseKind::UserInput(_) => ("submit response", "cancel request"),
    }
}

/// The choice between yes and no.
pub open spec fn action_lines(selected: int, kind: ToolPauseKind) -> Seq<LineView> {
    let yes = permission_option_style(selected == 0);
    let no = permission_option_style(selected == 1);
    seq![
        line::of_spans(
            seq![
                line::sp("1. "@, yes),
                line::sp("Yes"@, yes),
                line::raw("   "@),
                line::sp(option_words(kind).0, gray()),
            ],
        ),
        line::of_spans(
            seq![
                line::sp("2. "@, no),
                line::sp("No "@, no),
                line::raw("   "@),
                line::sp(option_words(kind).1, gray()),
            ],
        ),
    ]
}

pub fn build_permission_action_lines(state: &UiState, request: &ToolPauseRequest) -> (r: Vec<Line>)
    ensures
        line::lines_view(r@) == action_lines(state.permission_selected as int, request.kind),
{
    let yes = permission_option_style(state.permission_selected == 0);
    let no = permission_option_style(state.permission_selected == 1);
    let (yes_desc, no_desc) = permission_option_descriptions(request);
    let mut lines: Vec<Line> = Vec::new();
    assert(line::lines_view(lines@) =~= Seq::<LineView>::empty());
    line::push_line(
        &mut lines,
        line::line4(
            line::span("1. ", yes),
            line::span("Yes", yes),
            line::raw_span("   "),
            line::span(yes_desc, gray()),
        ),
    );
    line::push_line(
        &mut lines,
        line::line4(
            line::span("2. ", no),
            line::span("No ", no),
            line::raw_span("   "),
            line::span(no_desc, gray()),
        ),
    );
    assert(line::lines_view(lines@) =~= action_lines(
        state.permission_selected as int,
        request.kind,
    ));
    lines
}

/// What the keys do while questions are answered.
pub open spec fn question_hints(note_mode: bool) -> Seq<LineView> {
    if note_mode {
        seq![
            line::of_spans(
                seq![
                    line::sp("tab or esc "@, gray()),
                    line::sp("to finish notes"@, gray()),
                    line::raw(" | "@),
                    line::sp("enter "@, gray()),
                    line::sp("to submit answer"@, gray()),
                ],
            ),
        ]
    } else {
        seq![
            line::of_spans(
                seq![
                    line::sp("tab to add notes"@, chosen()),
                    line::raw(" | "@),
                    line::sp("enter to submit answer"@, gray()),
                    line::raw(" | "@),
                    line::sp("←/→ to navigate questions"@, gray()),
                    line::raw(" | "@),
                    line::sp("esc to interrupt"@, gray()),
                ],
            ),
        ]
    }
}

pub fn build_user_input_action_lines(state: &UiState) -> (r: Vec<Line>)
    ensures
        line::lines_view(r@) == question_hints(state.user_input_note_mode),
{
    let mut lines: Vec<Line> = Vec::new();
    assert(line::lines_view(lines@) =~= Seq::<LineView>::empty());
    let mut spans: Vec<Span> = Vec::new();
    assert(line::spans_view(spans@) =~= Seq::<SpanView>::empty());
    if state.user_input_note_mode {
        line::push_span(&mut spans, line::span("tab or esc ", gray()));
        line::push_span(&mut spans, line::span("to finish notes", gray()));
        line::push_span(&mut spans, line::raw_span(" | "));
        line::push_span(&mut spans, line::span("enter ", gray()));
        line::push_span(&mut spans, line::span("to submit answer", gray()));
        assert(line::spans_view(spans@) =~= question_hints(true)[0].spans);
    } else {
        line::push_span(&mut spans, line::span("tab to add notes", chosen()));
        line::push_span(&mut spans, line::raw_span(" | "));
        line::push_span(&mut spans, line::span("enter to submit answer", gray()));
        line::push_span(&mut spans, line::raw_span(" | "));
        line::push_span(&mut spans, line::span("←/→ to navigate questions", gray()));
        line::push_span(&mut spans, line::raw_span(" | "));
        line::push_span(&mut spans, line::span("esc to interrupt", gray()));
        assert(line::spans_view(spans@) =~= question_hints(false)[0].spans);
    }
    line::push_line(&mut lines, line::line_of(spans));
    assert(line::lines_view(lines@) =~= question_hints(state.user_input_note_mode));
    lines
}

/// How many rows of a track of `height` rows the thumb of its scrollbar takes.
pub open spec fn thumb_rows(height: int, total: int) -> int {
    let rows = text::min_int(height * height, usize::MAX as int) / total;
    if rows < 1 {
        1
    } else if rows > height {
        height
    } else {
        rows
    }
}

/// The row of the track at which the thumb starts.
pub open spec fn thumb_start(height: int, total: int, top: int) -> int {
    let free = height - thumb_rows(height, total);
    text::min_int(top * free, usize::MAX as int) / (total - height)
}

/// For each row of the scrollbar whether the thumb is there; there is no scrollbar where nothing
/// is out of sight.
pub open spec fn scrollbar(height: int, total: int, top: int) -> Seq<bool> {
    if height == 0 || total <= height {
        Seq::empty()
    } else {
        Seq::new(
            height as nat,
            |i: int|
                thumb_start(height, total, top) <= i < thumb_start(height, total, top)
                    + thumb_rows(height, total),
        )
    }
}

/// The thumb never leaves the track.
pub proof fn law_thumb_stays_on_the_track(height: int, total: int, top: int)
    requires
        0 < height < total,
        0 <= top <= total - height,
    ensures
        0 <= thumb_start(height, total, top),
        thumb_start(height, total, top) + thumb_rows(height, total) <= height,
        1 <= thumb_rows(height, total) <= height,
{
    let free = height - thumb_rows(height, total);
    let room = total - height;
    let product = text::min_int(top * free, usize::MAX as int);
    assert(0 <= top * free <= room * free) by (nonlinear_arith)
        requires
            0 <= top <= room,
            0 <= free,
    ;
    assert(0 <= product / room <= free) by (nonlinear_arith)
        requires
            0 <= product <= room * free,
            room > 0,
    ;
}

/// The product, or the largest `usize` where it is larger.
fn times_capped(a: usize, b: usize) -> (r: usize)
    ensures
        r == text::min_int(a * b, usize::MAX as int),
{
    match a.checked_mul(b) {
        Some(n) => n,
        None => usize::MAX,
    }
}

pub fn permission_scrollbar(height: usize, total: usize, top: usize) -> (r: Vec<bool>)
    ensures
        r@ == scrollbar(height as int, total as int, top as int),
{
    let mut out: Vec<bool> = Vec::new();
    if height == 0 || total <= height {
        return out;
    }
    let max_scroll: usize = total - height;
    proof {
        assert(height * height >= 0) by (nonlinear_arith);
    }
    let square: usize = times_capped(height, height);
    let rows: usize = square / total;
    let thumb: usize = if rows < 1 {
        1
    } else if rows > height {
        height
    } else {
        rows
    };
    let free: usize = height - thumb;
    assert(top * free >= 0) by (nonlinear_arith)
        requires
            top >= 0,
            free >= 0,
    ;
    let start: usize = times_capped(top, free) / max_scroll;
    let ghost all = scrollbar(height as int, total as int, top as int);
    let mut i: usize = 0;
    while i < height
        invariant
            i <= height,
            0 < height < total,
            thumb == thumb_rows(height as int, total as int),
            start == thumb_start(height as int, total as int, top as int),
            all == scrollbar(height as int, total as int, top as int),
            out@ == all.take(i as int),
        decreases height - i,
    {
        out.push(i >= start && i - start < thumb);
        assert(out@ =~= all.take(i + 1));
        i = i + 1;
    }
    assert(out@ =~= all);
    out
}

/// What the drawer shows, the line of the note in it, and the column of the cursor in the note.
#[derive(Debug, PartialEq, Eq)]
pub struct DrawerLines {
    pub lines: Vec<Line>,
    pub note_line_index: Option<usize>,
    pub note_cursor_column: Option<usize>,
}

#[verifier::ext_equal]
pub struct DrawerView {
    pub lines: Seq<LineView>,
    pub note_line_index: Option<int>,
    pub note_cursor_column: Option<int>,
}

pub open spec fn opt_int(o: Option<usize>) -> Option<int> {
    match o {
        Some(n) => Some(n as int),
        None => None,
    }
}

impl View for DrawerLines {
    type V = DrawerView;

    open spec fn view(&self) -> DrawerView {
        DrawerView {
            lines: line::lines_view(self.lines@),
            note_line_index: opt_int(self.note_line_index),
            note_cursor_column: opt_int(self.note_cursor_column),
        }
    }
}

/// A drawer that holds nothing but lines.
pub open spec fn just_lines(lines: Seq<LineView>) -> DrawerView {
    DrawerView { lines, note_line_index: None, note_cursor_column: None }
}

/// What is shown of a request to run a command.
pub open spec fn command_lines(p: BashPreview) -> Seq<LineView> {
    let described = match p.description {
        Some(d) => if text::trimmed(d@).len() > 0 {
            seq![
                line::of_spans(
                    seq![
                        line::raw("  "@),
                        line::sp("Description: "@, gray()),
                        line::sp(text::trimmed(d@), light()),
                    ],
                ),
                line::blank(),
            ]
        } else {
            Seq::empty()
        },
        None => Seq::empty(),
    };
    seq![line::blank(), line::blank()] + described + seq![
        line::of_spans(
            seq![
                line::raw("  "@),
                line::sp("$ "@, line::bold(line::rgb(0x50, 0xc8, 0x78))),
                line::sp(p.command@, light()),
            ],
        ),
    ]
}

fn build_command_lines(p: &BashPreview) -> (r: Vec<Line>)
    ensures
        line::lines_view(r@) == command_lines(*p),
{
    let mut lines: Vec<Line> = Vec::new();
    assert(line::lines_view(lines@) =~= Seq::<LineView>::empty());
    line::push_line(&mut lines, line::empty_line());
    line::push_line(&mut lines, line::empty_line());
    if let Some(d) = &p.description {
        let bare = text::trim(d.as_str());
        if text::char_count(bare.as_str()) > 0 {
            line::push_line(
                &mut lines,
                line::line3(
                    line::raw_span("  "),
                    line::span("Description: ", gray()),
                    line::span_of(bare, light()),
                ),
            );
            line::push_line(&mut lines, line::empty_line());
        }
    }
    line::push_line(
        &mut lines,
        line::line3(
            line::raw_span("  "),
            line::span("$ ", line::bold(line::rgb(0x50, 0xc8, 0x78))),
            line::span(p.command.as_str(), light()),
        ),
    );
    assert(line::lines_view(lines@) =~= command_lines(*p));
    lines
}

/// The question, wrapped below its heading.
pub open spec fn question_lines(q: UserInputQuestion, content_width: int) -> Seq<LineView> {
    seq![line::of_spans(seq![line::sp(q.header@, gray())])] + widgets::prefixed(
        wrap::wrapped(q.question@, content_width),
        Seq::empty(),
        chosen(),
    )
}

pub fn user_input_question_lines(question: &UserInputQuestion, content_width: usize) -> (r: Vec<
    Line,
>)
    ensures
        line::lines_view(r@) == question_lines(*question, content_width as int),
{
    let mut lines: Vec<Line> = Vec::new();
    assert(line::lines_view(lines@) =~= Seq::<LineView>::empty());
    line::push_line(&mut lines, line::line1(line::span(question.header.as_str(), gray())));
    let texts = word_wrap(question.question.as_str(), content_width);
    let nothing: Vec<Span> = Vec::new();
    assert(line::spans_view(nothing@) =~= Seq::<SpanView>::empty());
    widgets::push_prefixed(&mut lines, &texts, &nothing, chosen());
    assert(line::lines_view(lines@) =~= question_lines(*question, content_width as int));
    lines
}

/// An answer to choose.
pub open spec fn option_line(
    selected: bool,
    label: Seq<char>,
    description: Seq<char>,
) -> LineView {
    line::of_spans(
        seq![
            line::sp(
                if selected {
                    "› "@
                } else {
                    "  "@
                },
                if selected {
                    chosen()
                } else {
                    line::rgb(85, 92, 105)
                },
            ),
            line::sp(
                label,
                if selected {
                    chosen()
                } else {
                    light()
                },
            ),
            line::raw("   "@),
            line::sp(description, gray()),
        ],
    )
}

pub fn user_input_option_line(selected: bool, label: &str, description: &str) -> (r: Line)
    ensures
        r@ == option_line(selected, label@, description@),
{
    line::line4(
        line::span(
            if selected {
                "› "
            } else {
                "  "
            },
            if selected {
                chosen()
            } else {
                line::rgb(85, 92, 105)
            },
        ),
        line::span(
            label,
            if selected {
                chosen()
            } else {
                light()
            },
        ),
        line::raw_span("   "),
        line::span(description, gray()),
    )
}

/// A numbered label.
pub open spec fn numbered(n: int, label: Seq<char>) -> Seq<char> {
    text::decimal(n) + ". "@ + label
}

fn number_label(n: u64, label: &str) -> (r: String)
    ensures
        r@ == numbered(n as int, label@),
{
    let mut out = text::decimal_of(n);
    out.push_str(". ");
    out.push_str(label);
    out
}

/// The answers to choose from, and the choice of none of them.
pub open spec fn option_lines(options: Seq<UserInputOption>, selected: int) -> Seq<LineView> {
    Seq::new(
        options.len(),
        |i: int|
            option_line(
                i == selected,
                numbered(i + 1, options[i].label@),
                options[i].description@,
            ),
    ).push(
        option_line(
            selected == options.len(),
            numbered(options.len() as int + 1, USER_INPUT_NONE_LABEL@),
            USER_INPUT_NONE_DESCRIPTION@,
        ),
    )
}

fn push_option_lines(lines: &mut Vec<Line>, options: &Vec<UserInputOption>, selected: usize)
    ensures
        line::lines_view(final(lines)@) == line::lines_view(old(lines)@) + option_lines(
            options@,
            selected as int,
        ),
{
    let ghost before = line::lines_view(lines@);
    let ghost row = |i: int|
        option_line(
            i == selected,
            numbered(i + 1, options@[i].label@),
            options@[i].description@,
        );
    let n: usize = options.len();
    let mut i: usize = 0;
    assert(line::lines_view(lines@) =~= before + Seq::new(0, row));
    while i < n
        invariant
            i <= n == options@.len(),
            row == (|i: int|
                option_line(
                    i == selected,
                    numbered(i + 1, options@[i].label@),
                    options@[i].description@,
                )),
            line::lines_view(lines@) == before + Seq::new(i as nat, row),
        decreases n - i,
    {
        let label = number_label(i as u64 + 1, options[i].label.as_str());
        line::push_line(
            lines,
            user_input_option_line(
                i == selected,
                label.as_str(),
                options[i].description.as_str(),
            ),
        );
        assert(before + Seq::new((i + 1) as nat, row) =~= (before + Seq::new(
            i as nat,
            row,
        )).push(row(i as int)));
        i = i + 1;
    }
    let mut label = text::decimal_of_wide(n as u128 + 1);
    label.push_str(". ");
    label.push_str(USER_INPUT_NONE_LABEL);
    line::push_line(
        lines,
        user_input_option_line(selected == n, label.as_str(), USER_INPUT_NONE_DESCRIPTION),
    );
    assert(line::lines_view(lines@) =~= before + option_lines(options@, selected as int));
}

/// The note to an answer, or the invitation to write one.
pub open spec fn note_line(note: Seq<char>, editing: bool) -> LineView {
    line::of_spans(
        seq![
            line::sp(
                USER_INPUT_NOTE_PREFIX@,
                if editing {
                    chosen()
                } else {
                    gray()
                },
            ),
            if note.len() == 0 {
                line::sp(USER_INPUT_NOTE_PLACEHOLDER@, gray())
            } else {
                line::sp(note, light())
            },
        ],
    )
}

pub fn user_input_note_line(note: &str, editing: bool) -> (r: Line)
    ensures
        r@ == note_line(note@, editing),
{
    let marker = line::span(
        USER_INPUT_NOTE_PREFIX,
        if editing {
            chosen()
        } else {
            gray()
        },
    );
    if text::char_count(note) == 0 {
        line::line2(marker, line::span(USER_INPUT_NOTE_PLACEHOLDER, gray()))
    } else {
        line::line2(marker, line::span(note, light()))
    }
}

/// The column of the cursor in the line of the note.
pub open spec fn note_column(note: Seq<char>, cursor: int) -> int {
    text::min_int(
        width::unicode_str_width(USER_INPUT_NOTE_PREFIX@) + width::columns(
            text::first_chars(note, cursor),
        ),
        usize::MAX as int,
    )
}

pub fn user_input_note_cursor_column(note: &str, cursor_char: usize) -> (r: usize)
    ensures
        r == note_column(note@, cursor_char as int),
{
    let chars = text::chars_of(note);
    let end: usize = text::min_usize(cursor_char, chars.len());
    assert(chars@.subrange(0, end as int) =~= text::first_chars(note@, cursor_char as int));
    proof {
        width::lemma_columns_nonneg(chars@.subrange(0, end as int));
    }
    let used: usize = width::columns_of(&chars, 0, end);
    width::str_width(USER_INPUT_NOTE_PREFIX).saturating_add(used)
}

/// What is chosen and noted while a question is answered.
pub struct AnswerView {
    pub question_index: int,
    pub selected: int,
    pub note: Seq<char>,
    pub note_cursor: int,
    pub note_mode: bool,
}

/// What is shown of the question that is being answered.
pub open spec fn question_drawer(
    preview: UserInputPreview,
    content_width: int,
    answer: AnswerView,
) -> DrawerView {
    let q = preview.questions@[answer.question_index];
    let top = question_lines(q, content_width).push(line::blank()) + option_lines(
        q.options@,
        answer.selected,
    );
    if answer.note_mode || answer.note.len() > 0 {
        DrawerView {
            lines: top.push(line::blank()).push(note_line(answer.note, answer.note_mode)),
            note_line_index: Some(top.len() as int),
            note_cursor_column: Some(note_column(answer.note, answer.note_cursor)),
        }
    } else {
        just_lines(top)
    }
}

/// What is shown of a tool that changes or reads a file.
pub open spec fn tool_drawer(
    tool: Option<ToolUseView>,
    request: ToolPauseRequest,
    look: messages::Look,
    project_dir: Option<Seq<char>>,
    missing: LineView,
) -> Seq<LineView> {
    match tool {
        Some(t) => widgets::tool_lines(
            t,
            None,
            file_mutation::preview_of(Some(&request)),
            look.width as int,
            project_dir,
            look.collapsed,
            look.ms as int,
        ),
        None => seq![missing],
    }
}

pub open spec fn missing_tool(s: Seq<char>) -> LineView {
    line::of_spans(seq![line::sp(s, line::rgb(255, 100, 100))])
}

/// What the drawer shows of a request, before the lines on where it comes from.
pub open spec fn bare_drawer(
    request: ToolPauseRequest,
    tool: Option<ToolUseView>,
    look: messages::Look,
    project_dir: Option<Seq<char>>,
    answer: AnswerView,
) -> DrawerView {
    match request.kind {
        ToolPauseKind::Permission(PermissionPreview::Bash(p)) => just_lines(command_lines(p)),
        ToolPauseKind::Permission(PermissionPreview::Edit(_)) => just_lines(
            tool_drawer(
                tool,
                request,
                look,
                project_dir,
                missing_tool("Missing edit tool input for preview"@),
            ),
        ),
        ToolPauseKind::Permission(PermissionPreview::Write(_)) => just_lines(
            tool_drawer(
                tool,
                request,
                look,
                project_dir,
                missing_tool("Missing write tool input for preview"@),
            ),
        ),
        ToolPauseKind::Permission(PermissionPreview::Read(p)) => just_lines(
            tool_drawer(
                tool,
                request,
                look,
                project_dir,
                line::of_spans(
                    seq![
                        line::raw("  "@),
                        line::sp("Path: "@, gray()),
                        line::sp(widgets::shown_path(p.file_path@, project_dir), light()),
                    ],
                ),
            ),
        ),
        ToolPauseKind::Permission(PermissionPreview::Custom { summary }) => just_lines(
            seq![line::blank()],
        ),
        ToolPauseKind::UserInput(preview) => question_drawer(
            preview,
            look.width as int,
            answer,
        ),
    }
}

/// Which agent asks, and which rule made it ask.
pub open spec fn source_lines(request: ToolPauseRequest) -> Seq<LineView> {
    let from = match request.source_agent_label {
        Some(label) => seq![
            line::of_spans(
                seq![
                    line::raw("  "@),
                    line::sp("From: "@, gray()),
                    line::sp(label@, light()),
                ],
            ),
        ],
        None => Seq::empty(),
    };
    let rule = match request.permission_source {
        Some(s) => seq![
            line::of_spans(
                seq![
                    line::raw("  "@),
                    line::sp("Rule: "@, gray()),
                    line::sp(s.decision@, light()),
                ],
            ),
            line::of_spans(
                seq![
                    line::raw("  "@),
                    line::sp(s.source@, line::rgb(165, 172, 182)),
                    line::sp(" -> "@, line::rgb(95, 101, 113)),
                    line::sp(s.rule@, line::rgb(165, 172, 182)),
                ],
            ),
        ],
        None => Seq::empty(),
    };
    from + rule
}

/// The drawer with the lines on where the request comes from below its first line.
pub open spec fn with_source(d: DrawerView, request: ToolPauseRequest) -> DrawerView {
    let extra = source_lines(request);
    if d.lines.len() == 0 || extra.len() == 0 {
        d
    } else {
        DrawerView {
            lines: d.lines.take(1) + extra + seq![line::blank()] + d.lines.skip(1),
            note_line_index: match d.note_line_index {
                Some(i) => Some(i + extra.len() + 1),
                None => None,
            },
            note_cursor_column: d.note_cursor_column,
        }
    }
}

/// What the drawer shows of a request.
pub open spec fn drawer_lines(
    request: ToolPauseRequest,
    tool: Option<ToolUseView>,
    look: messages::Look,
    project_dir: Option<Seq<char>>,
    answer: AnswerView,
) -> DrawerView {
    let missing = request.kind matches ToolPauseKind::UserInput(preview) && answer.question_index
        >= preview.questions@.len();
    if missing {
        just_lines(seq![line::text_line("Missing question"@)])
    } else {
        with_source(bare_drawer(request, tool, look, project_dir, answer), request)
    }
}

fn only_lines(lines: Vec<Line>) -> (r: DrawerLines)
    ensures
        r@ == just_lines(line::lines_view(lines@)),
{
    DrawerLines { lines, note_line_index: None, note_cursor_column: None }
}

fn single(l: Line) -> (r: Vec<Line>)
    ensures
        line::lines_view(r@) == seq![l@],
{
    let ghost x = l@;
    let mut lines: Vec<Line> = Vec::new();
    lines.push(l);
    assert(line::lines_view(lines@) =~= seq![x]);
    lines
}

/// The answer that is being given, as the state holds it.
pub struct Answer {
    pub question_index: usize,
    pub selected: usize,
    pub note: String,
    pub note_cursor: usize,
    pub note_mode: bool,
}

impl View for Answer {
    type V = AnswerView;

    open spec fn view(&self) -> AnswerView {
        AnswerView {
            question_index: self.question_index as int,
            selected: self.selected as int,
            note: self.note@,
            note_cursor: self.note_cursor as int,
            note_mode: self.note_mode,
        }
    }
}

fn build_question_drawer(
    preview: &UserInputPreview,
    content_width: usize,
    answer: &Answer,
) -> (r: DrawerLines)
    requires
        answer.question_index < preview.questions@.len(),
    ensures
        r@ == question_drawer(*preview, content_width as int, answer@),
{
    let q = &preview.questions[answer.question_index];
    let mut lines = user_input_question_lines(q, content_width);
    line::push_line(&mut lines, line::empty_line());
    push_option_lines(&mut lines, &q.options, answer.selected);
    let ghost top = line::lines_view(lines@);
    assert(top.len() == lines@.len());
    let mut index: Option<usize> = None;
    let mut column: Option<usize> = None;
    if answer.note_mode || text::char_count(answer.note.as_str()) > 0 {
        index = Some(lines.len());
        line::push_line(&mut lines, line::empty_line());
        column = Some(user_input_note_cursor_column(answer.note.as_str(), answer.note_cursor));
        line::push_line(
            &mut lines,
            user_input_note_line(answer.note.as_str(), answer.note_mode),
        );
    }
    DrawerLines { lines, note_line_index: index, note_cursor_column: column }
}

pub open spec fn opt_use_view(o: Option<&ToolUseBlock>) -> Option<ToolUseView> {
    match o {
        Some(t) => Some(t@),
        None => None,
    }
}

fn build_tool_drawer(
    tool: Option<&ToolUseBlock>,
    request: &ToolPauseRequest,
    look: messages::Look,
    project_dir: Option<&str>,
    missing: Line,
) -> (r: Vec<Line>)
    ensures
        line::lines_view(r@) == tool_drawer(
            opt_use_view(tool),
            *request,
            look,
            widgets::opt_str_view(project_dir),
            missing@,
        ),
{
    match tool {
        Some(t) => widgets::render_tool(
            t,
            None,
            Some(request),
            look.width,
            project_dir,
            look.collapsed,
            look.ms,
        ),
        None => single(missing),
    }
}

fn build_source_lines(request: &ToolPauseRequest) -> (r: Vec<Line>)
    ensures
        line::lines_view(r@) == source_lines(*request),
{
    let mut lines: Vec<Line> = Vec::new();
    assert(line::lines_view(lines@) =~= Seq::<LineView>::empty());
    if let Some(label) = &request.source_agent_label {
        line::push_line(
            &mut lines,
            line::line3(
                line::raw_span("  "),
                line::span("From: ", gray()),
                line::span(label.as_str(), light()),
            ),
        );
    }
    if let Some(s) = &request.permission_source {
        line::push_line(
            &mut lines,
            line::line3(
                line::raw_span("  "),
                line::span("Rule: ", gray()),
                line::span(s.decision.as_str(), light()),
            ),
        );
        line::push_line(
            &mut lines,
            line::line4(
                line::raw_span("  "),
                line::span(s.source.as_str(), line::rgb(165, 172, 182)),
                line::span(" -> ", line::rgb(95, 101, 113)),
                line::span(s.rule.as_str(), line::rgb(165, 172, 182)),
            ),
        );
    }
    assert(line::lines_view(lines@) =~= source_lines(*request));
    lines
}

pub fn add_permission_source_line(drawer: DrawerLines, request: &ToolPauseRequest) -> (r:
    DrawerLines)
    requires
        drawer.note_line_index matches Some(i) ==> i <= drawer.lines@.len(),
    ensures
        r@ == with_source(drawer@, *request),
{
    let ghost d = drawer@;
    let extra = build_source_lines(request);
    let ghost e = line::lines_view(extra@);
    assert(d.lines.len() == drawer.lines@.len() && e.len() == extra@.len());
    assert(e.len() <= 3);
    if drawer.lines.len() == 0 || extra.len() == 0 {
        return drawer;
    }
    let by: usize = extra.len() + 1;
    let mut lines = drawer.lines;
    let tail = lines.split_off(1);
    line::append_lines(&mut lines, extra);
    line::push_line(&mut lines, line::empty_line());
    let ghost t = line::lines_view(tail@);
    line::append_lines(&mut lines, tail);
    assert(t =~= d.lines.skip(1));
    assert(line::lines_view(lines@) =~= d.lines.take(1) + e + seq![line::blank()] + d.lines.skip(
        1,
    ));
    let n: usize = lines.len();
    assert(n == d.lines.len() + by);
    let index: Option<usize> = match drawer.note_line_index {
        Some(i) => Some(i + by),
        None => None,
    };
    DrawerLines { lines, note_line_index: index, note_cursor_column: drawer.note_cursor_column }
}

/// The drawer, and the note line in it is one of its lines.
pub fn build_permission_drawer_lines(
    request: &ToolPauseRequest,
    tool_use: Option<&ToolUseBlock>,
    look: messages::Look,
    project_dir: Option<&str>,
    answer: &Answer,
) -> (r: DrawerLines)
    ensures
        r@ == drawer_lines(
            *request,
            opt_use_view(tool_use),
            look,
            widgets::opt_str_view(project_dir),
            answer@,
        ),
{
    if let ToolPauseKind::UserInput(preview) = &request.kind {
        if answer.question_index >= preview.questions.len() {
            return only_lines(single(line::plain_line("Missing question")));
        }
    }
    let bare = match &request.kind {
        ToolPauseKind::Permission(PermissionPreview::Bash(p)) => only_lines(
            build_command_lines(p),
        ),
        ToolPauseKind::Permission(PermissionPreview::Edit(_)) => {
            let missing = line::line1(
                line::span("Missing edit tool input for preview", line::rgb(255, 100, 100)),
            );
            only_lines(build_tool_drawer(tool_use, request, look, project_dir, missing))
        },
        ToolPauseKind::Permission(PermissionPreview::Write(_)) => {
            let missing = line::line1(
                line::span("Missing write tool input for preview", line::rgb(255, 100, 100)),
            );
            only_lines(build_tool_drawer(tool_use, request, look, project_dir, missing))
        },
        ToolPauseKind::Permission(PermissionPreview::Read(p)) => {
            let path = widgets::display_path(p.file_path.as_str(), project_dir);
            let missing = line::line3(
                line::raw_span("  "),
                line::span("Path: ", gray()),
                line::span_of(path, light()),
            );
            only_lines(build_tool_drawer(tool_use, request, look, project_dir, missing))
        },
        ToolPauseKind::Permission(PermissionPreview::Custom { summary: _ }) => only_lines(
            single(line::empty_line()),
        ),
        ToolPauseKind::UserInput(preview) => build_question_drawer(preview, look.width, answer),
    };
    assert(bare@.lines.len() == bare.lines@.len());
    add_permission_source_line(bare, request)
}

/// The tool use `id` among the blocks, the first of them.
pub open spec fn tool_among(blocks: Seq<BlockView>, id: Seq<char>) -> Option<ToolUseView>
    decreases blocks.len(),
{
    if blocks.len() == 0 {
        None
    } else {
        match tool_among(blocks.drop_last(), id) {
            Some(t) => Some(t),
            None => match blocks.last() {
                BlockView::ToolUse(t) => if t.id == id {
                    Some(t)
                } else {
                    None
                },
                _ => None,
            },
        }
    }
}

/// The blocks of the messages of a subagent.
pub open spec fn blocks_of(messages: Seq<MessageView>) -> Seq<BlockView>
    decreases messages.len(),
{
    if messages.len() == 0 {
        Seq::empty()
    } else {
        blocks_of(messages.drop_last()) + messages.last().content
    }
}

/// The blocks of all subagents.
pub open spec fn subagent_blocks(nodes: Seq<SubagentNode>) -> Seq<BlockView>
    decreases nodes.len(),
{
    if nodes.len() == 0 {
        Seq::empty()
    } else {
        subagent_blocks(nodes.drop_last()) + blocks_of(
            message::messages_view(nodes.last().messages@),
        )
    }
}

/// The tool use `id`: in the message that is coming in, else among the messages, else among
/// those of the subagents.
pub open spec fn tool_named(s: UiState, id: Seq<char>) -> Option<ToolUseView> {
    let incoming = match s.pending_assistant {
        Some(m) => tool_among(m@.content, id),
        None => None,
    };
    match incoming {
        Some(t) => Some(t),
        None => match tool_among(messages::all_blocks(s.messages@), id) {
            Some(t) => Some(t),
            None => tool_among(subagent_blocks(s.subagents@), id),
        },
    }
}

proof fn lemma_tool_among_concat(a: Seq<BlockView>, b: Seq<BlockView>, id: Seq<char>)
    ensures
        tool_among(a + b, id) == (match tool_among(a, id) {
            Some(t) => Some(t),
            None => tool_among(b, id),
        }),
    decreases b.len(),
{
    if b.len() == 0 {
        assert(a + b =~= a);
    } else {
        assert((a + b).drop_last() =~= a + b.drop_last());
        lemma_tool_among_concat(a, b.drop_last(), id);
    }
}

fn find_in_blocks<'a>(blocks: &'a Vec<ContentBlock>, id: &str) -> (r: Option<&'a ToolUseBlock>)
    ensures
        opt_use_view(r) == tool_among(message::blocks_view(blocks@), id@),
{
    let ghost b = message::blocks_view(blocks@);
    let mut found: Option<&'a ToolUseBlock> = None;
    let mut i: usize = 0;
    assert(b.take(0) =~= Seq::<BlockView>::empty());
    while i < blocks.len()
        invariant
            i <= blocks@.len(),
            b == message::blocks_view(blocks@),
            opt_use_view(found) == tool_among(b.take(i as int), id@),
        decreases blocks@.len() - i,
    {
        assert(b.take(i + 1).drop_last() =~= b.take(i as int));
        assert(b.take(i + 1).last() == blocks@[i as int]@);
        if found.is_none() {
            if let ContentBlock::ToolUse(t) = &blocks[i] {
                if text::same(t.id.as_str(), id) {
                    found = Some(t);
                }
            }
        }
        i = i + 1;
    }
    assert(b.take(i as int) =~= b);
    found
}

fn find_in_entries<'a>(entries: &'a Vec<UiMessage>, id: &str) -> (r: Option<&'a ToolUseBlock>)
    ensures
        opt_use_view(r) == tool_among(messages::all_blocks(entries@), id@),
{
    let mut found: Option<&'a ToolUseBlock> = None;
    let mut i: usize = 0;
    assert(entries@.take(0) =~= Seq::<UiMessage>::empty());
    while i < entries.len()
        invariant
            i <= entries@.len(),
            opt_use_view(found) == tool_among(
                messages::all_blocks(entries@.take(i as int)),
                id@,
            ),
        decreases entries@.len() - i,
    {
        assert(entries@.take(i + 1).drop_last() =~= entries@.take(i as int));
        if let UiMessage::Message(m) = &entries[i] {
            proof {
                lemma_tool_among_concat(
                    messages::all_blocks(entries@.take(i as int)),
                    m@.content,
                    id@,
                );
            }
            if found.is_none() {
                found = find_in_blocks(&m.content, id);
            }
        }
        i = i + 1;
    }
    assert(entries@.take(i as int) =~= entries@);
    found
}

fn find_in_messages<'a>(list: &'a Vec<Message>, id: &str) -> (r: Option<&'a ToolUseBlock>)
    ensures
        opt_use_view(r) == tool_among(blocks_of(message::messages_view(list@)), id@),
{
    let ghost v = message::messages_view(list@);
    let mut found: Option<&'a ToolUseBlock> = None;
    let mut i: usize = 0;
    assert(v.take(0) =~= Seq::<MessageView>::empty());
    while i < list.len()
        invariant
            i <= list@.len(),
            v == message::messages_view(list@),
            opt_use_view(found) == tool_among(blocks_of(v.take(i as int)), id@),
        decreases list@.len() - i,
    {
        assert(v.take(i + 1).drop_last() =~= v.take(i as int));
        assert(v.take(i + 1).last() == list@[i as int]@);
        proof {
            lemma_tool_among_concat(blocks_of(v.take(i as int)), v[i as int].content, id@);
        }
        if found.is_none() {
            found = find_in_blocks(&list[i].content, id);
        }
        i = i + 1;
    }
    assert(v.take(i as int) =~= v);
    found
}

fn find_in_nodes<'a>(nodes: &'a Vec<SubagentNode>, id: &str) -> (r: Option<&'a ToolUseBlock>)
    ensures
        opt_use_view(r) == tool_among(subagent_blocks(nodes@), id@),
{
    let mut found: Option<&'a ToolUseBlock> = None;
    let mut i: usize = 0;
    assert(nodes@.take(0) =~= Seq::<SubagentNode>::empty());
    while i < nodes.len()
        invariant
            i <= nodes@.len(),
            opt_use_view(found) == tool_among(subagent_blocks(nodes@.take(i as int)), id@),
        decreases nodes@.len() - i,
    {
        assert(nodes@.take(i + 1).drop_last() =~= nodes@.take(i as int));
        proof {
            lemma_tool_among_concat(
                subagent_blocks(nodes@.take(i as int)),
                blocks_of(message::messages_view(nodes@[i as int].messages@)),
                id@,
            );
        }
        if found.is_none() {
            found = find_in_messages(&nodes[i].messages, id);
        }
        i = i + 1;
    }
    assert(nodes@.take(i as int) =~= nodes@);
    found
}

pub fn find_tool_use<'a>(state: &'a UiState, tool_use_id: &str) -> (r: Option<&'a ToolUseBlock>)
    ensures
        opt_use_view(r) == tool_named(*state, tool_use_id@),
{
    if let Some(m) = &state.pending_assistant {
        if let Some(t) = find_in_blocks(&m.content, tool_use_id) {
            return Some(t);
        }
    }
    if let Some(t) = find_in_entries(&state.messages, tool_use_id) {
        return Some(t);
    }
    find_in_nodes(&state.subagents, tool_use_id)
}

pub open spec fn drawer_title(preview: PermissionPreview) -> Seq<char> {
    match preview {
        PermissionPreview::Bash(_) => "Run Command"@,
        PermissionPreview::Edit(_) => "Edit File"@,
        PermissionPreview::Write(_) => "Write File"@,
        PermissionPreview::Read(_) => "Read File"@,
        PermissionPreview::Custom { summary } => "Tool Permission"@,
    }
}

pub fn permission_drawer_title(preview: &PermissionPreview) -> (r: &'static str)
    ensures
        r@ == drawer_title(*preview),
{
    match preview {
        PermissionPreview::Bash(_) => "Run Command",
        PermissionPreview::Edit(_) => "Edit File",
        PermissionPreview::Write(_) => "Write File",
        PermissionPreview::Read(_) => "Read File",
        PermissionPreview::Custom { summary: _ } => "Tool Permission",
    }
}

/// The title of the drawer.
pub open spec fn title_of(s: UiState, kind: ToolPauseKind) -> Seq<char> {
    match kind {
        ToolPauseKind::UserInput(preview) => " Question "@ + text::decimal(
            s.user_input_question_index + 1,
        ) + "/"@ + text::decimal(preview.questions@.len() as int) + " ("@ + text::decimal(
            permission::unanswered(s.user_input_answered@),
        ) + " unanswered) "@,
        ToolPauseKind::Permission(preview) => " "@ + drawer_title(preview) + " "@,
    }
}

fn build_title(s: &UiState, kind: &ToolPauseKind) -> (r: String)
    ensures
        r@ == title_of(*s, *kind),
{
    match kind {
        ToolPauseKind::UserInput(preview) => {
            let at = text::decimal_of_wide(s.user_input_question_index as u128 + 1);
            let count = text::decimal_of(preview.questions.len() as u64);
            let open = text::decimal_of(s.user_input_unanswered_count() as u64);
            let mut out = text::copy(" Question ");
            out.push_str(at.as_str());
            out.push_str("/");
            out.push_str(count.as_str());
            out.push_str(" (");
            out.push_str(open.as_str());
            out.push_str(" unanswered) ");
            out
        },
        ToolPauseKind::Permission(preview) => {
            let mut out = text::copy(" ");
            out.push_str(permission_drawer_title(preview));
            out.push_str(" ");
            out
        },
    }
}

/// Whether the request shows a changed file.
pub open spec fn shows_change(kind: ToolPauseKind) -> bool {
    ||| kind matches ToolPauseKind::Permission(PermissionPreview::Edit(_))
    ||| kind matches ToolPauseKind::Permission(PermissionPreview::Write(_))
}

/// How many rows the drawer may take of `height` rows: four fifths for a changed file, else a
/// few.
pub open spec fn drawer_limit(change: bool, height: int) -> int {
    if change {
        text::max_int(
            text::min_int(
                text::min_int(height * 4 / 5, EDIT_PERMISSION_DRAWER_MAX_HEIGHT as int),
                text::minus(height, 1),
            ),
            7,
        )
    } else {
        text::min_int(
            text::max_int(text::minus(height, 4), 7),
            PERMISSION_DRAWER_MAX_HEIGHT as int,
        )
    }
}

/// The rows of the drawer with `count` lines to scroll through, counted in sixteen bits.
pub open spec fn drawer_rows(change: bool, height: int, count: int) -> int {
    let wanted = text::min_int(count % 0x10000 + 8, u16::MAX as int);
    text::min_int(text::max_int(wanted, 10), drawer_limit(change, height))
}

/// The area of the drawer: at the bottom of the screen, one row above its end.
pub open spec fn drawer_area(area: Rect, rows: int) -> Rect {
    Rect {
        x: area.x,
        y: (area.y + text::minus(area.height as int, rows + 1)) as u16,
        width: area.width,
        height: rows as u16,
    }
}

/// The area of the lines that are scrolled.
pub open spec fn body_area(drawer: Rect, scrolls: bool) -> Rect {
    Rect {
        x: (drawer.x + 3) as u16,
        y: (drawer.y + 4) as u16,
        width: text::minus(
            drawer.width as int,
            if scrolls {
                8
            } else {
                6
            },
        ) as u16,
        height: text::minus(drawer.height as int, 7) as u16,
    }
}

/// Whether the drawer can be laid out in `area`: it has ten rows and stays on the screen.
pub open spec fn has_room(area: Rect, change: bool) -> bool {
    &&& drawer_limit(change, area.height as int) >= 10
    &&& area.y + area.height + 4 <= u16::MAX
    &&& area.x + area.width + 4 <= u16::MAX
}

/// The answer as the state holds it.
pub open spec fn answer_of(s: UiState) -> AnswerView {
    AnswerView {
        question_index: s.user_input_question_index as int,
        selected: (if s.user_input_question_index < s.user_input_selected@.len() {
            s.user_input_selected@[s.user_input_question_index as int]
        } else {
            0
        }) as int,
        note: s.note(),
        note_cursor: s.note_cursor(),
        note_mode: s.user_input_note_mode,
    }
}

fn current_answer(s: &UiState) -> (r: Answer)
    ensures
        r@ == answer_of(*s),
{
    Answer {
        question_index: s.user_input_question_index,
        selected: s.current_user_input_selected(),
        note: s.current_user_input_note(),
        note_cursor: s.current_user_input_note_cursor(),
        note_mode: s.user_input_note_mode,
    }
}

/// The call that the drawer shows a preview of.
pub open spec fn previewed(request: ToolPauseRequest) -> Seq<char> {
    match request.preview_tool_use_id {
        Some(id) => id@,
        None => request.tool_use_id@,
    }
}

/// What the drawer holds in the state `s`, shown in `area`.
pub open spec fn drawer_content(
    s: UiState,
    request: ToolPauseRequest,
    area: Rect,
    collapsed: bool,
    ms: u64,
) -> DrawerView {
    drawer_lines(
        request,
        tool_named(s, previewed(request)),
        messages::Look {
            width: text::minus(area.width as int, 6) as usize,
            collapsed,
            ms,
        },
        Some(s.status_bar.cwd@),
        answer_of(s),
    )
}

/// The drawer as it is to be drawn.
#[derive(Debug, PartialEq, Eq)]
pub struct DrawnDrawer {
    pub area: Rect,
    pub body: Rect,
    pub title: String,
    /// The line above those that are scrolled.
    pub header: Option<Line>,
    pub lines: Vec<Line>,
    /// For each row of the scrollbar whether the thumb is there.
    pub scrollbar: Vec<bool>,
    /// Where the cursor is.
    pub cursor: Option<(u16, u16)>,
    pub options: Vec<Line>,
}

/// The lines from `from` on, at most `count` of them.
pub open spec fn window(lines: Seq<LineView>, from: int, count: int) -> Seq<LineView> {
    let start = text::min_int(from, lines.len() as int);
    lines.subrange(start, text::min_int(start + count, lines.len() as int))
}

/// Where the cursor is: in the note, while it is written and in sight.
pub open spec fn note_cursor_at(d: DrawerView, note_mode: bool, body: Rect, top: int) -> Option<
    (u16, u16),
> {
    match (d.note_line_index, d.note_cursor_column) {
        (Some(row), Some(col)) => if note_mode && top <= row < top + body.height {
            Some(
                (
                    text::min_int(body.x + col % 0x10000, u16::MAX as int) as u16,
                    (body.y + (row - top)) as u16,
                ),
            )
        } else {
            None
        },
        _ => None,
    }
}

/// What drawing the drawer leaves in the state.
pub open spec fn drawer_drawn(
    pre: UiState,
    area: Rect,
    collapsed: bool,
    ms: u64,
    post: UiState,
) -> bool {
    match pre.active_pause() {
        None => post == (UiState {
            permission_drawer_area: state::no_rect(),
            permission_drawer_body_area: state::no_rect(),
            permission_drawer_content_len: 0,
            ..pre
        }),
        Some(request) => {
            let d = drawer_content(pre, request, area, collapsed, ms);
            let place = place_of(
                area,
                shows_change(request.kind),
                d.lines.len() as int,
                pre.permission_scroll_offset as int,
            );
            post == (UiState {
                permission_scroll_offset: place.offset,
                permission_drawer_content_len: place.count,
                permission_drawer_area: place.area,
                permission_drawer_body_area: place.body,
                ..pre
            })
        },
    }
}

/// The drawn drawer, for the request `request` in the state `s`.
pub open spec fn drawer_shown(
    s: UiState,
    request: ToolPauseRequest,
    area: Rect,
    collapsed: bool,
    ms: u64,
    r: DrawnDrawer,
) -> bool {
    let d = drawer_content(s, request, area, collapsed, ms);
    let place = place_of(
        area,
        shows_change(request.kind),
        d.lines.len() as int,
        s.permission_scroll_offset as int,
    );
    &&& r.area == place.area
    &&& r.body == place.body
    &&& r.title@ == title_of(s, request.kind)
    &&& match r.header {
        Some(l) => d.lines.len() > 0 && l@ == d.lines[0],
        None => d.lines.len() == 0,
    }
    &&& line::lines_view(r.lines@) == (if d.lines.len() == 0 {
        Seq::empty()
    } else {
        window(d.lines.skip(1), place.top as int, place.body.height as int)
    })
    &&& r.scrollbar@ == scrollbar(
        place.body.height as int,
        place.count as int,
        place.top as int,
    )
    &&& r.cursor == note_cursor_at(d, s.user_input_note_mode, place.body, place.top as int)
    &&& line::lines_view(r.options@) == match request.kind {
        ToolPauseKind::Permission(_) => action_lines(s.permission_selected as int, request.kind),
        ToolPauseKind::UserInput(_) => question_hints(s.user_input_note_mode),
    }
}

fn drawer_height(change: bool, height: u16, count: usize) -> (r: u16)
    ensures
        r == drawer_rows(change, height as int, count as int),
{
    let short: u16 = (count % 0x10000) as u16;
    let wanted: u16 = short.saturating_add(8);
    let limit: u16 = if change {
        let cap: u16 = (height as u32 * 4 / 5) as u16;
        let a: u16 = if cap <= EDIT_PERMISSION_DRAWER_MAX_HEIGHT {
            cap
        } else {
            EDIT_PERMISSION_DRAWER_MAX_HEIGHT
        };
        let less: u16 = height.saturating_sub(1);
        let b: u16 = if a <= less {
            a
        } else {
            less
        };
        if b >= 7 {
            b
        } else {
            7
        }
    } else {
        let less: u16 = height.saturating_sub(4);
        let a: u16 = if less >= 7 {
            less
        } else {
            7
        };
        if a <= PERMISSION_DRAWER_MAX_HEIGHT {
            a
        } else {
            PERMISSION_DRAWER_MAX_HEIGHT
        }
    };
    let most: u16 = if wanted >= 10 {
        wanted
    } else {
        10
    };
    if most <= limit {
        most
    } else {
        limit
    }
}

/// Cuts the lines in sight out of `lines`.
fn cut_window(lines: Vec<Line>, from: usize, count: usize) -> (r: Vec<Line>)
    ensures
        line::lines_view(r@) == window(line::lines_view(lines@), from as int, count as int),
{
    let ghost all = line::lines_view(lines@);
    assert(all.len() == lines@.len());
    let mut rest = lines;
    let start: usize = text::min_usize(from, rest.len());
    let mut shown = rest.split_off(start);
    assert(line::lines_view(shown@) =~= all.skip(start as int));
    if shown.len() > count {
        let gone = shown.split_off(count);
    }
    assert(line::lines_view(shown@) =~= window(all, from as int, count as int));
    shown
}

fn place_cursor(d: &DrawerLines, note_mode: bool, body: Rect, top: usize) -> (r: Option<
    (u16, u16),
>)
    requires
        body.y + body.height <= u16::MAX,
    ensures
        r == note_cursor_at(d@, note_mode, body, top as int),
{
    match (d.note_line_index, d.note_cursor_column) {
        (Some(row), Some(col)) => {
            if note_mode && row >= top && row - top < body.height as usize {
                let short: u16 = (col % 0x10000) as u16;
                let x: u16 = body.x.saturating_add(short);
                let down: u16 = (row - top) as u16;
                Some((x, body.y + down))
            } else {
                None
            }
        },
        _ => None,
    }
}

fn change_shown(kind: &ToolPauseKind) -> (r: bool)
    ensures
        r == shows_change(*kind),
{
    match kind {
        ToolPauseKind::Permission(PermissionPreview::Edit(_)) => true,
        ToolPauseKind::Permission(PermissionPreview::Write(_)) => true,
        _ => false,
    }
}

/// Where the drawer stands and how far it is scrolled.
#[derive(Debug, Clone, Copy, PartialEq, Eq, Structural)]
pub struct DrawerPlace {
    pub area: Rect,
    pub body: Rect,
    /// The number of lines to scroll through.
    pub count: usize,
    /// How far they are scrolled up from the bottom.
    pub offset: usize,
    /// The first line in sight.
    pub top: usize,
}

/// The place of a drawer with `lines` lines.
pub open spec fn place_of(area: Rect, change: bool, lines: int, offset: int) -> DrawerPlace {
    let count = text::minus(lines, 1);
    let rows = drawer_rows(change, area.height as int, count);
    let max_scroll = text::minus(count, rows - 7);
    let capped = text::min_int(offset, max_scroll);
    DrawerPlace {
        area: drawer_area(area, rows),
        body: body_area(drawer_area(area, rows), max_scroll > 0),
        count: count as usize,
        offset: capped as usize,
        top: (max_scroll - capped) as usize,
    }
}

fn place_drawer(area: Rect, change: bool, lines: usize, offset: usize) -> (r: DrawerPlace)
    requires
        has_room(area, change),
    ensures
        r == place_of(area, change, lines as int, offset as int),
        r.body.y + r.body.height <= u16::MAX,
        r.body.height == drawer_rows(change, area.height as int, r.count as int) - 7,
{
    let count: usize = lines.saturating_sub(1);
    let rows: u16 = drawer_height(change, area.height, count);
    let body_height: usize = (rows - 7) as usize;
    let max_scroll: usize = count.saturating_sub(body_height);
    let capped: usize = text::min_usize(offset, max_scroll);
    let top: usize = max_scroll - capped;
    let box_area = Rect {
        x: area.x,
        y: area.y + area.height.saturating_sub(rows + 1),
        width: area.width,
        height: rows,
    };
    let body = Rect {
        x: box_area.x + 3,
        y: box_area.y + 4,
        width: box_area.width.saturating_sub(
            if max_scroll > 0 {
                8
            } else {
                6
            },
        ),
        height: rows - 7,
    };
    DrawerPlace { area: box_area, body, count, offset: capped, top }
}

/// Lays out the lines of the drawer for a request.
fn lay_out_drawer(
    state: &UiState,
    request: &ToolPauseRequest,
    area: Rect,
    collapsed: bool,
    ms: u64,
) -> (r: DrawerLines)
    ensures
        r@ == drawer_content(*state, *request, area, collapsed, ms),
{
    let tool = match &request.preview_tool_use_id {
        Some(id) => find_tool_use(state, id.as_str()),
        None => find_tool_use(state, request.tool_use_id.as_str()),
    };
    let look = messages::Look {
        width: area.width.saturating_sub(6) as usize,
        collapsed,
        ms,
    };
    let answer = current_answer(state);
    build_permission_drawer_lines(
        request,
        tool,
        look,
        Some(state.status_bar.cwd.as_str()),
        &answer,
    )
}

/// The first of the lines, and those of the others that are in sight.
fn split_drawer(lines: Vec<Line>, top: usize, rows: usize) -> (r: (Option<Line>, Vec<Line>))
    ensures
        match r.0 {
            Some(l) => lines@.len() > 0 && l@ == lines@[0]@,
            None => lines@.len() == 0,
        },
        line::lines_view(r.1@) == (if lines@.len() == 0 {
            Seq::empty()
        } else {
            window(line::lines_view(lines@).skip(1), top as int, rows as int)
        }),
{
    let ghost all = line::lines_view(lines@);
    let mut first = lines;
    if first.len() == 0 {
        assert(line::lines_view(first@) =~= Seq::<LineView>::empty());
        return (None, first);
    }
    let rest = first.split_off(1);
    assert(line::lines_view(rest@) =~= all.skip(1));
    let header = first.pop();
    (header, cut_window(rest, top, rows))
}

/// Lays the drawer out for the tool that waits for the user, if one does.
pub fn render_permission_drawer(
    state: &mut UiState,
    area: Rect,
    collapsed: bool,
    ms: u64,
) -> (r: Option<DrawnDrawer>)
    requires
        old(state).active_pause() matches Some(req) ==> has_room(area, shows_change(req.kind)),
    ensures
        drawer_drawn(*old(state), area, collapsed, ms, *final(state)),
        match old(state).active_pause() {
            Some(request) => r matches Some(d) && drawer_shown(
                *old(state),
                request,
                area,
                collapsed,
                ms,
                d,
            ),
            None => r is None,
        },
{
    let ghost pre = *state;
    let request = match state.active_tool_pause() {
        Some(request) => request,
        None => {
            state.permission_drawer_area = Rect { x: 0, y: 0, width: 0, height: 0 };
            state.permission_drawer_body_area = Rect { x: 0, y: 0, width: 0, height: 0 };
            state.permission_drawer_content_len = 0;
            return None;
        },
    };
    let ghost req = *request;
    let drawer = lay_out_drawer(state, request, area, collapsed, ms);
    let ghost d = drawer@;
    assert(d.lines.len() == drawer.lines@.len());
    let title = build_title(state, &request.kind);
    let options = match &request.kind {
        ToolPauseKind::Permission(_) => build_permission_action_lines(state, request),
        ToolPauseKind::UserInput(_) => build_user_input_action_lines(state),
    };
    let place = place_drawer(
        area,
        change_shown(&request.kind),
        drawer.lines.len(),
        state.permission_scroll_offset,
    );
    let rows: usize = place.body.height as usize;
    let bar = permission_scrollbar(rows, place.count, place.top);
    let cursor = place_cursor(&drawer, state.user_input_note_mode, place.body, place.top);
    let (header, shown) = split_drawer(drawer.lines, place.top, rows);
    let drawn = DrawnDrawer {
        area: place.area,
        body: place.body,
        title,
        header,
        lines: shown,
        scrollbar: bar,
        cursor,
        options,
    };
    assert(drawer_shown(pre, req, area, collapsed, ms, drawn));
    state.permission_scroll_offset = place.offset;
    state.permission_drawer_content_len = place.count;
    state.permission_drawer_area = place.area;
    state.permission_drawer_body_area = place.body;
    Some(drawn)
}

/// The drawer lies in its area, and what is scrolled in it lies between its heading and its
/// choices.
pub proof fn law_drawer_stays_in_its_area(area: Rect, change: bool, lines: int, offset: int)
    requires
        has_room(area, change),
        0 <= lines <= usize::MAX,
        0 <= offset <= usize::MAX,
    ensures
        ({
            let p = place_of(area, change, lines, offset);
            &&& area.y <= p.area.y
            &&& p.area.y + p.area.height < area.y + area.height
            &&& p.area.y < p.body.y
            &&& p.body.y + p.body.height + 3 == p.area.y + p.area.height
            &&& p.top == 0 || p.top + p.body.height <= p.count
        }),
{
}

} // verus!
