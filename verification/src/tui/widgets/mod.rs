//! What messages and tools look like on the screen.
pub mod diff_laws;
pub mod file_mutation;
pub mod wrap;

use crate::json;
use crate::json::Json;
use crate::json::JsonView;
use crate::text;
use crate::tui::line;
use crate::tui::line::Color;
use crate::tui::line::Line;
use crate::tui::line::LineView;
use crate::tui::line::Span;
use crate::tui::line::SpanView;
use crate::tui::line::Style;
use crate::tui::widgets::wrap::word_wrap;
use crate::types::events::ToolPauseRequest;
use crate::types::message::ToolResultBlock;
use crate::types::message::ToolResultView;
use crate::types::message::ToolUseBlock;
use crate::types::message::ToolUseView;
use crate::width;
use vstd::prelude::*;

verus! {

/// How many lines of a command's output are shown while it is collapsed.
pub const MAX_PREVIEW: usize = 9;

/// How many lines of a command's output are ever shown.
pub const MAX_EXPANDED_LINES: usize = 200;

/// The frame of the spinner at a time in milliseconds.
pub open spec fn spinner_frame(ms: int) -> Seq<char> {
    let i = (ms / 80) % 10;
    if i == 0 {
        "⠋"@
    } else if i == 1 {
        "⠙"@
    } else if i == 2 {
        "⠹"@
    } else if i == 3 {
        "⠸"@
    } else if i == 4 {
        "⠼"@
    } else if i == 5 {
        "⠴"@
    } else if i == 6 {
        "⠦"@
    } else if i == 7 {
        "⠧"@
    } else if i == 8 {
        "⠇"@
    } else {
        "⠏"@
    }
}

/// The spinner moves on every 80 milliseconds.
pub fn spinner(ms: u64) -> (r: &'static str)
    ensures
        r@ == spinner_frame(ms as int),
{
    let i: u64 = (ms / 80) % 10;
    if i == 0 {
        "⠋"
    } else if i == 1 {
        "⠙"
    } else if i == 2 {
        "⠹"
    } else if i == 3 {
        "⠸"
    } else if i == 4 {
        "⠼"
    } else if i == 5 {
        "⠴"
    } else if i == 6 {
        "⠦"
    } else if i == 7 {
        "⠧"
    } else if i == 8 {
        "⠇"
    } else {
        "⠏"
    }
}

/// One line for each text, in a style and behind the same pieces.
pub open spec fn prefixed(
    texts: Seq<Seq<char>>,
    prefix: Seq<SpanView>,
    style: Style,
) -> Seq<LineView> {
    Seq::new(texts.len(), |i: int| line::of_spans(prefix.push(line::sp(texts[i], style))))
}

pub fn copy_spans(spans: &Vec<Span>) -> (r: Vec<Span>)
    ensures
        line::spans_view(r@) == line::spans_view(spans@),
{
    let mut out: Vec<Span> = Vec::new();
    let mut i: usize = 0;
    while i < spans.len()
        invariant
            i <= spans@.len(),
            out@.len() == i,
            forall|k: int| 0 <= k < i ==> #[trigger] out@[k]@ == spans@[k]@,
        decreases spans@.len() - i,
    {
        out.push(line::span(spans[i].text.as_str(), spans[i].style));
        i = i + 1;
    }
    assert(line::spans_view(out@) =~= line::spans_view(spans@));
    out
}

pub fn push_prefixed(lines: &mut Vec<Line>, texts: &Vec<String>, prefix: &Vec<Span>, style: Style)
    ensures
        line::lines_view(final(lines)@) == line::lines_view(old(lines)@) + prefixed(
            text::views(texts@),
            line::spans_view(prefix@),
            style,
        ),
{
    let ghost before = line::lines_view(lines@);
    let ghost t = text::views(texts@);
    let ghost p = line::spans_view(prefix@);
    let mut i: usize = 0;
    assert(before =~= before + prefixed(t.take(0), p, style));
    while i < texts.len()
        invariant
            i <= texts@.len(),
            t == text::views(texts@),
            p == line::spans_view(prefix@),
            line::lines_view(lines@) == before + prefixed(t.take(i as int), p, style),
        decreases texts@.len() - i,
    {
        let mut spans = copy_spans(prefix);
        line::push_span(&mut spans, line::span(texts[i].as_str(), style));
        line::push_line(lines, line::line_of(spans));
        assert(prefixed(t.take(i + 1), p, style) =~= prefixed(t.take(i as int), p, style).push(
            line::of_spans(p.push(line::sp(t[i as int], style))),
        ));
        assert(before + prefixed(t.take(i + 1), p, style) =~= (before + prefixed(
            t.take(i as int),
            p,
            style,
        )).push(line::of_spans(p.push(line::sp(t[i as int], style)))));
        i = i + 1;
    }
    assert(t.take(i as int) =~= t);
}

/// A style on a background, where one is given.
#[verifier::allow_in_spec]
pub fn with_bg(s: Style, bg: Option<Color>) -> (r: Style)
    returns
        (match bg {
            Some(c) => Style { fg: s.fg, bg: Some(c), bold: s.bold, italic: s.italic },
            None => s,
        }),
{
    match bg {
        Some(c) => Style { fg: s.fg, bg: Some(c), bold: s.bold, italic: s.italic },
        None => s,
    }
}

/// A text behind a bar on its left.
pub open spec fn bordered(
    s: Seq<char>,
    content_width: int,
    border: Color,
    italic: bool,
    bg: Option<Color>,
) -> Seq<LineView> {
    let bar = line::sp("\u{2503}"@, with_bg(line::colored(border), bg));
    if s.len() == 0 {
        seq![line::of_spans(seq![bar])]
    } else {
        prefixed(
            wrap::wrapped(s, text::minus(content_width, 2)),
            seq![bar, line::sp(" "@, with_bg(line::plain(), bg))],
            with_bg(
                if italic {
                    line::italic(line::colored(border))
                } else {
                    line::plain()
                },
                bg,
            ),
        )
    }
}

pub fn build_bordered_lines(
    s: &str,
    content_width: usize,
    border_color: Color,
    italic: bool,
    bg: Option<Color>,
) -> (r: Vec<Line>)
    ensures
        line::lines_view(r@) == bordered(s@, content_width as int, border_color, italic, bg),
{
    let available: usize = content_width.saturating_sub(2);
    let mut lines: Vec<Line> = Vec::new();
    let ghost none = line::lines_view(lines@);
    assert(none =~= Seq::<LineView>::empty());
    let bar = line::span("\u{2503}", with_bg(line::colored(border_color), bg));
    if text::char_count(s) == 0 {
        line::push_line(&mut lines, line::line1(bar));
        assert(line::lines_view(lines@) =~= bordered(
            s@,
            content_width as int,
            border_color,
            italic,
            bg,
        ));
    } else {
        let style = with_bg(
            if italic {
                line::italic(line::colored(border_color))
            } else {
                line::plain()
            },
            bg,
        );
        let prefix = line::line2(bar, line::span(" ", with_bg(line::plain(), bg)));
        let texts = word_wrap(s, available);
        push_prefixed(&mut lines, &texts, &prefix.spans, style);
        assert(line::lines_view(lines@) =~= bordered(
            s@,
            content_width as int,
            border_color,
            italic,
            bg,
        ));
    }
    lines
}

/// A text in no style; an empty text takes no line.
pub open spec fn plain_lines(s: Seq<char>, content_width: int) -> Seq<LineView> {
    if s.len() == 0 {
        Seq::empty()
    } else {
        prefixed(wrap::wrapped(s, content_width), Seq::empty(), line::plain())
    }
}

pub fn build_plain_lines(s: &str, content_width: usize) -> (r: Vec<Line>)
    ensures
        line::lines_view(r@) == plain_lines(s@, content_width as int),
{
    let mut lines: Vec<Line> = Vec::new();
    assert(line::lines_view(lines@) =~= Seq::<LineView>::empty());
    if text::char_count(s) > 0 {
        let texts = word_wrap(s, content_width);
        let nothing: Vec<Span> = Vec::new();
        assert(line::spans_view(nothing@) =~= Seq::<SpanView>::empty());
        push_prefixed(&mut lines, &texts, &nothing, line::plain());
        assert(line::lines_view(lines@) =~= plain_lines(s@, content_width as int));
    }
    lines
}

/// The bar and the space in front of a line of thinking.
pub open spec fn thinking_bar() -> Seq<SpanView> {
    seq![line::sp("\u{2503}"@, line::colored(Color::DarkGray)), line::raw(" "@)]
}

pub open spec fn thinking_head() -> SpanView {
    line::sp("Thinking: "@, line::italic(line::rgb(141, 119, 78)))
}

#[verifier::allow_in_spec]
pub fn thinking_style() -> (r: Style)
    returns
        (Style { fg: Some(Color::DarkGray), bg: None, bold: false, italic: true }),
{
    Style { fg: Some(Color::DarkGray), bg: None, bold: false, italic: true }
}

/// The first line of a text of thinking: as much as fits behind the heading, the rest wrapped
/// below it at the full width.
pub open spec fn thinking_first(s: Seq<char>, available: int) -> Seq<LineView> {
    let head = thinking_bar().push(thinking_head());
    let room = text::minus(available, 10);
    if room == 0 {
        seq![line::of_spans(head)] + prefixed(
            wrap::wrapped(s, available),
            thinking_bar(),
            thinking_style(),
        )
    } else if s.len() == 0 {
        seq![line::of_spans(head)]
    } else if width::unicode_str_width(s) <= room {
        seq![line::of_spans(head.push(line::sp(s, thinking_style())))]
    } else {
        let parts = wrap::wrapped(s, room);
        let first = if parts.len() > 0 {
            parts[0]
        } else {
            Seq::empty()
        };
        let rest = if parts.len() > 1 {
            wrap::wrapped(text::joined(parts.skip(1), " "@), available)
        } else {
            Seq::empty()
        };
        seq![line::of_spans(head.push(line::sp(first, thinking_style())))] + prefixed(
            rest,
            thinking_bar(),
            thinking_style(),
        )
    }
}

/// A further line of a text of thinking.
pub open spec fn thinking_more(s: Seq<char>, available: int) -> Seq<LineView> {
    if s.len() == 0 {
        seq![line::of_spans(thinking_bar())]
    } else {
        prefixed(wrap::wrapped(s, available), thinking_bar(), thinking_style())
    }
}

pub open spec fn thinking_parts(parts: Seq<Seq<char>>, available: int) -> Seq<LineView>
    decreases parts.len(),
{
    if parts.len() == 0 {
        Seq::empty()
    } else if parts.len() == 1 {
        thinking_first(parts[0], available)
    } else {
        thinking_parts(parts.drop_last(), available) + thinking_more(parts.last(), available)
    }
}

/// What the model thinks, behind a heading and a bar.
pub open spec fn thinking_lines(s: Seq<char>, content_width: int) -> Seq<LineView> {
    if s.len() == 0 {
        seq![line::of_spans(thinking_bar().push(thinking_head()))]
    } else {
        thinking_parts(text::split_on(s, '\n'), text::minus(content_width, 2))
    }
}

fn bar_spans() -> (r: Vec<Span>)
    ensures
        line::spans_view(r@) == thinking_bar(),
{
    let l = line::line2(
        line::span("\u{2503}", line::colored(Color::DarkGray)),
        line::raw_span(" "),
    );
    l.spans
}

fn head_spans() -> (r: Vec<Span>)
    ensures
        line::spans_view(r@) == thinking_bar().push(thinking_head()),
{
    let mut spans = bar_spans();
    line::push_span(
        &mut spans,
        line::span("Thinking: ", line::italic(line::rgb(141, 119, 78))),
    );
    spans
}

fn push_thinking_first(lines: &mut Vec<Line>, s: &str, available: usize)
    ensures
        line::lines_view(final(lines)@) == line::lines_view(old(lines)@) + thinking_first(
            s@,
            available as int,
        ),
{
    broadcast use text::lemma_views_push;

    let ghost before = line::lines_view(lines@);
    let ghost head = thinking_bar().push(thinking_head());
    proof {
        reveal_strlit("Thinking: ");
    }
    let room: usize = available.saturating_sub(width::str_width("Thinking: "));
    assert(room == text::minus(available as int, 10));
    let mut spans = head_spans();
    let bar = bar_spans();
    if room == 0 {
        line::push_line(lines, line::line_of(spans));
        let texts = word_wrap(s, available);
        push_prefixed(lines, &texts, &bar, thinking_style());
        assert(line::lines_view(lines@) =~= before + thinking_first(s@, available as int));
        return;
    }
    if text::char_count(s) == 0 {
        line::push_line(lines, line::line_of(spans));
        assert(line::lines_view(lines@) =~= before + thinking_first(s@, available as int));
        return;
    }
    if width::str_width(s) <= room {
        line::push_span(&mut spans, line::span(s, thinking_style()));
        line::push_line(lines, line::line_of(spans));
        assert(line::lines_view(lines@) =~= before + thinking_first(s@, available as int));
        return;
    }
    let parts = word_wrap(s, room);
    let ghost p = text::views(parts@);
    let first = if parts.len() > 0 {
        text::copy(parts[0].as_str())
    } else {
        String::new()
    };
    line::push_span(&mut spans, line::span(first.as_str(), thinking_style()));
    line::push_line(lines, line::line_of(spans));
    if parts.len() > 1 {
        let mut rest: Vec<String> = Vec::new();
        let mut i: usize = 1;
        assert(text::views(rest@) =~= p.skip(1).take(0));
        while i < parts.len()
            invariant
                1 <= i <= parts@.len(),
                p == text::views(parts@),
                text::views(rest@) == p.skip(1).take(i - 1),
            decreases parts@.len() - i,
        {
            broadcast use text::lemma_views_push;

            let ghost r = text::views(rest@);
            rest.push(parts[i].clone());
            assert(p.skip(1).take(i as int) =~= r.push(p[i as int]));
            i = i + 1;
        }
        assert(text::views(rest@) =~= p.skip(1));
        let joined = text::join(&rest, " ");
        let texts = word_wrap(joined.as_str(), available);
        push_prefixed(lines, &texts, &bar, thinking_style());
    }
    assert(line::lines_view(lines@) =~= before + thinking_first(s@, available as int));
}

fn push_thinking_more(lines: &mut Vec<Line>, s: &str, available: usize)
    ensures
        line::lines_view(final(lines)@) == line::lines_view(old(lines)@) + thinking_more(
            s@,
            available as int,
        ),
{
    let ghost before = line::lines_view(lines@);
    let bar = bar_spans();
    if text::char_count(s) == 0 {
        line::push_line(lines, line::line_of(bar));
    } else {
        let texts = word_wrap(s, available);
        push_prefixed(lines, &texts, &bar, thinking_style());
    }
    assert(line::lines_view(lines@) =~= before + thinking_more(s@, available as int));
}

pub fn build_thinking_lines(s: &str, content_width: usize) -> (r: Vec<Line>)
    ensures
        line::lines_view(r@) == thinking_lines(s@, content_width as int),
{
    let available: usize = content_width.saturating_sub(2);
    let mut lines: Vec<Line> = Vec::new();
    assert(line::lines_view(lines@) =~= Seq::<LineView>::empty());
    if text::char_count(s) == 0 {
        line::push_line(&mut lines, line::line_of(head_spans()));
        assert(line::lines_view(lines@) =~= thinking_lines(s@, content_width as int));
        return lines;
    }
    let parts = text::split_char(s, '\n');
    let ghost p = text::views(parts@);
    push_thinking_first(&mut lines, parts[0].as_str(), available);
    assert(p.take(1)[0] == p[0]);
    assert(line::lines_view(lines@) =~= thinking_parts(p.take(1), available as int));
    let mut i: usize = 1;
    while i < parts.len()
        invariant
            1 <= i <= parts@.len(),
            p == text::views(parts@),
            line::lines_view(lines@) == thinking_parts(p.take(i as int), available as int),
        decreases parts@.len() - i,
    {
        push_thinking_more(&mut lines, parts[i].as_str(), available);
        assert(p.take(i + 1).drop_last() =~= p.take(i as int));
        i = i + 1;
    }
    assert(p.take(i as int) =~= p);
    lines
}

/// The text that a tool use gives for `key`, if it gives one.
pub open spec fn input_text(
    input: Seq<(Seq<char>, JsonView)>,
    key: Seq<char>,
) -> Option<Seq<char>> {
    match json::lookup(input, key) {
        Some(v) => v.str_value(),
        None => None,
    }
}

/// The text that a tool use gives for `key`, or another.
pub open spec fn input_text_or(
    input: Seq<(Seq<char>, JsonView)>,
    key: Seq<char>,
    other: Seq<char>,
) -> Seq<char> {
    match input_text(input, key) {
        Some(s) => s,
        None => other,
    }
}

pub fn text_input(input: &Vec<(String, Json)>, key: &str) -> (r: Option<String>)
    ensures
        json::opt_view(r) == input_text(json::entries_view(input@), key@),
{
    match json::find_entry(input, key) {
        Some(v) => v.as_str(),
        None => None,
    }
}

pub fn text_input_or(input: &Vec<(String, Json)>, key: &str, other: &str) -> (r: String)
    ensures
        r@ == input_text_or(json::entries_view(input@), key@, other@),
{
    match text_input(input, key) {
        Some(s) => s,
        None => text::copy(other),
    }
}

/// A path as it is shown: relative to the project where it lies in it.
pub open spec fn shown_path(path: Seq<char>, project_dir: Option<Seq<char>>) -> Seq<char> {
    match project_dir {
        Some(dir) => if dir.len() > 0 && text::has_prefix(path, dir.push('/')) {
            path.skip(dir.len() as int + 1)
        } else {
            path
        },
        None => path,
    }
}

pub open spec fn opt_str_view(o: Option<&str>) -> Option<Seq<char>> {
    match o {
        Some(s) => Some(s@),
        None => None,
    }
}

pub fn display_path(path: &str, project_dir: Option<&str>) -> (r: String)
    ensures
        r@ == shown_path(path@, opt_str_view(project_dir)),
{
    match project_dir {
        Some(dir) => {
            if text::char_count(dir) == 0 {
                return text::copy(path);
            }
            let mut prefix = text::copy(dir);
            prefix.push('/');
            match text::strip_prefix(path, prefix.as_str()) {
                Some(rest) => rest,
                None => text::copy(path),
            }
        },
        None => text::copy(path),
    }
}

pub open spec fn opt_result_view(o: Option<&ToolResultBlock>) -> Option<ToolResultView> {
    match o {
        Some(r) => Some(r@),
        None => None,
    }
}

#[verifier::allow_in_spec]
pub fn spinner_style() -> (r: Style)
    returns
        (Style {
            fg: Some(Color::Rgb(212, 182, 106)),
            bg: None,
            bold: false,
            italic: false,
        }),
{
    line::rgb(212, 182, 106)
}

/// A file that was read, or is being read.
pub open spec fn read_lines(
    tool: ToolUseView,
    result: Option<ToolResultView>,
    content_width: int,
    ms: int,
) -> Seq<LineView> {
    let path = input_text_or(tool.input, "file_path"@, "<unknown>"@);
    let spin = if result is None {
        seq![line::sp(spinner_frame(ms) + " "@, spinner_style())]
    } else {
        Seq::empty()
    };
    let head = line::of_spans(
        spin.push(line::raw("· "@)).push(line::sp("Read"@, line::rgb(38, 42, 50))).push(
            line::raw(" "@ + path),
        ),
    );
    match result {
        Some(r) => if r.is_error {
            seq![head] + prefixed(
                wrap::wrapped(r.content, text::minus(content_width, 2)),
                Seq::empty(),
                line::rgb(255, 100, 100),
            )
        } else {
            seq![head]
        },
        None => seq![head],
    }
}

pub fn render_read(
    tool_use: &ToolUseBlock,
    result: Option<&ToolResultBlock>,
    content_width: usize,
    ms: u64,
) -> (r: Vec<Line>)
    ensures
        line::lines_view(r@) == read_lines(
            tool_use@,
            opt_result_view(result),
            content_width as int,
            ms as int,
        ),
{
    let mut lines: Vec<Line> = Vec::new();
    assert(line::lines_view(lines@) =~= Seq::<LineView>::empty());
    let ghost shown = read_lines(
        tool_use@,
        opt_result_view(result),
        content_width as int,
        ms as int,
    );
    let path = text_input_or(&tool_use.input, "file_path", "<unknown>");
    let mut spans: Vec<Span> = Vec::new();
    assert(line::spans_view(spans@) =~= Seq::<SpanView>::empty());
    if result.is_none() {
        let spin = text::concat(spinner(ms), " ");
        line::push_span(&mut spans, line::span_of(spin, spinner_style()));
        assert(line::spans_view(spans@) =~= seq![
            line::sp(spinner_frame(ms as int) + " "@, spinner_style()),
        ]);
    }
    line::push_span(&mut spans, line::raw_span("· "));
    line::push_span(&mut spans, line::span("Read", line::rgb(38, 42, 50)));
    let tail = text::concat(" ", path.as_str());
    line::push_span(&mut spans, line::raw_span(tail.as_str()));
    line::push_line(&mut lines, line::line_of(spans));
    if let Some(tr) = result {
        if tr.is_error {
            let texts = word_wrap(tr.content.as_str(), content_width.saturating_sub(2));
            let nothing: Vec<Span> = Vec::new();
            assert(line::spans_view(nothing@) =~= Seq::<SpanView>::empty());
            push_prefixed(&mut lines, &texts, &nothing, line::rgb(255, 100, 100));
        }
    }
    assert(line::lines_view(lines@) =~= shown);
    lines
}

#[verifier::allow_in_spec]
pub fn bash_bg() -> (r: Color)
    returns
        Color::Rgb(36, 37, 42),
{
    Color::Rgb(36, 37, 42)
}

/// A line of the box that shows a command: a bar, the pieces, and the background up to the
/// width.
pub open spec fn boxed(spans: Seq<SpanView>, content_width: int) -> LineView {
    let pad = text::minus(content_width, line::spans_width(spans) + 2);
    let all = seq![line::sp("\u{2503}"@, line::rgb(92, 94, 106)), line::sp(" "@, line::on(bash_bg()))]
        + spans;
    line::of_spans(
        if pad > 0 {
            all.push(line::sp(text::repeated(' ', pad), line::on(bash_bg())))
        } else {
            all
        },
    )
}

fn boxed_line(inner: Line, content_width: usize) -> (r: Line)
    ensures
        r@ == boxed(inner@.spans, content_width as int),
{
    let used: usize = line::line_width(&inner).saturating_add(2);
    proof {
        line::lemma_spans_width_nonneg(inner@.spans);
    }
    let l = line::line2(
        line::span("\u{2503}", line::rgb(92, 94, 106)),
        line::span(" ", line::on(bash_bg())),
    );
    let mut spans = l.spans;
    let ghost front = line::spans_view(spans@);
    let ghost rest = inner@.spans;
    let mut more = inner.spans;
    spans.append(&mut more);
    assert(line::spans_view(spans@) =~= front + rest);
    let pad: usize = content_width.saturating_sub(used);
    if pad > 0 {
        let spaces = text::repeat(' ', pad);
        line::push_span(&mut spans, line::span_of(spaces, line::on(bash_bg())));
    }
    line::line_of(spans)
}

#[verifier::allow_in_spec]
pub fn output_style() -> (r: Style)
    returns
        (Style {
            fg: Some(Color::Rgb(180, 180, 185)),
            bg: Some(Color::Rgb(36, 37, 42)),
            bold: false,
            italic: false,
        }),
{
    line::colors(Color::Rgb(180, 180, 185), Color::Rgb(36, 37, 42))
}

#[verifier::allow_in_spec]
pub fn output_note_style() -> (r: Style)
    returns
        (Style {
            fg: Some(Color::Rgb(110, 112, 120)),
            bg: Some(Color::Rgb(36, 37, 42)),
            bold: false,
            italic: true,
        }),
{
    line::italic(line::colors(Color::Rgb(110, 112, 120), Color::Rgb(36, 37, 42)))
}

/// The first lines of a command's output, and a note of how many more there are.
pub open spec fn output_lines(
    texts: Seq<Seq<char>>,
    content_width: int,
    collapsed: bool,
) -> Seq<LineView> {
    let limit = if collapsed {
        MAX_PREVIEW as int
    } else {
        MAX_EXPANDED_LINES as int
    };
    let shown = if texts.len() > limit {
        texts.take(limit)
    } else {
        texts
    };
    let empty = boxed(seq![line::sp(Seq::empty(), line::on(bash_bg()))], content_width);
    let body = seq![empty] + Seq::new(
        shown.len(),
        |i: int| boxed(seq![line::sp(shown[i], output_style())], content_width),
    );
    if texts.len() > limit {
        let note = if collapsed {
            "more output — click to expand ("@ + text::decimal(texts.len() - limit)
                + " more lines)"@
        } else {
            "output truncated — full content saved to session blocks ("@ + text::decimal(
                texts.len() - limit,
            ) + " more lines)"@
        };
        body.push(empty).push(boxed(seq![line::sp(note, output_note_style())], content_width))
    } else {
        body
    }
}

fn push_output_lines(
    lines: &mut Vec<Line>,
    texts: &Vec<String>,
    content_width: usize,
    collapsed: bool,
)
    ensures
        line::lines_view(final(lines)@) == line::lines_view(old(lines)@) + output_lines(
            text::views(texts@),
            content_width as int,
            collapsed,
        ),
{
    let ghost before = line::lines_view(lines@);
    let ghost t = text::views(texts@);
    let total: usize = texts.len();
    let limit: usize = if collapsed {
        MAX_PREVIEW
    } else {
        MAX_EXPANDED_LINES
    };
    let shown: usize = if total > limit {
        limit
    } else {
        total
    };
    let ghost nothing = Seq::<char>::empty();
    proof {
        reveal_strlit("");
        assert(""@ =~= nothing);
    }
    line::push_line(
        lines,
        boxed_line(line::line1(line::span("", line::on(bash_bg()))), content_width),
    );
    let ghost empty = boxed(seq![line::sp(nothing, line::on(bash_bg()))], content_width as int);
    let ghost row = |i: int| boxed(seq![line::sp(t[i], output_style())], content_width as int);
    let mut i: usize = 0;
    assert(line::lines_view(lines@) =~= before.push(empty) + Seq::new(0, row));
    while i < shown
        invariant
            i <= shown <= texts@.len(),
            t == text::views(texts@),
            row == (|i: int| boxed(seq![line::sp(t[i], output_style())], content_width as int)),
            line::lines_view(lines@) == before.push(empty) + Seq::new(i as nat, row),
        decreases shown - i,
    {
        line::push_line(
            lines,
            boxed_line(line::line1(line::span(texts[i].as_str(), output_style())), content_width),
        );
        assert(Seq::new((i + 1) as nat, row) =~= Seq::new(i as nat, row).push(row(i as int)));
        assert(before.push(empty) + Seq::new((i + 1) as nat, row) =~= (before.push(empty)
            + Seq::new(i as nat, row)).push(row(i as int)));
        i = i + 1;
    }
    let ghost first = if t.len() > limit {
        t.take(limit as int)
    } else {
        t
    };
    assert(Seq::new(shown as nat, row) =~= Seq::new(
        first.len(),
        |i: int| boxed(seq![line::sp(first[i], output_style())], content_width as int),
    ));
    if total > limit {
        line::push_line(
            lines,
            boxed_line(line::line1(line::span("", line::on(bash_bg()))), content_width),
        );
        let mut note = if collapsed {
            text::copy("more output — click to expand (")
        } else {
            text::copy("output truncated — full content saved to session blocks (")
        };
        let more = text::decimal_of((total - limit) as u64);
        note.push_str(more.as_str());
        note.push_str(" more lines)");
        line::push_line(
            lines,
            boxed_line(line::line1(line::span_of(note, output_note_style())), content_width),
        );
    }
    assert(line::lines_view(lines@) =~= before + output_lines(
        t,
        content_width as int,
        collapsed,
    ));
}

/// A command that was run, in a box with what it is for and what it printed.
pub open spec fn bash_lines(
    tool: ToolUseView,
    result: Option<ToolResultView>,
    content_width: int,
    collapsed: bool,
    ms: int,
) -> Seq<LineView> {
    match result {
        None => seq![
            line::of_spans(
                seq![
                    line::sp(spinner_frame(ms) + " "@, spinner_style()),
                    line::sp("Bash"@, line::rgb(126, 200, 148)),
                ],
            ),
        ],
        Some(r) => {
            let desc = input_text_or(tool.input, "description"@, Seq::empty());
            let cmd = input_text_or(tool.input, "command"@, Seq::empty());
            let a = if desc.len() > 0 {
                seq![
                    boxed(
                        seq![
                            line::sp(
                                "# "@ + desc,
                                line::italic(line::colors(Color::Rgb(140, 142, 150), bash_bg())),
                            ),
                        ],
                        content_width,
                    ),
                ]
            } else {
                Seq::empty()
            };
            let b = if cmd.len() > 0 {
                seq![
                    boxed(
                        seq![
                            line::sp(
                                "$ "@,
                                line::bold(line::colors(Color::Rgb(126, 200, 148), bash_bg())),
                            ),
                            line::sp(cmd, line::colors(Color::Rgb(200, 200, 200), bash_bg())),
                        ],
                        content_width,
                    ),
                ]
            } else {
                Seq::empty()
            };
            let c = if r.content.len() > 0 {
                output_lines(
                    wrap::wrapped(r.content, text::minus(content_width, 2)),
                    content_width,
                    collapsed,
                )
            } else {
                Seq::empty()
            };
            a + b + c
        },
    }
}

pub fn render_bash(
    tool_use: &ToolUseBlock,
    result: Option<&ToolResultBlock>,
    content_width: usize,
    collapsed: bool,
    ms: u64,
) -> (r: Vec<Line>)
    ensures
        line::lines_view(r@) == bash_lines(
            tool_use@,
            opt_result_view(result),
            content_width as int,
            collapsed,
            ms as int,
        ),
{
    let ghost shown = bash_lines(
        tool_use@,
        opt_result_view(result),
        content_width as int,
        collapsed,
        ms as int,
    );
    let mut lines: Vec<Line> = Vec::new();
    assert(line::lines_view(lines@) =~= Seq::<LineView>::empty());
    proof {
        reveal_strlit("");
        assert(""@ =~= Seq::<char>::empty());
    }
    match result {
        None => {
            let spin = text::concat(spinner(ms), " ");
            line::push_line(
                &mut lines,
                line::line2(
                    line::span_of(spin, spinner_style()),
                    line::span("Bash", line::rgb(126, 200, 148)),
                ),
            );
            assert(line::lines_view(lines@) =~= shown);
        },
        Some(tr) => {
            let desc = text_input_or(&tool_use.input, "description", "");
            if text::char_count(desc.as_str()) > 0 {
                let t = text::concat("# ", desc.as_str());
                line::push_line(
                    &mut lines,
                    boxed_line(
                        line::line1(
                            line::span_of(
                                t,
                                line::italic(line::colors(Color::Rgb(140, 142, 150), bash_bg())),
                            ),
                        ),
                        content_width,
                    ),
                );
            }
            let cmd = text_input_or(&tool_use.input, "command", "");
            if text::char_count(cmd.as_str()) > 0 {
                line::push_line(
                    &mut lines,
                    boxed_line(
                        line::line2(
                            line::span(
                                "$ ",
                                line::bold(line::colors(Color::Rgb(126, 200, 148), bash_bg())),
                            ),
                            line::span_of(
                                cmd,
                                line::colors(Color::Rgb(200, 200, 200), bash_bg()),
                            ),
                        ),
                        content_width,
                    ),
                );
            }
            if text::char_count(tr.content.as_str()) > 0 {
                let texts = word_wrap(tr.content.as_str(), content_width.saturating_sub(2));
                push_output_lines(&mut lines, &texts, content_width, collapsed);
            }
            assert(line::lines_view(lines@) =~= shown);
        },
    }
    lines
}

/// What a tool use looks like, with its result or the request to allow it where there is one.
/// A tool without a look of its own shows nothing.
pub open spec fn tool_lines(
    tool: ToolUseView,
    result: Option<ToolResultView>,
    preview: Option<file_mutation::PreviewView>,
    content_width: int,
    project_dir: Option<Seq<char>>,
    collapsed: bool,
    ms: int,
) -> Seq<LineView> {
    if tool.name == "bash"@ {
        bash_lines(tool, result, content_width, collapsed, ms)
    } else if tool.name == "read"@ {
        read_lines(tool, result, content_width, ms)
    } else if tool.name == "edit"@ {
        file_mutation::edit_lines(tool, result, preview, content_width, project_dir, ms)
    } else if tool.name == "write"@ {
        file_mutation::write_lines(tool, result, preview, content_width, project_dir, ms)
    } else {
        Seq::empty()
    }
}

pub fn render_tool(
    tool_use: &ToolUseBlock,
    tool_result: Option<&ToolResultBlock>,
    tool_preview: Option<&ToolPauseRequest>,
    content_width: usize,
    project_dir: Option<&str>,
    collapsed: bool,
    ms: u64,
) -> (r: Vec<Line>)
    ensures
        line::lines_view(r@) == tool_lines(
            tool_use@,
            opt_result_view(tool_result),
            file_mutation::preview_of(tool_preview),
            content_width as int,
            opt_str_view(project_dir),
            collapsed,
            ms as int,
        ),
{
    let name = tool_use.name.as_str();
    if text::same(name, "bash") {
        render_bash(tool_use, tool_result, content_width, collapsed, ms)
    } else if text::same(name, "read") {
        render_read(tool_use, tool_result, content_width, ms)
    } else if text::same(name, "edit") {
        file_mutation::render_edit(
            tool_use,
            tool_result,
            tool_preview,
            content_width,
            project_dir,
            ms,
        )
    } else if text::same(name, "write") {
        file_mutation::render_write(
            tool_use,
            tool_result,
            tool_preview,
            content_width,
            project_dir,
            ms,
        )
    } else {
        let none: Vec<Line> = Vec::new();
        assert(line::lines_view(none@) =~= Seq::<LineView>::empty());
        none
    }
}

} // verus!
