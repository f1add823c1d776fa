//! The input line, the messages that wait above it, and the commands on offer.
use crate::text;
use crate::tui::line;
use crate::tui::line::Color;
use crate::tui::line::Line;
use crate::tui::line::LineView;
use crate::tui::line::Style;
use crate::tui::state::Rect;
use crate::tui::state::UiState;
use crate::types::display::UserDraft;
use crate::types::events::CommandSummary;
use crate::width;
use std::collections::VecDeque;
use vstd::prelude::*;

verus! {

/// How many commands are on offer at a time.
pub const MAX_OFFERED: usize = 6;

/// How many waiting messages are shown at a time.
pub const MAX_QUEUED_SHOWN: usize = 4;

/// The end of the first word of the input.
pub open spec fn word_end(input: Seq<char>) -> int {
    match text::char_from(input, ' ', 0) {
        Some(i) => i,
        None => input.len() as int,
    }
}

/// Whether a command goes by the name `name`.
pub open spec fn answers_to(c: CommandSummary, name: Seq<char>) -> bool {
    c.name@ == name || text::views(c.aliases@).contains(name)
}

/// The first of the first `n` commands that goes by the name `name`.
pub open spec fn command_named(commands: Seq<CommandSummary>, name: Seq<char>, n: int) -> Option<
    int,
>
    decreases n,
{
    if n <= 0 {
        None
    } else {
        match command_named(commands, name, n - 1) {
            Some(i) => Some(i),
            None => if answers_to(commands[n - 1], name) {
                Some(n - 1)
            } else {
                None
            },
        }
    }
}

/// The command that the input calls.
pub open spec fn called_command(commands: Seq<CommandSummary>, input: Seq<char>) -> Option<int> {
    if input.len() > 0 && input[0] == '/' {
        command_named(commands, input.subrange(1, word_end(input)), commands.len() as int)
    } else {
        None
    }
}

proof fn lemma_char_from(s: Seq<char>, c: char, from: int)
    requires
        0 <= from <= s.len(),
    ensures
        match text::char_from(s, c, from) {
            Some(i) => from <= i < s.len() && s[i] == c,
            None => true,
        },
    decreases s.len() - from,
{
    if from < s.len() && s[from] != c {
        lemma_char_from(s, c, from + 1);
    }
}

fn end_of_word(chars: &Vec<char>) -> (r: usize)
    ensures
        r == word_end(chars@),
        r <= chars@.len(),
{
    match text::find_char(chars, ' ', 0) {
        Some(i) => i,
        None => chars.len(),
    }
}

pub fn matched_input_command(state: &UiState) -> (r: Option<usize>)
    ensures
        match r {
            Some(i) => called_command(state.autocomplete.all_commands@, state.input@) == Some(
                i as int,
            ) && i < state.autocomplete.all_commands@.len(),
            None => called_command(state.autocomplete.all_commands@, state.input@) is None,
        },
{
    let chars = text::chars_of(state.input.as_str());
    if chars.len() == 0 || chars[0] != '/' {
        return None;
    }
    let end: usize = end_of_word(&chars);
    proof {
        lemma_char_from(chars@, ' ', 0);
    }
    let name = text::string_of(&chars, 1, end);
    let commands = &state.autocomplete.all_commands;
    let mut found: Option<usize> = None;
    let mut i: usize = 0;
    while i < commands.len()
        invariant
            i <= commands@.len(),
            match found {
                Some(k) => command_named(commands@, name@, i as int) == Some(k as int) && k < i,
                None => command_named(commands@, name@, i as int) is None,
            },
        decreases commands@.len() - i,
    {
        if found.is_none() && (text::same(commands[i].name.as_str(), name.as_str())
            || text::list_contains(&commands[i].aliases, name.as_str())) {
            found = Some(i);
        }
        i = i + 1;
    }
    found
}

#[verifier::allow_in_spec]
pub fn prompt_style() -> (r: Style)
    returns
        (Style { fg: Some(Color::Rgb(0xab, 0xab, 0xab)), bg: None, bold: false, italic: false }),
{
    line::rgb(0xab, 0xab, 0xab)
}

/// The input behind its prompt: a hint where nothing is typed, and the name of a command that it
/// calls in place of what was typed of it.
pub open spec fn input_line(commands: Seq<CommandSummary>, input: Seq<char>) -> LineView {
    let prompt = line::sp("\u{276f} "@, prompt_style());
    let hint = line::colored(Color::DarkGray);
    if input.len() == 0 {
        line::of_spans(seq![prompt, line::sp("Type a message..."@, hint)])
    } else {
        match called_command(commands, input) {
            None => line::of_spans(seq![prompt, line::raw(input)]),
            Some(i) => {
                let c = commands[i];
                let after = input.skip(word_end(input));
                let head = seq![
                    prompt,
                    line::sp("/"@ + c.name@, line::rgb(0x42, 0xd9, 0xe8)),
                ];
                line::of_spans(
                    if after.len() == 0 {
                        head
                    } else if c.has_args && after == " "@ && c.args_description is Some {
                        head.push(line::raw(after)).push(
                            line::sp((c.args_description->0)@, hint),
                        )
                    } else {
                        head.push(line::raw(after))
                    },
                )
            },
        }
    }
}

pub fn build_input_line(state: &UiState) -> (r: Line)
    ensures
        r@ == input_line(state.autocomplete.all_commands@, state.input@),
{
    let prompt = line::span("\u{276f} ", prompt_style());
    let hint = line::colored(Color::DarkGray);
    let chars = text::chars_of(state.input.as_str());
    if chars.len() == 0 {
        return line::line2(prompt, line::span("Type a message...", hint));
    }
    match matched_input_command(state) {
        None => line::line2(prompt, line::raw_span(state.input.as_str())),
        Some(i) => {
            let c = &state.autocomplete.all_commands[i];
            let end: usize = end_of_word(&chars);
            let after = text::string_of(&chars, end, chars.len());
            assert(after@ =~= state.input@.skip(word_end(state.input@)));
            let name = text::concat("/", c.name.as_str());
            let l = line::line2(
                prompt,
                line::span_of(name, line::rgb(0x42, 0xd9, 0xe8)),
            );
            let mut spans = l.spans;
            if text::char_count(after.as_str()) > 0 {
                line::push_span(&mut spans, line::raw_span(after.as_str()));
                if c.has_args && text::same(after.as_str(), " ") {
                    if let Some(d) = &c.args_description {
                        line::push_span(&mut spans, line::span(d.as_str(), hint));
                    }
                }
            }
            line::line_of(spans)
        },
    }
}

/// The columns in front of the cursor where the input calls the command `name`.
pub open spec fn command_columns(input: Seq<char>, cursor: int, name: Seq<char>) -> int {
    let end = word_end(input);
    let shown = "/"@ + name;
    if cursor == end {
        width::unicode_str_width(shown) as int
    } else if cursor < end {
        width::unicode_str_width(text::first_chars(shown, cursor)) as int
    } else {
        text::min_int(
            width::unicode_str_width(shown) + width::unicode_str_width(
                input.subrange(end, cursor),
            ),
            usize::MAX as int,
        )
    }
}

pub fn rendered_command_input_width(input: &str, cursor: usize, name: &str) -> (r: usize)
    requires
        cursor <= input@.len(),
    ensures
        r == command_columns(input@, cursor as int, name@),
{
    let chars = text::chars_of(input);
    let end: usize = end_of_word(&chars);
    let shown = text::concat("/", name);
    if cursor == end {
        return width::str_width(shown.as_str());
    }
    if cursor < end {
        let part = text::take_chars(shown.as_str(), cursor);
        return width::str_width(part.as_str());
    }
    let rest = text::string_of(&chars, end, cursor);
    width::str_width(shown.as_str()).saturating_add(width::str_width(rest.as_str()))
}

/// The column of the cursor in the input line.
pub open spec fn cursor_column(
    commands: Seq<CommandSummary>,
    input: Seq<char>,
    cursor: int,
) -> int {
    let before = if input.len() == 0 {
        0
    } else {
        match called_command(commands, input) {
            Some(i) => command_columns(input, cursor, commands[i].name@),
            None => width::unicode_str_width(input.take(cursor)) as int,
        }
    };
    text::min_int(2 + before, usize::MAX as int)
}

pub fn input_cursor_column(state: &UiState) -> (r: usize)
    requires
        state.cursor_char <= state.input@.len(),
    ensures
        r == cursor_column(
            state.autocomplete.all_commands@,
            state.input@,
            state.cursor_char as int,
        ),
{
    let chars = text::chars_of(state.input.as_str());
    let before: usize = if chars.len() == 0 {
        0
    } else {
        match matched_input_command(state) {
            Some(i) => rendered_command_input_width(
                state.input.as_str(),
                state.cursor_char,
                state.autocomplete.all_commands[i].name.as_str(),
            ),
            None => {
                let part = text::string_of(&chars, 0, state.cursor_char);
                assert(part@ =~= state.input@.take(state.cursor_char as int));
                width::str_width(part.as_str())
            },
        }
    };
    before.saturating_add(2)
}

/// The messages shown above the input: those handed over for the next turn, else those that wait
/// for the end of the run.
pub open spec fn waiting(s: UiState) -> Seq<UserDraft> {
    if s.pending_intervention_inputs@.len() == 0 {
        s.queued_user_inputs@
    } else {
        s.pending_intervention_inputs@
    }
}

pub fn queued_drawer_inputs(state: &UiState) -> (r: &VecDeque<UserDraft>)
    ensures
        r@ == waiting(*state),
{
    if state.pending_intervention_inputs.len() == 0 {
        &state.queued_user_inputs
    } else {
        &state.pending_intervention_inputs
    }
}

/// The rows of the waiting messages, with a heading and a hint.
pub open spec fn queue_rows(count: int) -> int {
    if count == 0 {
        0
    } else {
        text::min_int(count, MAX_QUEUED_SHOWN as int) + 2
    }
}

pub fn queued_height(state: &UiState) -> (r: u16)
    ensures
        r == queue_rows(waiting(*state).len() as int),
{
    let n: usize = queued_drawer_inputs(state).len();
    if n == 0 {
        0
    } else {
        text::min_usize(n, MAX_QUEUED_SHOWN) as u16 + 2
    }
}

#[verifier::allow_in_spec]
pub fn queue_bg() -> (r: Color)
    returns
        Color::Rgb(54, 58, 66),
{
    Color::Rgb(54, 58, 66)
}

#[verifier::allow_in_spec]
pub fn queue_meta() -> (r: Style)
    returns
        (Style {
            fg: Some(Color::Rgb(0xab, 0xab, 0xab)),
            bg: Some(Color::Rgb(54, 58, 66)),
            bold: false,
            italic: false,
        }),
{
    line::colors(Color::Rgb(0xab, 0xab, 0xab), Color::Rgb(54, 58, 66))
}

pub open spec fn queue_title(pending: bool, count: int) -> LineView {
    let title = line::bold(line::colors(Color::Rgb(235, 238, 244), queue_bg()));
    line::of_spans(
        seq![
            line::sp(" "@, line::on(queue_bg())),
            line::sp(
                (if pending {
                    "Inserting next turn ("@
                } else {
                    "Queued messages ("@
                }) + text::decimal(count) + ")"@,
                title,
            ),
            line::sp(
                if pending {
                    " - waiting for the current turn boundary"@
                } else {
                    " - sent after the current run"@
                },
                queue_meta(),
            ),
        ],
    )
}

pub open spec fn queue_line(d: UserDraft, w: int) -> LineView {
    line::of_spans(
        seq![
            line::sp("  - "@, queue_meta()),
            line::sp(
                width::ellipsized(d.text@, text::minus(w, 4)),
                line::colors(Color::Rgb(205, 210, 218), queue_bg()),
            ),
        ],
    )
}

/// The last waiting messages, as many as there is room for.
pub open spec fn queue_lines(inputs: Seq<UserDraft>, rows: int, w: int) -> Seq<LineView> {
    let skip = text::minus(inputs.len() as int, rows);
    Seq::new((inputs.len() - skip) as nat, |i: int| queue_line(inputs[skip + i], w))
}

pub open spec fn queue_footer(pending: bool) -> LineView {
    let free = line::sp(" "@, line::on(queue_bg()));
    line::of_spans(
        if pending {
            seq![
                free,
                line::sp("input queue is locked until insertion completes"@, queue_meta()),
            ]
        } else {
            seq![
                free,
                line::sp(
                    "Alt+Enter"@,
                    line::colors(Color::Rgb(255, 204, 163), queue_bg()),
                ),
                line::sp(
                    " inserts queued messages before the next LLM turn"@,
                    queue_meta(),
                ),
            ]
        },
    )
}

/// The waiting messages as they are to be drawn.
#[derive(Debug, PartialEq, Eq)]
pub struct DrawnQueue {
    pub title: Line,
    pub lines: Vec<Line>,
    pub footer: Line,
}

fn build_queue_lines(inputs: &VecDeque<UserDraft>, rows: usize, w: usize) -> (r: Vec<Line>)
    ensures
        line::lines_view(r@) == queue_lines(inputs@, rows as int, w as int),
{
    let ghost all = queue_lines(inputs@, rows as int, w as int);
    proof {
        reveal_strlit("  - ");
    }
    let room: usize = w.saturating_sub(width::str_width("  - "));
    let n: usize = inputs.len();
    let skip: usize = n.saturating_sub(rows);
    let mut lines: Vec<Line> = Vec::new();
    let mut i: usize = skip;
    assert(line::lines_view(lines@) =~= all.take(0));
    while i < n
        invariant
            skip <= i <= n == inputs@.len(),
            skip == text::minus(n as int, rows as int),
            room == text::minus(w as int, 4),
            all == queue_lines(inputs@, rows as int, w as int),
            line::lines_view(lines@) == all.take(i - skip),
        decreases n - i,
    {
        let short = width::ellipsize_width(inputs[i].text.as_str(), room);
        line::push_line(
            &mut lines,
            line::line2(
                line::span("  - ", queue_meta()),
                line::span_of(
                    short,
                    line::colors(Color::Rgb(205, 210, 218), queue_bg()),
                ),
            ),
        );
        assert(all.take(i - skip + 1) =~= all.take(i - skip).push(all[i - skip]));
        i = i + 1;
    }
    assert(all.take(n - skip) =~= all);
    lines
}

/// Lays the waiting messages out in `rows` rows between their heading and their hint.
pub fn render_queued_user_inputs(state: &UiState, rows: usize, w: usize) -> (r: DrawnQueue)
    ensures
        ({
            let pending = state.pending_intervention_inputs@.len() > 0;
            let inputs = waiting(*state);
            &&& r.title@ == queue_title(pending, inputs.len() as int)
            &&& line::lines_view(r.lines@) == queue_lines(inputs, rows as int, w as int)
            &&& r.footer@ == queue_footer(pending)
        }),
{
    let pending = state.pending_intervention_inputs.len() > 0;
    let inputs = queued_drawer_inputs(state);
    let mut t = text::copy(
        if pending {
            "Inserting next turn ("
        } else {
            "Queued messages ("
        },
    );
    let count = text::decimal_of(inputs.len() as u64);
    t.push_str(count.as_str());
    t.push_str(")");
    let title = line::line3(
        line::span(" ", line::on(queue_bg())),
        line::span_of(t, line::bold(line::colors(Color::Rgb(235, 238, 244), queue_bg()))),
        line::span(
            if pending {
                " - waiting for the current turn boundary"
            } else {
                " - sent after the current run"
            },
            queue_meta(),
        ),
    );
    let lines = build_queue_lines(inputs, rows, w);
    let free = line::span(" ", line::on(queue_bg()));
    let footer = if pending {
        line::line2(
            free,
            line::span("input queue is locked until insertion completes", queue_meta()),
        )
    } else {
        line::line3(
            free,
            line::span("Alt+Enter", line::colors(Color::Rgb(255, 204, 163), queue_bg())),
            line::span(" inserts queued messages before the next LLM turn", queue_meta()),
        )
    };
    DrawnQueue { title, lines, footer }
}

/// The first command in sight, so that the selected one is.
pub open spec fn first_offered(selected: int) -> int {
    if selected >= MAX_OFFERED {
        selected + 1 - MAX_OFFERED
    } else {
        0
    }
}

/// The selected command is among those in sight.
pub proof fn law_selected_command_is_in_sight(total: int, selected: int)
    requires
        0 <= selected < total,
    ensures
        first_offered(selected) <= selected,
        selected < first_offered(selected) + text::min_int(
            total - first_offered(selected),
            MAX_OFFERED as int,
        ),
{
}

/// The longest name among the first `n` commands on offer, with its slash.
pub open spec fn longest_name(commands: Seq<CommandSummary>, filtered: Seq<usize>, n: int) -> int
    decreases n,
{
    if n <= 0 {
        0
    } else {
        text::max_int(
            longest_name(commands, filtered, n - 1),
            commands[filtered[n - 1] as int].name@.len() as int + 1,
        )
    }
}

/// A command on offer: its name, what it does, and the background up to the width.
pub open spec fn offer_line(
    c: CommandSummary,
    selected: bool,
    name_width: int,
    content_width: int,
) -> LineView {
    let bg = if selected {
        Color::Rgb(255, 204, 163)
    } else {
        Color::Rgb(65, 69, 76)
    };
    let style = line::colors(Color::Rgb(165, 172, 182), bg);
    let bar = line::sp("\u{2503}"@, line::rgb(90, 102, 118));
    let t = "/"@ + c.name@ + text::repeated(
        ' ',
        text::minus(name_width, c.name@.len() as int + 1),
    ) + "  "@ + c.description@;
    let pad = text::minus(content_width, width::unicode_str_width(t) as int);
    let body = if pad > 0 {
        seq![bar, line::sp(t, style), line::sp(text::repeated(' ', pad), style)]
    } else {
        seq![bar, line::sp(t, style)]
    };
    line::of_spans(body.push(line::sp("  "@, style)).push(bar))
}

fn build_offer_line(
    c: &CommandSummary,
    selected: bool,
    name_width: usize,
    content_width: usize,
) -> (r: Line)
    ensures
        r@ == offer_line(*c, selected, name_width as int, content_width as int),
{
    let bg = if selected {
        Color::Rgb(255, 204, 163)
    } else {
        Color::Rgb(65, 69, 76)
    };
    let style = line::colors(Color::Rgb(165, 172, 182), bg);
    proof {
        reveal_strlit("/");
    }
    let mut t = text::concat("/", c.name.as_str());
    let spaces = text::repeat(' ', name_width.saturating_sub(text::char_count(t.as_str())));
    t.push_str(spaces.as_str());
    t.push_str("  ");
    t.push_str(c.description.as_str());
    let pad: usize = content_width.saturating_sub(width::str_width(t.as_str()));
    let bar_style = line::rgb(90, 102, 118);
    let l = line::line2(line::span("\u{2503}", bar_style), line::span_of(t, style));
    let mut spans = l.spans;
    let ghost two = line::spans_view(spans@);
    if pad > 0 {
        let more = text::repeat(' ', pad);
        line::push_span(&mut spans, line::span_of(more, style));
        assert(line::spans_view(spans@) =~= seq![
            two[0],
            two[1],
            line::sp(text::repeated(' ', pad as int), style),
        ]);
    }
    line::push_span(&mut spans, line::span("  ", style));
    line::push_span(&mut spans, line::span("\u{2503}", bar_style));
    line::line_of(spans)
}

/// The commands on offer as they are to be drawn, right above the input.
#[derive(Debug, PartialEq, Eq)]
pub struct DrawnOffer {
    pub area: Rect,
    pub lines: Vec<Line>,
}

/// Whether the positions on offer are those of commands.
pub open spec fn offer_ok(s: UiState) -> bool {
    forall|i: int|
        0 <= i < s.autocomplete.filtered@.len() ==> (#[trigger] s.autocomplete.filtered@[i])
            < s.autocomplete.all_commands@.len()
}

/// The drawn offer above an input in `input_area`.
pub open spec fn offer_shown(s: UiState, input_area: Rect, r: DrawnOffer) -> bool {
    let commands = s.autocomplete.all_commands@;
    let filtered = s.autocomplete.filtered@;
    let total = filtered.len() as int;
    let selected = text::min_int(s.autocomplete.selected as int, total - 1);
    let start = first_offered(selected);
    let count = text::min_int(total - start, MAX_OFFERED as int);
    let names = longest_name(commands, filtered, total);
    &&& r.area == (Rect {
        x: input_area.x,
        y: text::minus(input_area.y as int, count) as u16,
        width: input_area.width,
        height: count as u16,
    })
    &&& line::lines_view(r.lines@) == Seq::new(
        count as nat,
        |i: int|
            offer_line(
                commands[filtered[start + i] as int],
                start + i == selected,
                names,
                text::minus(input_area.width as int, 4),
            ),
    )
}

fn name_columns(commands: &Vec<CommandSummary>, filtered: &Vec<usize>) -> (r: usize)
    requires
        forall|i: int|
            0 <= i < filtered@.len() ==> (#[trigger] filtered@[i]) < commands@.len(),
    ensures
        r == longest_name(commands@, filtered@, filtered@.len() as int),
{
    proof {
        reveal_strlit("/");
    }
    let mut best: usize = 0;
    let mut i: usize = 0;
    while i < filtered.len()
        invariant
            i <= filtered@.len(),
            forall|i: int|
                0 <= i < filtered@.len() ==> (#[trigger] filtered@[i]) < commands@.len(),
            "/"@.len() == 1,
            best == longest_name(commands@, filtered@, i as int),
        decreases filtered@.len() - i,
    {
        let name = text::concat("/", commands[filtered[i]].name.as_str());
        best = text::max_usize(best, text::char_count(name.as_str()));
        i = i + 1;
    }
    best
}

/// Lays out the commands on offer, where there are any.
pub fn render_autocomplete(state: &UiState, input_area: Rect) -> (r: Option<DrawnOffer>)
    requires
        offer_ok(*state),
    ensures
        match r {
            Some(d) => state.autocomplete.visible && state.autocomplete.filtered@.len() > 0
                && offer_shown(*state, input_area, d),
            None => !state.autocomplete.visible || state.autocomplete.filtered@.len() == 0,
        },
{
    let filtered = &state.autocomplete.filtered;
    let commands = &state.autocomplete.all_commands;
    let total: usize = filtered.len();
    if !state.autocomplete.visible || total == 0 {
        return None;
    }
    let selected: usize = text::min_usize(state.autocomplete.selected, total - 1);
    let start: usize = if selected >= MAX_OFFERED {
        selected - MAX_OFFERED + 1
    } else {
        0
    };
    let count: usize = text::min_usize(total - start, MAX_OFFERED);
    let names: usize = name_columns(commands, filtered);
    let ghost longest = longest_name(commands@, filtered@, total as int);
    let content_width: usize = input_area.width.saturating_sub(4) as usize;
    let ghost row = |i: int|
        offer_line(
            commands@[filtered@[start + i] as int],
            start + i == selected,
            longest,
            content_width as int,
        );
    let mut lines: Vec<Line> = Vec::new();
    let mut i: usize = 0;
    assert(line::lines_view(lines@) =~= Seq::new(0, row));
    while i < count
        invariant
            i <= count,
            start + count <= total == filtered@.len(),
            commands@ == state.autocomplete.all_commands@,
            filtered@ == state.autocomplete.filtered@,
            offer_ok(*state),
            longest == longest_name(commands@, filtered@, total as int),
            names == longest,
            row == (|i: int|
                offer_line(
                    commands@[filtered@[start + i] as int],
                    start + i == selected,
                    longest,
                    content_width as int,
                )),
            line::lines_view(lines@) == Seq::new(i as nat, row),
        decreases count - i,
    {
        let at: usize = start + i;
        let c = &commands[filtered[at]];
        line::push_line(
            &mut lines,
            build_offer_line(c, at == selected, names, content_width),
        );
        assert(Seq::new((i + 1) as nat, row) =~= Seq::new(i as nat, row).push(row(i as int)));
        i = i + 1;
    }
    let height: u16 = count as u16;
    Some(
        DrawnOffer {
            area: Rect {
                x: input_area.x,
                y: input_area.y.saturating_sub(height),
                width: input_area.width,
                height,
            },
            lines,
        },
    )
}

} // verus!
