//! The page on which the user picks a session.
use crate::text;
use crate::tui::line;
use crate::tui::line::Color;
use crate::tui::line::Line;
use crate::tui::line::LineView;
use crate::tui::line::Style;
use crate::types::events::SessionSummary;
use crate::width;
use vstd::prelude::*;

verus! {

/// How long ago something was, in words; what is older than a month has its date.
pub open spec fn ago(now: int, then_at: int, date: Seq<char>) -> Seq<char> {
    let seconds = text::max_int(now - then_at, 0);
    if seconds < 60 {
        "just now"@
    } else if seconds < 3600 {
        text::decimal(seconds / 60) + "m ago"@
    } else if seconds < 86400 {
        text::decimal(seconds / 3600) + "h ago"@
    } else if seconds < 604800 {
        text::decimal(seconds / 86400) + "d ago"@
    } else if seconds < 2592000 {
        text::decimal(seconds / 604800) + "w ago"@
    } else {
        date
    }
}

fn some_ago(n: u64, unit: &str) -> (r: String)
    ensures
        r@ == text::decimal(n as int) + unit@,
{
    let mut out = text::decimal_of(n);
    out.push_str(unit);
    out
}

/// `date` is the day of `then_at` where the user is.
pub fn relative_time(now: i64, then_at: i64, date: &str) -> (r: String)
    ensures
        r@ == ago(now as int, then_at as int, date@),
{
    let passed: i128 = now as i128 - then_at as i128;
    let seconds: u64 = if passed >= 2592000 {
        2592000
    } else if passed >= 0 {
        passed as u64
    } else {
        0
    };
    if seconds < 60 {
        text::copy("just now")
    } else if seconds < 3600 {
        some_ago(seconds / 60, "m ago")
    } else if seconds < 86400 {
        some_ago(seconds / 3600, "h ago")
    } else if seconds < 604800 {
        some_ago(seconds / 86400, "d ago")
    } else if seconds < 2592000 {
        some_ago(seconds / 604800, "w ago")
    } else {
        text::copy(date)
    }
}

/// The first session in sight: the selected one is kept in the middle where it can be.
pub open spec fn first_shown(total: int, selected: int, rows: int) -> int {
    if total > rows {
        text::min_int(text::minus(selected, rows / 2), total - rows)
    } else {
        0
    }
}

/// How many sessions are in sight.
pub open spec fn shown_count(total: int, selected: int, rows: int) -> int {
    text::min_int(rows, total - first_shown(total, selected, rows))
}

/// The selected session is always in sight.
pub proof fn law_selected_session_is_in_sight(total: int, selected: int, rows: int)
    requires
        rows >= 1,
        0 <= selected < total,
    ensures
        first_shown(total, selected, rows) <= selected,
        selected < first_shown(total, selected, rows) + shown_count(total, selected, rows),
        first_shown(total, selected, rows) + shown_count(total, selected, rows) <= total,
{
}

pub open spec fn one_span(s: Seq<char>, style: Style) -> LineView {
    line::of_spans(seq![line::sp(s, style)])
}

pub open spec fn free_row(w: int) -> LineView {
    one_span(text::repeated(' ', w), line::plain())
}

/// A session on its line.
pub open spec fn session_row(
    s: SessionSummary,
    at: int,
    selected: bool,
    time: Seq<char>,
    w: int,
) -> LineView {
    let fg = if selected {
        Color::Rgb(0xc1, 0x97, 0x72)
    } else {
        Color::Rgb(0xa5, 0xac, 0xb6)
    };
    let bg = if selected {
        Color::Rgb(0x41, 0x45, 0x4c)
    } else if at % 2 == 0 {
        Color::Rgb(0x33, 0x37, 0x3f)
    } else {
        Color::Reset
    };
    let prefix = if selected {
        "❯ "@
    } else {
        "  "@
    };
    one_span(
        text::filled(
            prefix + time + "  "@ + width::cut_with_dots(s.title@, text::minus(w, 20)),
            w,
        ),
        line::colors(fg, bg),
    )
}

fn session_line(s: &SessionSummary, at: usize, selected: bool, time: &str, w: usize) -> (r: Line)
    ensures
        r@ == session_row(*s, at as int, selected, time@, w as int),
{
    let fg = if selected {
        Color::Rgb(0xc1, 0x97, 0x72)
    } else {
        Color::Rgb(0xa5, 0xac, 0xb6)
    };
    let bg = if selected {
        Color::Rgb(0x41, 0x45, 0x4c)
    } else if at % 2 == 0 {
        Color::Rgb(0x33, 0x37, 0x3f)
    } else {
        Color::Reset
    };
    let mut t = text::copy(
        if selected {
            "❯ "
        } else {
            "  "
        },
    );
    t.push_str(time);
    t.push_str("  ");
    let title = width::truncate_str(s.title.as_str(), w.saturating_sub(20));
    t.push_str(title.as_str());
    let full = text::fill(t.as_str(), w);
    line::line1(line::span_of(full, line::colors(fg, bg)))
}

#[verifier::allow_in_spec]
pub fn faint() -> (r: Style)
    returns
        (Style { fg: Some(Color::Rgb(0x6a, 0x6a, 0x6a)), bg: None, bold: false, italic: false }),
{
    line::rgb(0x6a, 0x6a, 0x6a)
}

#[verifier::allow_in_spec]
pub fn muted() -> (r: Style)
    returns
        (Style { fg: Some(Color::Rgb(0x8a, 0x8a, 0x8a)), bg: None, bold: false, italic: false }),
{
    line::rgb(0x8a, 0x8a, 0x8a)
}

/// The heading, and below it what is searched for.
pub open spec fn header_lines(search: Seq<char>) -> Seq<LineView> {
    seq![
        one_span("  Sessions"@, line::rgb(0xa5, 0xac, 0xb6)),
        if search.len() == 0 {
            one_span("  Type to Search"@, faint())
        } else {
            one_span("  Search: "@ + search, line::rgb(0xa5, 0xac, 0xb6))
        },
    ]
}

/// The sessions in sight, with a mark above and below where there are more.
pub open spec fn session_rows(
    sessions: Seq<SessionSummary>,
    selected: int,
    times: Seq<Seq<char>>,
    w: int,
    h: int,
) -> Seq<LineView> {
    let total = sessions.len() as int;
    if total == 0 {
        seq![one_span(text::filled("  No sessions found"@, w), muted())] + Seq::new(
            text::minus(h, 1) as nat,
            |i: int| free_row(w),
        )
    } else {
        let rows = text::minus(h, 2);
        let first = first_shown(total, selected, rows);
        let count = shown_count(total, selected, rows);
        let top = if first > 0 {
            one_span(text::filled("  ↑ more"@, w), faint())
        } else {
            free_row(w)
        };
        let bottom = if first + rows < total {
            one_span(text::filled("  ↓ more"@, w), faint())
        } else {
            free_row(w)
        };
        (seq![top] + Seq::new(
            count as nat,
            |i: int|
                session_row(
                    sessions[first + i],
                    first + i,
                    first + i == selected,
                    times[first + i],
                    w,
                ),
        ) + Seq::new(text::minus(h - 1, 1 + count) as nat, |i: int| free_row(w))).push(bottom)
    }
}

/// The line below the sessions, with the place of the selected one.
pub open spec fn session_divider(total: int, selected: int, w: int) -> LineView {
    let style = line::rgb(0x5a, 0x66, 0x76);
    if total == 0 {
        one_span(text::repeated('─', w), style)
    } else {
        let place = " "@ + text::decimal(selected + 1) + "/"@ + text::decimal(total) + " "@;
        one_span(text::repeated('─', text::minus(w, place.len() as int)) + place, style)
    }
}

pub open spec fn session_footer(total: int) -> LineView {
    one_span(
        if total == 0 {
            "  Esc back · Type to search"@
        } else {
            "  ↑/↓ navigate · Enter select · Esc back · Type to filter"@
        },
        muted(),
    )
}

/// The page as it is to be drawn.
#[derive(Debug, PartialEq, Eq)]
pub struct DrawnSessions {
    pub header: Vec<Line>,
    pub lines: Vec<Line>,
    pub divider: Line,
    pub footer: Line,
}

fn push_free_rows(lines: &mut Vec<Line>, n: usize, w: usize)
    ensures
        line::lines_view(final(lines)@) == line::lines_view(old(lines)@) + Seq::new(
            n as nat,
            |i: int| free_row(w as int),
        ),
{
    let ghost before = line::lines_view(lines@);
    let ghost row = |i: int| free_row(w as int);
    let mut i: usize = 0;
    assert(before =~= before + Seq::new(0, row));
    while i < n
        invariant
            i <= n,
            row == (|i: int| free_row(w as int)),
            line::lines_view(lines@) == before + Seq::new(i as nat, row),
        decreases n - i,
    {
        let spaces = text::repeat(' ', w);
        line::push_line(lines, line::line1(line::span_of(spaces, line::plain())));
        assert(before + Seq::new((i + 1) as nat, row) =~= (before + Seq::new(
            i as nat,
            row,
        )).push(row(i as int)));
        i = i + 1;
    }
}

fn build_session_rows(
    sessions: &Vec<SessionSummary>,
    selected: usize,
    times: &Vec<String>,
    w: usize,
    h: usize,
) -> (r: Vec<Line>)
    requires
        times@.len() == sessions@.len(),
        h >= 1,
    ensures
        line::lines_view(r@) == session_rows(
            sessions@,
            selected as int,
            text::views(times@),
            w as int,
            h as int,
        ),
{
    let ghost goal = session_rows(
        sessions@,
        selected as int,
        text::views(times@),
        w as int,
        h as int,
    );
    let total: usize = sessions.len();
    let mut lines: Vec<Line> = Vec::new();
    assert(line::lines_view(lines@) =~= Seq::<LineView>::empty());
    if total == 0 {
        let t = text::fill("  No sessions found", w);
        line::push_line(&mut lines, line::line1(line::span_of(t, muted())));
        push_free_rows(&mut lines, h.saturating_sub(1), w);
        assert(line::lines_view(lines@) =~= goal);
        return lines;
    }
    let rows: usize = h.saturating_sub(2);
    let first: usize = if total > rows {
        text::min_usize(selected.saturating_sub(rows / 2), total - rows)
    } else {
        0
    };
    let count: usize = text::min_usize(rows, total - first);
    if first > 0 {
        let t = text::fill("  ↑ more", w);
        line::push_line(&mut lines, line::line1(line::span_of(t, faint())));
    } else {
        push_free_rows(&mut lines, 1, w);
    }
    let ghost top = line::lines_view(lines@);
    assert(top =~= seq![
        if first > 0 {
            one_span(text::filled("  ↑ more"@, w as int), faint())
        } else {
            free_row(w as int)
        },
    ]);
    let ghost t = text::views(times@);
    let ghost row = |i: int|
        session_row(
            sessions@[first + i],
            first + i,
            first + i == selected,
            t[first + i],
            w as int,
        );
    let mut i: usize = 0;
    assert(top =~= top + Seq::new(0, row));
    while i < count
        invariant
            i <= count,
            first + count <= total == sessions@.len(),
            times@.len() == sessions@.len(),
            t == text::views(times@),
            row == (|i: int|
                session_row(
                    sessions@[first + i],
                    first + i,
                    first + i == selected,
                    t[first + i],
                    w as int,
                )),
            line::lines_view(lines@) == top + Seq::new(i as nat, row),
        decreases count - i,
    {
        let at: usize = first + i;
        line::push_line(
            &mut lines,
            session_line(&sessions[at], at, at == selected, times[at].as_str(), w),
        );
        assert(top + Seq::new((i + 1) as nat, row) =~= (top + Seq::new(i as nat, row)).push(
            row(i as int),
        ));
        i = i + 1;
    }
    let left: usize = (h - 1).saturating_sub(1).saturating_sub(count);
    push_free_rows(&mut lines, left, w);
    if total - first > rows {
        let t = text::fill("  ↓ more", w);
        line::push_line(&mut lines, line::line1(line::span_of(t, faint())));
    } else {
        push_free_rows(&mut lines, 1, w);
    }
    assert(line::lines_view(lines@) =~= goal);
    lines
}

fn build_session_divider(total: usize, selected: usize, w: usize) -> (r: Line)
    ensures
        r@ == session_divider(total as int, selected as int, w as int),
{
    let style = line::rgb(0x5a, 0x66, 0x76);
    if total == 0 {
        let dashes = text::repeat('─', w);
        return line::line1(line::span_of(dashes, style));
    }
    let mut place = text::copy(" ");
    let at = text::decimal_of_wide(selected as u128 + 1);
    place.push_str(at.as_str());
    place.push_str("/");
    let count = text::decimal_of(total as u64);
    place.push_str(count.as_str());
    place.push_str(" ");
    let mut t = text::repeat('─', w.saturating_sub(text::char_count(place.as_str())));
    t.push_str(place.as_str());
    line::line1(line::span_of(t, style))
}

/// Lays the page out. `times` says for each session when it was; the sessions have `h` rows of
/// `w` columns.
pub fn render_session_list(
    sessions: &Vec<SessionSummary>,
    selected: usize,
    search: &str,
    times: &Vec<String>,
    w: usize,
    h: usize,
) -> (r: DrawnSessions)
    requires
        times@.len() == sessions@.len(),
        h >= 1,
    ensures
        line::lines_view(r.header@) == header_lines(search@),
        line::lines_view(r.lines@) == session_rows(
            sessions@,
            selected as int,
            text::views(times@),
            w as int,
            h as int,
        ),
        r.divider@ == session_divider(sessions@.len() as int, selected as int, w as int),
        r.footer@ == session_footer(sessions@.len() as int),
{
    let mut header: Vec<Line> = Vec::new();
    assert(line::lines_view(header@) =~= Seq::<LineView>::empty());
    line::push_line(
        &mut header,
        line::line1(line::span("  Sessions", line::rgb(0xa5, 0xac, 0xb6))),
    );
    if text::char_count(search) == 0 {
        line::push_line(&mut header, line::line1(line::span("  Type to Search", faint())));
    } else {
        let t = text::concat("  Search: ", search);
        line::push_line(
            &mut header,
            line::line1(line::span_of(t, line::rgb(0xa5, 0xac, 0xb6))),
        );
    }
    assert(line::lines_view(header@) =~= header_lines(search@));
    let lines = build_session_rows(sessions, selected, times, w, h);
    let divider = build_session_divider(sessions.len(), selected, w);
    let footer = line::line1(
        line::span(
            if sessions.len() == 0 {
                "  Esc back · Type to search"
            } else {
                "  ↑/↓ navigate · Enter select · Esc back · Type to filter"
            },
            muted(),
        ),
    );
    DrawnSessions { header, lines, divider, footer }
}

} // verus!
