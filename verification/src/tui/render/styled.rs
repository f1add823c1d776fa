//! Text of the user and notices, broken into styled lines.
use crate::text;
use crate::tui::line;
use crate::tui::line::Color;
use crate::tui::line::Line;
use crate::tui::line::LineView;
use crate::tui::line::Span;
use crate::tui::line::SpanView;
use crate::tui::line::Style;
use crate::tui::widgets::wrap;
use crate::tui::widgets::wrap::word_wrap;
use crate::types::display::DisplayMention;
use crate::types::display::DisplayMessage;
use crate::width;
use vstd::prelude::*;

verus! {

pub open spec fn decimal_digit(c: char) -> bool {
    '0' <= c && c <= '9'
}

/// The end of the digits that stand at `from`.
pub open spec fn digits_end(s: Seq<char>, from: int) -> int
    decreases s.len() - from,
{
    if 0 <= from < s.len() && decimal_digit(s[from]) {
        digits_end(s, from + 1)
    } else {
        from
    }
}

/// The end of the marker of an image that stands at `i`, if one does.
pub open spec fn marker_end(s: Seq<char>, i: int) -> Option<int> {
    let digits = i + 7;
    let end = digits_end(s, digits);
    if digits < s.len() && s.subrange(i, digits) == "[Image#"@ && end > digits && end < s.len()
        && s[end] == ']' {
        Some(end + 1)
    } else {
        None
    }
}

pub proof fn lemma_digits_end(s: Seq<char>, from: int)
    requires
        0 <= from <= s.len(),
    ensures
        from <= digits_end(s, from) <= s.len(),
    decreases s.len() - from,
{
    if from < s.len() && decimal_digit(s[from]) {
        lemma_digits_end(s, from + 1);
    }
}

/// The ranges of the image markers from `i` on.
pub open spec fn image_ranges(s: Seq<char>, i: int) -> Seq<(int, int)>
    decreases s.len() - i,
    when 0 <= i
{
    if i >= s.len() {
        Seq::empty()
    } else {
        proof {
            if i + 7 < s.len() {
                lemma_digits_end(s, i + 7);
            }
        }
        match marker_end(s, i) {
            Some(end) => seq![(i, end)] + image_ranges(s, end),
            None => image_ranges(s, i + 1),
        }
    }
}

pub open spec fn ranges_view(v: Seq<(usize, usize)>) -> Seq<(int, int)> {
    Seq::new(v.len(), |i: int| (v[i].0 as int, v[i].1 as int))
}

fn marker_end_at(chars: &Vec<char>, i: usize) -> (r: Option<usize>)
    requires
        i < chars@.len(),
    ensures
        match r {
            Some(end) => marker_end(chars@, i as int) == Some(end as int) && i < end
                <= chars@.len(),
            None => marker_end(chars@, i as int) is None,
        },
{
    proof {
        reveal_strlit("[Image#");
    }
    let n: usize = chars.len();
    if n - i <= 7 {
        return None;
    }
    let prefix = text::chars_of("[Image#");
    if !text::matches_at(chars, &prefix, i) {
        return None;
    }
    let mut end: usize = i + 7;
    proof {
        lemma_digits_end(chars@, i + 7);
    }
    while end < n && '0' <= chars[end] && chars[end] <= '9'
        invariant
            i + 7 <= end <= n,
            n == chars@.len(),
            digits_end(chars@, i + 7) == digits_end(chars@, end as int),
        decreases n - end,
    {
        end = end + 1;
    }
    if end > i + 7 && end < n && chars[end] == ']' {
        Some(end + 1)
    } else {
        None
    }
}

pub fn image_marker_ranges(s: &str) -> (r: Vec<(usize, usize)>)
    ensures
        ranges_view(r@) == image_ranges(s@, 0),
{
    let chars = text::chars_of(s);
    let ghost all = image_ranges(s@, 0);
    let mut out: Vec<(usize, usize)> = Vec::new();
    let mut i: usize = 0;
    assert(ranges_view(out@) + all =~= all);
    while i < chars.len()
        invariant
            chars@ == s@,
            i <= chars@.len(),
            ranges_view(out@) + image_ranges(s@, i as int) == all,
        decreases chars@.len() - i,
    {
        let ghost before = ranges_view(out@);
        match marker_end_at(&chars, i) {
            Some(end) => {
                out.push((i, end));
                assert(ranges_view(out@) =~= before.push((i as int, end as int)));
                assert(ranges_view(out@) + image_ranges(s@, end as int) =~= before
                    + image_ranges(s@, i as int));
                i = end;
            },
            None => {
                i = i + 1;
            },
        }
    }
    assert(ranges_view(out@) =~= all);
    out
}

/// Whether the character at `at` belongs to a mention.
pub open spec fn mentioned(mentions: Seq<DisplayMention>, at: int) -> bool {
    exists|i: int|
        0 <= i < mentions.len() && (#[trigger] mentions[i]).start_char <= at
            < mentions[i].end_char
}

/// Whether `at` lies in one of the ranges.
pub open spec fn in_ranges(ranges: Seq<(int, int)>, at: int) -> bool {
    exists|i: int| 0 <= i < ranges.len() && (#[trigger] ranges[i]).0 <= at < ranges[i].1
}

/// The style of the character at `at`: a mention and the marker of an image stand out.
pub open spec fn style_at(
    s: Seq<char>,
    mentions: Seq<DisplayMention>,
    base: Style,
    at: int,
) -> Style {
    if mentioned(mentions, at) || in_ranges(image_ranges(s, 0), at) {
        Style { fg: Some(Color::Rgb(0x42, 0xd9, 0xe8)), bg: base.bg, bold: true, italic: base.italic }
    } else {
        base
    }
}

fn is_mentioned(mentions: &Vec<DisplayMention>, at: usize) -> (r: bool)
    ensures
        r == mentioned(mentions@, at as int),
{
    let mut i: usize = 0;
    while i < mentions.len()
        invariant
            i <= mentions@.len(),
            forall|k: int|
                0 <= k < i ==> !((#[trigger] mentions@[k]).start_char <= at
                    < mentions@[k].end_char),
        decreases mentions@.len() - i,
    {
        if at >= mentions[i].start_char && at < mentions[i].end_char {
            return true;
        }
        i = i + 1;
    }
    false
}

fn is_in_ranges(ranges: &Vec<(usize, usize)>, at: usize) -> (r: bool)
    ensures
        r == in_ranges(ranges_view(ranges@), at as int),
{
    let ghost v = ranges_view(ranges@);
    let mut i: usize = 0;
    while i < ranges.len()
        invariant
            i <= ranges@.len(),
            v == ranges_view(ranges@),
            forall|k: int| 0 <= k < i ==> !((#[trigger] v[k]).0 <= at < v[k].1),
        decreases ranges@.len() - i,
    {
        if at >= ranges[i].0 && at < ranges[i].1 {
            assert(v[i as int].0 <= at < v[i as int].1);
            return true;
        }
        assert(v[i as int] == (ranges@[i as int].0 as int, ranges@[i as int].1 as int));
        i = i + 1;
    }
    false
}

/// A text on its way into lines: the finished lines, the line in the making, and its columns.
#[verifier::ext_equal]
pub struct Broken {
    pub lines: Seq<LineView>,
    pub spans: Seq<SpanView>,
    pub columns: int,
}

/// The first `n` characters of `s` in lines of at most `limit` columns.
pub open spec fn broken(
    s: Seq<char>,
    mentions: Seq<DisplayMention>,
    limit: int,
    base: Style,
    n: int,
) -> Broken
    decreases n,
{
    if n <= 0 {
        Broken { lines: Seq::empty(), spans: Seq::empty(), columns: 0 }
    } else {
        let b = broken(s, mentions, limit, base, n - 1);
        let c = s[n - 1];
        if c == '\n' {
            Broken {
                lines: b.lines.push(line::of_spans(b.spans)),
                spans: Seq::empty(),
                columns: 0,
            }
        } else {
            let w = width::char_columns(c);
            let style = style_at(s, mentions, base, n - 1);
            if b.columns > 0 && b.columns + w > limit {
                Broken {
                    lines: b.lines.push(line::of_spans(b.spans)),
                    spans: line::with_char(Seq::empty(), c, style),
                    columns: w,
                }
            } else {
                Broken {
                    lines: b.lines,
                    spans: line::with_char(b.spans, c, style),
                    columns: b.columns + w,
                }
            }
        }
    }
}

/// A text in lines of at most `content_width` columns, with mentions and image markers standing
/// out. An empty text has no lines.
pub open spec fn styled(
    s: Seq<char>,
    mentions: Seq<DisplayMention>,
    content_width: int,
    base: Style,
) -> Seq<LineView> {
    if s.len() == 0 {
        Seq::empty()
    } else {
        let b = broken(
            s,
            mentions,
            text::max_int(content_width, 1),
            base,
            s.len() as int,
        );
        b.lines.push(line::of_spans(b.spans))
    }
}

pub fn styled_wrapped_ranges(
    s: &str,
    mentions: &Vec<DisplayMention>,
    content_width: usize,
    base_style: Style,
) -> (r: Vec<Line>)
    ensures
        line::lines_view(r@) == styled(s@, mentions@, content_width as int, base_style),
{
    let mut lines: Vec<Line> = Vec::new();
    assert(line::lines_view(lines@) =~= Seq::<LineView>::empty());
    let chars = text::chars_of(s);
    let n: usize = chars.len();
    if n == 0 {
        return lines;
    }
    let ranges = image_marker_ranges(s);
    let strong = Style {
        fg: Some(Color::Rgb(0x42, 0xd9, 0xe8)),
        bg: base_style.bg,
        bold: true,
        italic: base_style.italic,
    };
    let limit: usize = text::max_usize(content_width, 1);
    let mut spans: Vec<Span> = Vec::new();
    assert(line::spans_view(spans@) =~= Seq::<SpanView>::empty());
    let mut used: u128 = 0;
    let mut i: usize = 0;
    while i < n
        invariant
            chars@ == s@,
            n == chars@.len(),
            i <= n,
            ranges_view(ranges@) == image_ranges(s@, 0),
            strong == (Style {
                fg: Some(Color::Rgb(0x42, 0xd9, 0xe8)),
                bg: base_style.bg,
                bold: true,
                italic: base_style.italic,
            }),
            used <= 3 * i,
            (Broken {
                lines: line::lines_view(lines@),
                spans: line::spans_view(spans@),
                columns: used as int,
            }) == broken(s@, mentions@, limit as int, base_style, i as int),
        decreases n - i,
    {
        let c = chars[i];
        if c == '\n' {
            line::push_line(&mut lines, line::line_of(spans));
            spans = Vec::new();
            assert(line::spans_view(spans@) =~= Seq::<SpanView>::empty());
            used = 0;
        } else {
            let w: u128 = width::char_width(c) as u128;
            if used > 0 && used + w > limit as u128 {
                line::push_line(&mut lines, line::line_of(spans));
                spans = Vec::new();
                assert(line::spans_view(spans@) =~= Seq::<SpanView>::empty());
                used = 0;
            }
            let style = if is_mentioned(mentions, i) || is_in_ranges(&ranges, i) {
                strong
            } else {
                base_style
            };
            line::push_char_span(&mut spans, c, style);
            used = used + w;
        }
        i = i + 1;
    }
    line::push_line(&mut lines, line::line_of(spans));
    lines
}

/// The text of all of the lines, without the breaks.
pub open spec fn text_of_lines(lines: Seq<LineView>) -> Seq<char>
    decreases lines.len(),
{
    if lines.len() == 0 {
        Seq::empty()
    } else {
        text_of_lines(lines.drop_last()) + line::text_of(lines.last().spans)
    }
}

/// `s` without its line breaks.
pub open spec fn without_breaks(s: Seq<char>) -> Seq<char>
    decreases s.len(),
{
    if s.len() == 0 {
        Seq::empty()
    } else if s.last() == '\n' {
        without_breaks(s.drop_last())
    } else {
        without_breaks(s.drop_last()).push(s.last())
    }
}

proof fn lemma_broken_text(
    s: Seq<char>,
    mentions: Seq<DisplayMention>,
    limit: int,
    base: Style,
    n: int,
)
    requires
        0 <= n <= s.len(),
    ensures
        ({
            let b = broken(s, mentions, limit, base, n);
            text_of_lines(b.lines) + line::text_of(b.spans) == without_breaks(s.take(n))
        }),
    decreases n,
{
    if n > 0 {
        lemma_broken_text(s, mentions, limit, base, n - 1);
        let b = broken(s, mentions, limit, base, n - 1);
        let c = s[n - 1];
        assert(s.take(n).drop_last() =~= s.take(n - 1));
        let done = b.lines.push(line::of_spans(b.spans));
        assert(done.drop_last() =~= b.lines);
        let none = Seq::<SpanView>::empty();
        if c != '\n' {
            let style = style_at(s, mentions, base, n - 1);
            line::lemma_with_char_text(b.spans, c, style);
            line::lemma_with_char_text(none, c, style);
        }
        let after = broken(s, mentions, limit, base, n);
        assert(text_of_lines(after.lines) + line::text_of(after.spans) =~= without_breaks(
            s.take(n),
        ));
    } else {
        assert(s.take(0) =~= Seq::<char>::empty());
        let b = broken(s, mentions, limit, base, 0);
        assert(text_of_lines(b.lines) + line::text_of(b.spans) =~= Seq::<char>::empty());
    }
}

/// Breaking and styling a text changes nothing of it but the line breaks.
pub proof fn law_styling_keeps_the_text(
    s: Seq<char>,
    mentions: Seq<DisplayMention>,
    content_width: int,
    base: Style,
)
    ensures
        text_of_lines(styled(s, mentions, content_width, base)) == without_breaks(s),
{
    if s.len() > 0 {
        let limit = text::max_int(content_width, 1);
        lemma_broken_text(s, mentions, limit, base, s.len() as int);
        let b = broken(s, mentions, limit, base, s.len() as int);
        assert(s.take(s.len() as int) =~= s);
        let all = b.lines.push(line::of_spans(b.spans));
        assert(all.drop_last() =~= b.lines);
    }
}

proof fn lemma_broken_fits(
    s: Seq<char>,
    mentions: Seq<DisplayMention>,
    limit: int,
    base: Style,
    n: int,
)
    requires
        0 <= n <= s.len(),
        limit >= 0,
        forall|i: int| 0 <= i < s.len() ==> 0 <= #[trigger] width::char_columns(s[i]) <= limit,
    ensures
        ({
            let b = broken(s, mentions, limit, base, n);
            &&& b.columns == width::columns(line::text_of(b.spans)) <= limit
            &&& forall|i: int|
                0 <= i < b.lines.len() ==> width::columns(
                    line::text_of((#[trigger] b.lines[i]).spans),
                ) <= limit
        }),
    decreases n,
{
    reveal_with_fuel(width::columns, 2);
    if n > 0 {
        lemma_broken_fits(s, mentions, limit, base, n - 1);
        let b = broken(s, mentions, limit, base, n - 1);
        let c = s[n - 1];
        let none = Seq::<SpanView>::empty();
        if c != '\n' {
            let style = style_at(s, mentions, base, n - 1);
            line::lemma_with_char_text(b.spans, c, style);
            line::lemma_with_char_text(none, c, style);
            assert(line::text_of(b.spans).push(c).drop_last() =~= line::text_of(b.spans));
            assert(Seq::<char>::empty().push(c).drop_last() =~= Seq::<char>::empty());
            assert(0 <= width::char_columns(s[n - 1]) <= limit);
        }
    }
}

/// Every line fits in the width, where every character by itself does.
pub proof fn law_styled_lines_fit(
    s: Seq<char>,
    mentions: Seq<DisplayMention>,
    content_width: int,
    base: Style,
)
    requires
        content_width >= 1,
        forall|i: int|
            0 <= i < s.len() ==> 0 <= #[trigger] width::char_columns(s[i]) <= content_width,
    ensures
        forall|i: int|
            0 <= i < styled(s, mentions, content_width, base).len() ==> width::columns(
                line::text_of((#[trigger] styled(s, mentions, content_width, base)[i]).spans),
            ) <= content_width,
{
    if s.len() > 0 {
        lemma_broken_fits(s, mentions, content_width, base, s.len() as int);
    }
}

#[verifier::allow_in_spec]
pub fn user_bg() -> (r: Color)
    returns
        Color::Rgb(65, 69, 76),
{
    Color::Rgb(65, 69, 76)
}

/// A line on the background of the user's messages.
pub open spec fn on_user_bg(spans: Seq<SpanView>) -> LineView {
    LineView { spans, bg: Some(user_bg()) }
}

pub open spec fn user_edge(content_width: int) -> LineView {
    on_user_bg(seq![line::sp(text::repeated(' ', content_width), line::on(user_bg()))])
}

/// What stands in front of a line of the user: a prompt in front of the first.
pub open spec fn user_prefix(first: bool) -> Seq<char> {
    if first {
        "❯ "@
    } else {
        "  "@
    }
}

pub open spec fn user_line(l: LineView, first: bool, content_width: int) -> LineView {
    let prefix = user_prefix(first);
    let left = text::minus(
        content_width,
        width::unicode_str_width(prefix) + line::spans_width(l.spans),
    );
    on_user_bg(
        (seq![line::sp(prefix, line::on(user_bg()))] + l.spans).push(
            line::sp(text::repeated(' ', left), line::on(user_bg())),
        ),
    )
}

/// What the user wrote, on a background of its own with a free line above and below.
pub open spec fn user_block(
    s: Seq<char>,
    mentions: Seq<DisplayMention>,
    content_width: int,
) -> Seq<LineView> {
    let inner = text::minus(content_width, 2);
    let body = styled(s, mentions, inner, line::on(user_bg()));
    let edge = user_edge(content_width);
    if body.len() == 0 {
        seq![
            edge,
            on_user_bg(
                seq![line::sp("❯ "@ + text::repeated(' ', inner), line::on(user_bg()))],
            ),
            edge,
        ]
    } else {
        seq![edge] + Seq::new(
            body.len(),
            |i: int| user_line(body[i], i == 0, content_width),
        ) + seq![edge]
    }
}

fn with_user_bg(l: Line) -> (r: Line)
    ensures
        r@ == on_user_bg(l@.spans),
{
    Line { spans: l.spans, bg: Some(user_bg()) }
}

fn edge_line(content_width: usize) -> (r: Line)
    ensures
        r@ == user_edge(content_width as int),
{
    let spaces = text::repeat(' ', content_width);
    with_user_bg(line::line1(line::span_of(spaces, line::on(user_bg()))))
}

fn user_text_line(l: &Line, first: bool, content_width: usize) -> (r: Line)
    ensures
        r@ == user_line(l@, first, content_width as int),
{
    let prefix = if first {
        "❯ "
    } else {
        "  "
    };
    proof {
        line::lemma_spans_width_nonneg(l@.spans);
    }
    let used: usize = width::str_width(prefix).saturating_add(line::line_width(l));
    let left: usize = content_width.saturating_sub(used);
    let head = line::line1(line::span(prefix, line::on(user_bg())));
    let mut spans = head.spans;
    let ghost front = line::spans_view(spans@);
    let mut more = crate::tui::widgets::copy_spans(&l.spans);
    spans.append(&mut more);
    assert(line::spans_view(spans@) =~= front + l@.spans);
    let spaces = text::repeat(' ', left);
    line::push_span(&mut spans, line::span_of(spaces, line::on(user_bg())));
    with_user_bg(line::line_of(spans))
}

pub fn build_user_lines(
    s: &str,
    mentions: &Vec<DisplayMention>,
    content_width: usize,
) -> (r: Vec<Line>)
    ensures
        line::lines_view(r@) == user_block(s@, mentions@, content_width as int),
{
    let ghost cw = content_width as int;
    let mut lines: Vec<Line> = Vec::new();
    assert(line::lines_view(lines@) =~= Seq::<LineView>::empty());
    let inner: usize = content_width.saturating_sub(2);
    line::push_line(&mut lines, edge_line(content_width));
    let body = styled_wrapped_ranges(s, mentions, inner, line::on(user_bg()));
    let ghost b = line::lines_view(body@);
    let n: usize = body.len();
    if n == 0 {
        let spaces = text::repeat(' ', inner);
        let t = text::concat("❯ ", spaces.as_str());
        line::push_line(
            &mut lines,
            with_user_bg(line::line1(line::span_of(t, line::on(user_bg())))),
        );
        line::push_line(&mut lines, edge_line(content_width));
        assert(line::lines_view(lines@) =~= user_block(s@, mentions@, cw));
        return lines;
    }
    let ghost row = |i: int| user_line(b[i], i == 0, cw);
    let mut i: usize = 0;
    assert(line::lines_view(lines@) =~= seq![user_edge(cw)] + Seq::new(0, row));
    while i < n
        invariant
            i <= n == body@.len(),
            b == line::lines_view(body@),
            cw == content_width,
            row == (|i: int| user_line(b[i], i == 0, cw)),
            line::lines_view(lines@) == seq![user_edge(cw)] + Seq::new(i as nat, row),
        decreases n - i,
    {
        line::push_line(&mut lines, user_text_line(&body[i], i == 0, content_width));
        assert(seq![user_edge(cw)] + Seq::new((i + 1) as nat, row) =~= (seq![user_edge(cw)]
            + Seq::new(i as nat, row)).push(row(i as int)));
        i = i + 1;
    }
    line::push_line(&mut lines, edge_line(content_width));
    assert(Seq::new(n as nat, row) =~= Seq::new(b.len(), |i: int| user_line(b[i], i == 0, cw)));
    assert(line::lines_view(lines@) =~= user_block(s@, mentions@, cw));
    lines
}

pub fn build_display_message_lines(display: &DisplayMessage, content_width: usize) -> (r: Vec<Line>)
    ensures
        line::lines_view(r@) == user_block(
            display.text@,
            display.mentions@,
            content_width as int,
        ),
{
    build_user_lines(display.text.as_str(), &display.mentions, content_width)
}

#[derive(Debug, Clone, Copy, PartialEq, Eq, Structural)]
pub enum AlertKind {
    Notice,
    Warning,
    Error,
}

pub open spec fn alert_prefix(kind: AlertKind) -> Seq<char> {
    match kind {
        AlertKind::Notice => "ℹ "@,
        AlertKind::Warning => "⚠ "@,
        AlertKind::Error => "✖ "@,
    }
}

pub open spec fn alert_style(kind: AlertKind) -> Style {
    match kind {
        AlertKind::Notice => line::rgb(0x7a, 0xba, 0xff),
        AlertKind::Warning => line::rgb(0xd4, 0xb6, 0x6a),
        AlertKind::Error => line::rgb(255, 100, 100),
    }
}

/// A notice, a warning or an error behind its sign; further lines are indented by its width.
pub open spec fn alert_lines(s: Seq<char>, content_width: int, kind: AlertKind) -> Seq<LineView> {
    let prefix = alert_prefix(kind);
    let w = width::unicode_str_width(prefix) as int;
    let parts = wrap::wrapped(s, text::max_int(text::minus(content_width, w), 1));
    if parts.len() == 0 {
        seq![line::of_spans(seq![line::sp(prefix, alert_style(kind))])]
    } else {
        Seq::new(
            parts.len(),
            |i: int|
                line::of_spans(
                    seq![
                        line::sp(
                            (if i == 0 {
                                prefix
                            } else {
                                text::repeated(' ', w)
                            }) + parts[i],
                            alert_style(kind),
                        ),
                    ],
                ),
        )
    }
}

fn style_of_alert(kind: AlertKind) -> (r: Style)
    ensures
        r == alert_style(kind),
{
    match kind {
        AlertKind::Notice => line::rgb(0x7a, 0xba, 0xff),
        AlertKind::Warning => line::rgb(0xd4, 0xb6, 0x6a),
        AlertKind::Error => line::rgb(255, 100, 100),
    }
}

pub fn build_alert_lines(s: &str, content_width: usize, kind: AlertKind) -> (r: Vec<Line>)
    ensures
        line::lines_view(r@) == alert_lines(s@, content_width as int, kind),
{
    let prefix = match kind {
        AlertKind::Notice => "ℹ ",
        AlertKind::Warning => "⚠ ",
        AlertKind::Error => "✖ ",
    };
    let style = style_of_alert(kind);
    let w: usize = width::str_width(prefix);
    let wrap_width: usize = text::max_usize(content_width.saturating_sub(w), 1);
    let parts = word_wrap(s, wrap_width);
    let ghost p = text::views(parts@);
    let mut lines: Vec<Line> = Vec::new();
    assert(line::lines_view(lines@) =~= Seq::<LineView>::empty());
    if parts.len() == 0 {
        line::push_line(&mut lines, line::line1(line::span(prefix, style)));
        assert(line::lines_view(lines@) =~= alert_lines(s@, content_width as int, kind));
        return lines;
    }
    let ghost row = |i: int|
        line::of_spans(
            seq![
                line::sp(
                    (if i == 0 {
                        prefix@
                    } else {
                        text::repeated(' ', w as int)
                    }) + p[i],
                    style,
                ),
            ],
        );
    let mut i: usize = 0;
    assert(line::lines_view(lines@) =~= Seq::new(0, row));
    while i < parts.len()
        invariant
            i <= parts@.len(),
            p == text::views(parts@),
            row == (|i: int|
                line::of_spans(
                    seq![
                        line::sp(
                            (if i == 0 {
                                prefix@
                            } else {
                                text::repeated(' ', w as int)
                            }) + p[i],
                            style,
                        ),
                    ],
                )),
            line::lines_view(lines@) == Seq::new(i as nat, row),
        decreases parts@.len() - i,
    {
        let mut t = if i == 0 {
            text::copy(prefix)
        } else {
            text::repeat(' ', w)
        };
        t.push_str(parts[i].as_str());
        line::push_line(&mut lines, line::line1(line::span_of(t, style)));
        assert(Seq::new((i + 1) as nat, row) =~= Seq::new(i as nat, row).push(row(i as int)));
        i = i + 1;
    }
    assert(line::lines_view(lines@) =~= alert_lines(s@, content_width as int, kind));
    lines
}

} // verus!
