//! Styled text: what a drawn line is made of.
use crate::text;
use crate::width;
use vstd::prelude::*;

verus! {

/// A moving wave of brightness that runs through a text. Its colours at a moment are computed
/// where it is drawn.
#[derive(Debug, Clone, Copy, PartialEq, Eq, Structural)]
pub enum Wave {
    /// The wave of the status line.
    Status,
    /// The wave of the name of a running subagent.
    Subagent,
}

#[derive(Debug, Clone, Copy, PartialEq, Eq, Structural)]
pub enum Color {
    Reset,
    DarkGray,
    Rgb(u8, u8, u8),
    Moving(Wave),
}

#[derive(Debug, Clone, Copy, PartialEq, Eq, Structural)]
pub struct Style {
    pub fg: Option<Color>,
    pub bg: Option<Color>,
    pub bold: bool,
    pub italic: bool,
}

#[verifier::allow_in_spec]
pub fn plain() -> (r: Style)
    returns
        (Style { fg: None, bg: None, bold: false, italic: false }),
{
    Style { fg: None, bg: None, bold: false, italic: false }
}

#[verifier::allow_in_spec]
pub fn colored(c: Color) -> (r: Style)
    returns
        (Style { fg: Some(c), bg: None, bold: false, italic: false }),
{
    Style { fg: Some(c), bg: None, bold: false, italic: false }
}

/// The style that only sets the colour of the letters.
#[verifier::allow_in_spec]
pub fn rgb(r: u8, g: u8, b: u8) -> (s: Style)
    returns
        (Style { fg: Some(Color::Rgb(r, g, b)), bg: None, bold: false, italic: false }),
{
    Style { fg: Some(Color::Rgb(r, g, b)), bg: None, bold: false, italic: false }
}

/// The style that only sets the background.
#[verifier::allow_in_spec]
pub fn on(c: Color) -> (r: Style)
    returns
        (Style { fg: None, bg: Some(c), bold: false, italic: false }),
{
    Style { fg: None, bg: Some(c), bold: false, italic: false }
}

/// The style with both colours.
#[verifier::allow_in_spec]
pub fn colors(fg: Color, bg: Color) -> (r: Style)
    returns
        (Style { fg: Some(fg), bg: Some(bg), bold: false, italic: false }),
{
    Style { fg: Some(fg), bg: Some(bg), bold: false, italic: false }
}

#[verifier::allow_in_spec]
pub fn bold(s: Style) -> (r: Style)
    returns
        (Style { fg: s.fg, bg: s.bg, bold: true, italic: s.italic }),
{
    Style { fg: s.fg, bg: s.bg, bold: true, italic: s.italic }
}

#[verifier::allow_in_spec]
pub fn italic(s: Style) -> (r: Style)
    returns
        (Style { fg: s.fg, bg: s.bg, bold: s.bold, italic: true }),
{
    Style { fg: s.fg, bg: s.bg, bold: s.bold, italic: true }
}

/// A piece of text in one style.
#[derive(Debug, PartialEq, Eq)]
pub struct Span {
    pub text: String,
    pub style: Style,
}

/// A line: its pieces, and the background of what they leave free.
#[derive(Debug, PartialEq, Eq)]
pub struct Line {
    pub spans: Vec<Span>,
    pub bg: Option<Color>,
}

#[verifier::ext_equal]
pub struct SpanView {
    pub text: Seq<char>,
    pub style: Style,
}

#[verifier::ext_equal]
pub struct LineView {
    pub spans: Seq<SpanView>,
    pub bg: Option<Color>,
}

impl View for Span {
    type V = SpanView;

    open spec fn view(&self) -> SpanView {
        SpanView { text: self.text@, style: self.style }
    }
}

pub open spec fn spans_view(v: Seq<Span>) -> Seq<SpanView> {
    Seq::new(v.len(), |i: int| v[i]@)
}

impl View for Line {
    type V = LineView;

    open spec fn view(&self) -> LineView {
        LineView { spans: spans_view(self.spans@), bg: self.bg }
    }
}

pub open spec fn lines_view(v: Seq<Line>) -> Seq<LineView> {
    Seq::new(v.len(), |i: int| v[i]@)
}

/// A piece of text in a style.
pub open spec fn sp(text: Seq<char>, style: Style) -> SpanView {
    SpanView { text, style }
}

/// A piece of text in no style of its own.
pub open spec fn raw(text: Seq<char>) -> SpanView {
    SpanView { text, style: plain() }
}

/// A line of the given pieces.
pub open spec fn of_spans(spans: Seq<SpanView>) -> LineView {
    LineView { spans, bg: None }
}

/// A line without anything on it.
pub open spec fn blank() -> LineView {
    of_spans(Seq::empty())
}

/// A line of one piece of text in no style.
pub open spec fn text_line(s: Seq<char>) -> LineView {
    of_spans(seq![raw(s)])
}

pub fn span(text: &str, style: Style) -> (r: Span)
    ensures
        r@ == sp(text@, style),
{
    Span { text: text::copy(text), style }
}

/// A span made of an owned text.
pub fn span_of(text: String, style: Style) -> (r: Span)
    ensures
        r@ == sp(text@, style),
{
    Span { text, style }
}

pub fn raw_span(text: &str) -> (r: Span)
    ensures
        r@ == raw(text@),
{
    Span { text: text::copy(text), style: plain() }
}

pub fn line_of(spans: Vec<Span>) -> (r: Line)
    ensures
        r@ == of_spans(spans_view(spans@)),
{
    Line { spans, bg: None }
}

pub fn empty_line() -> (r: Line)
    ensures
        r@ == blank(),
{
    let r = Line { spans: Vec::new(), bg: None };
    assert(r@ =~= blank());
    r
}

pub fn plain_line(s: &str) -> (r: Line)
    ensures
        r@ == text_line(s@),
{
    line1(raw_span(s))
}

pub fn line1(a: Span) -> (r: Line)
    ensures
        r@ == of_spans(seq![a@]),
{
    let mut v: Vec<Span> = Vec::new();
    let ghost s = seq![a@];
    v.push(a);
    assert(spans_view(v@) =~= s);
    line_of(v)
}

pub fn line2(a: Span, b: Span) -> (r: Line)
    ensures
        r@ == of_spans(seq![a@, b@]),
{
    let mut v: Vec<Span> = Vec::new();
    let ghost s = seq![a@, b@];
    v.push(a);
    v.push(b);
    assert(spans_view(v@) =~= s);
    line_of(v)
}

pub fn line3(a: Span, b: Span, c: Span) -> (r: Line)
    ensures
        r@ == of_spans(seq![a@, b@, c@]),
{
    let mut v: Vec<Span> = Vec::new();
    let ghost s = seq![a@, b@, c@];
    v.push(a);
    v.push(b);
    v.push(c);
    assert(spans_view(v@) =~= s);
    line_of(v)
}

pub fn line4(a: Span, b: Span, c: Span, d: Span) -> (r: Line)
    ensures
        r@ == of_spans(seq![a@, b@, c@, d@]),
{
    let mut v: Vec<Span> = Vec::new();
    let ghost s = seq![a@, b@, c@, d@];
    v.push(a);
    v.push(b);
    v.push(c);
    v.push(d);
    assert(spans_view(v@) =~= s);
    line_of(v)
}

pub fn push_span(spans: &mut Vec<Span>, s: Span)
    ensures
        spans_view(final(spans)@) == spans_view(old(spans)@).push(s@),
{
    let ghost before = spans_view(spans@);
    let ghost x = s@;
    spans.push(s);
    assert(spans_view(spans@) =~= before.push(x));
}

pub fn push_line(lines: &mut Vec<Line>, l: Line)
    ensures
        lines_view(final(lines)@) == lines_view(old(lines)@).push(l@),
{
    let ghost before = lines_view(lines@);
    let ghost x = l@;
    lines.push(l);
    assert(lines_view(lines@) =~= before.push(x));
}

pub fn append_lines(lines: &mut Vec<Line>, mut more: Vec<Line>)
    ensures
        lines_view(final(lines)@) == lines_view(old(lines)@) + lines_view(more@),
{
    let ghost before = lines_view(lines@);
    let ghost x = lines_view(more@);
    lines.append(&mut more);
    assert(lines_view(lines@) =~= before + x);
}

/// The columns of the pieces, each measured by itself.
pub open spec fn spans_width(spans: Seq<SpanView>) -> int
    decreases spans.len(),
{
    if spans.len() == 0 {
        0
    } else {
        spans_width(spans.drop_last()) + width::unicode_str_width(spans.last().text)
    }
}

pub proof fn lemma_spans_width_nonneg(spans: Seq<SpanView>)
    ensures
        0 <= spans_width(spans),
    decreases spans.len(),
{
    if spans.len() > 0 {
        lemma_spans_width_nonneg(spans.drop_last());
    }
}

/// The columns of the pieces, or the largest `usize` where there are more.
pub open spec fn capped_width(spans: Seq<SpanView>) -> int {
    text::min_int(spans_width(spans), usize::MAX as int)
}

pub fn width_of_spans(spans: &Vec<Span>) -> (r: usize)
    ensures
        r == capped_width(spans_view(spans@)),
{
    let ghost all = spans_view(spans@);
    let mut sum: usize = 0;
    let mut i: usize = 0;
    assert(all.take(0) =~= Seq::<SpanView>::empty());
    while i < spans.len()
        invariant
            i <= spans@.len(),
            all == spans_view(spans@),
            sum == capped_width(all.take(i as int)),
        decreases spans@.len() - i,
    {
        assert(all.take(i + 1).drop_last() =~= all.take(i as int));
        proof {
            lemma_spans_width_nonneg(all.take(i as int));
        }
        sum = sum.saturating_add(width::str_width(spans[i].text.as_str()));
        i = i + 1;
    }
    assert(all.take(i as int) =~= all);
    sum
}

pub fn line_width(line: &Line) -> (r: usize)
    ensures
        r == capped_width(line@.spans),
{
    width_of_spans(&line.spans)
}

/// The text of the pieces without their styles.
pub open spec fn text_of(spans: Seq<SpanView>) -> Seq<char>
    decreases spans.len(),
{
    if spans.len() == 0 {
        Seq::empty()
    } else {
        text_of(spans.drop_last()) + spans.last().text
    }
}

pub fn line_to_plain_text(line: &Line) -> (r: String)
    ensures
        r@ == text_of(line@.spans),
{
    let ghost all = line@.spans;
    let mut out = String::new();
    let mut i: usize = 0;
    assert(all.take(0) =~= Seq::<SpanView>::empty());
    while i < line.spans.len()
        invariant
            i <= line.spans@.len(),
            all == spans_view(line.spans@),
            out@ == text_of(all.take(i as int)),
        decreases line.spans@.len() - i,
    {
        assert(all.take(i + 1).drop_last() =~= all.take(i as int));
        out.push_str(line.spans[i].text.as_str());
        i = i + 1;
    }
    assert(all.take(i as int) =~= all);
    out
}

/// The pieces with one character more: it joins the last piece where that has its style.
pub open spec fn with_char(spans: Seq<SpanView>, c: char, style: Style) -> Seq<SpanView> {
    if spans.len() > 0 && spans.last().style == style {
        spans.update(spans.len() - 1, sp(spans.last().text.push(c), style))
    } else {
        spans.push(sp(seq![c], style))
    }
}

pub fn push_char_span(spans: &mut Vec<Span>, c: char, style: Style)
    ensures
        spans_view(final(spans)@) == with_char(spans_view(old(spans)@), c, style),
{
    let ghost before = spans_view(spans@);
    let n: usize = spans.len();
    if n > 0 && spans[n - 1].style == style {
        if let Some(last) = spans.pop() {
            let mut t = last.text;
            t.push(c);
            spans.push(Span { text: t, style });
        }
        assert(spans_view(spans@) =~= with_char(before, c, style));
    } else {
        let mut t = String::new();
        t.push(c);
        assert(t@ =~= seq![c]);
        spans.push(Span { text: t, style });
        assert(spans_view(spans@) =~= with_char(before, c, style));
    }
}

/// Joining a character to the pieces adds it to their text.
pub proof fn lemma_with_char_text(spans: Seq<SpanView>, c: char, style: Style)
    ensures
        text_of(with_char(spans, c, style)) == text_of(spans).push(c),
{
    let after = with_char(spans, c, style);
    if spans.len() > 0 && spans.last().style == style {
        assert(after.drop_last() =~= spans.drop_last());
        assert(text_of(after) =~= text_of(spans).push(c));
    } else {
        assert(after.drop_last() =~= spans);
        assert(text_of(after) =~= text_of(spans).push(c));
    }
}

} // verus!
