//! Server-sent events, line by line.
use crate::text;
use vstd::prelude::*;

verus! {

/// An event of a stream.
#[derive(Debug, PartialEq, Eq)]
pub struct SseEvent {
    pub event: String,
    pub data: String,
}

#[verifier::ext_equal]
pub struct SseView {
    pub event: Seq<char>,
    pub data: Seq<char>,
}

impl View for SseEvent {
    type V = SseView;

    open spec fn view(&self) -> SseView {
        SseView { event: self.event@, data: self.data@ }
    }
}

/// The event that is being received: its name, and its data once there is some.
#[derive(Debug)]
pub struct SseParser {
    pub event: String,
    pub data: Option<String>,
}

#[verifier::ext_equal]
pub struct ParserView {
    pub event: Seq<char>,
    pub data: Option<Seq<char>>,
}

impl View for SseParser {
    type V = ParserView;

    open spec fn view(&self) -> ParserView {
        ParserView { event: self.event@, data: crate::json::opt_view(self.data) }
    }
}

/// The value of a field: what stands behind its colon, without one space in front.
pub open spec fn field_value(rest: Seq<char>) -> Seq<char> {
    if rest.len() > 0 && rest[0] == ' ' {
        rest.skip(1)
    } else {
        rest
    }
}

/// What a line does: an empty line ends the event, a line of data adds to it, and a line with a
/// name names it. All other lines do nothing.
pub open spec fn line_taken(p: ParserView, line: Seq<char>) -> (ParserView, Option<SseView>) {
    if line.len() == 0 {
        (
            ParserView { event: Seq::empty(), data: None },
            match p.data {
                Some(data) => Some(SseView { event: p.event, data }),
                None => None,
            },
        )
    } else if text::has_prefix(line, "data:"@) {
        let value = field_value(line.skip(5));
        (
            ParserView {
                data: Some(
                    match p.data {
                        Some(data) => data.push('\n') + value,
                        None => value,
                    },
                ),
                ..p
            },
            None,
        )
    } else if text::has_prefix(line, "event:"@) {
        (ParserView { event: field_value(line.skip(6)), ..p }, None)
    } else {
        (p, None)
    }
}

fn value_of(rest: String) -> (r: String)
    ensures
        r@ == field_value(rest@),
{
    proof {
        reveal_strlit(" ");
        if rest@.len() > 0 {
            assert(rest@.take(1)[0] == rest@[0]);
            if rest@[0] == ' ' {
                assert(rest@.take(1) =~= " "@);
            }
        }
    }
    match text::strip_prefix(rest.as_str(), " ") {
        Some(value) => value,
        None => rest,
    }
}

impl SseParser {
    pub fn new() -> (r: Self)
        ensures
            r@ == (ParserView { event: Seq::empty(), data: None }),
    {
        SseParser { event: String::new(), data: None }
    }

    /// Takes one line in, without its line break, and gives the event that it ends.
    pub fn on_line(&mut self, line: &str) -> (r: Option<SseEvent>)
        ensures
            ({
                let (post, event) = line_taken(old(self)@, line@);
                final(self)@ == post && match r {
                    Some(e) => event == Some(e@),
                    None => event is None,
                }
            }),
    {
        proof {
            reveal_strlit("data:");
            reveal_strlit("event:");
        }
        if text::char_count(line) == 0 {
            let event = self.event.clone();
            let data = match &self.data {
                Some(data) => Some(data.clone()),
                None => None,
            };
            self.event = String::new();
            self.data = None;
            return match data {
                Some(data) => Some(SseEvent { event, data }),
                None => None,
            };
        }
        match text::strip_prefix(line, "data:") {
            Some(rest) => {
                let value = value_of(rest);
                let data = match &self.data {
                    Some(before) => {
                        let mut data = before.clone();
                        data.push('\n');
                        data.push_str(value.as_str());
                        data
                    },
                    None => value,
                };
                self.data = Some(data);
            },
            None => match text::strip_prefix(line, "event:") {
                Some(rest) => {
                    self.event = value_of(rest);
                },
                None => {},
            },
        }
        None
    }
}

/// An event that is written out is read back, however the parser stands after an event.
pub proof fn law_event_is_read_back(event: Seq<char>, data: Seq<char>)
    requires
        event.len() == 0 || event[0] != ' ',
        data.len() == 0 || data[0] != ' ',
    ensures
        ({
            let fresh = ParserView { event: Seq::empty(), data: None };
            let a = line_taken(fresh, "event:"@ + event).0;
            let b = line_taken(a, "data:"@ + data).0;
            line_taken(b, Seq::empty()) == (fresh, Some(SseView { event, data }))
        }),
{
    reveal_strlit("data:");
    reveal_strlit("event:");
    let e = "event:"@ + event;
    let d = "data:"@ + data;
    assert(e.skip(6) =~= event);
    assert(d.skip(5) =~= data);
    assert(e[0] == 'e' && d[0] == 'd');
    assert(!text::has_prefix(e, "data:"@)) by {
        assert("data:"@[0] == 'd');
    }
    assert(e.take(6) =~= "event:"@);
    assert(d.take(5) =~= "data:"@);
    assert(text::has_prefix(e, "event:"@));
    assert(text::has_prefix(d, "data:"@));
}

/// A line of bytes without one carriage return at its end.
pub open spec fn bare_line(line: Seq<u8>) -> Seq<u8> {
    if line.len() > 0 && line.last() == 13 {
        line.drop_last()
    } else {
        line
    }
}

/// The lines that the first `n` bytes of `chunk` end, where `rest` was left before them, and what
/// is left behind the last of them.
pub open spec fn lines_cut(rest: Seq<u8>, chunk: Seq<u8>, n: int) -> (Seq<Seq<u8>>, Seq<u8>)
    decreases n,
{
    if n <= 0 {
        (Seq::empty(), rest)
    } else {
        let (lines, left) = lines_cut(rest, chunk, n - 1);
        if chunk[n - 1] == 10 {
            (lines.push(bare_line(left)), Seq::empty())
        } else {
            (lines, left.push(chunk[n - 1]))
        }
    }
}

pub open spec fn byte_views(lines: Seq<Vec<u8>>) -> Seq<Seq<u8>> {
    Seq::new(lines.len(), |i: int| lines[i]@)
}

/// Takes in more bytes of a stream; gives the lines that they end. `rest` keeps what is behind
/// the last line feed.
pub fn cut_lines(rest: &mut Vec<u8>, chunk: &Vec<u8>) -> (r: Vec<Vec<u8>>)
    ensures
        (byte_views(r@), final(rest)@) == lines_cut(old(rest)@, chunk@, chunk@.len() as int),
{
    let mut lines: Vec<Vec<u8>> = Vec::new();
    let mut i: usize = 0;
    assert(byte_views(lines@) =~= Seq::empty());
    while i < chunk.len()
        invariant
            i <= chunk@.len(),
            (byte_views(lines@), rest@) == lines_cut(old(rest)@, chunk@, i as int),
        decreases chunk@.len() - i,
    {
        let ghost before = byte_views(lines@);
        let ghost left = rest@;
        if chunk[i] == 10 {
            let mut line: Vec<u8> = Vec::new();
            std::mem::swap(&mut line, rest);
            assert(line@ == left);
            if line.len() > 0 && line[line.len() - 1] == 13 {
                line.pop();
            }
            assert(line@ =~= bare_line(left));
            assert(rest@ =~= Seq::empty());
            lines.push(line);
            assert(byte_views(lines@) =~= before.push(bare_line(left)));
        } else {
            rest.push(chunk[i]);
        }
        i = i + 1;
    }
    lines
}

proof fn lemma_cut_first(rest: Seq<u8>, a: Seq<u8>, b: Seq<u8>, n: int)
    requires
        0 <= n <= a.len(),
    ensures
        lines_cut(rest, a + b, n) == lines_cut(rest, a, n),
    decreases n,
{
    if n > 0 {
        lemma_cut_first(rest, a, b, n - 1);
        assert((a + b)[n - 1] == a[n - 1]);
    }
}

proof fn lemma_cut_both(rest: Seq<u8>, a: Seq<u8>, b: Seq<u8>, n: int)
    requires
        0 <= n <= b.len(),
    ensures
        ({
            let (first, left) = lines_cut(rest, a, a.len() as int);
            let (more, end) = lines_cut(left, b, n);
            lines_cut(rest, a + b, a.len() + n) == (first + more, end)
        }),
    decreases n,
{
    let (first, left) = lines_cut(rest, a, a.len() as int);
    if n > 0 {
        lemma_cut_both(rest, a, b, n - 1);
        assert((a + b)[a.len() + n - 1] == b[n - 1]);
        let (more, end) = lines_cut(left, b, n - 1);
        assert((first + more).push(bare_line(end)) =~= first + more.push(bare_line(end)));
    } else {
        lemma_cut_first(rest, a, b, a.len() as int);
        assert(first + Seq::<Seq<u8>>::empty() =~= first);
    }
}

/// How a stream comes in pieces makes no difference to its lines.
pub proof fn law_pieces_give_the_same_lines(rest: Seq<u8>, a: Seq<u8>, b: Seq<u8>)
    ensures
        ({
            let (first, left) = lines_cut(rest, a, a.len() as int);
            let (more, end) = lines_cut(left, b, b.len() as int);
            lines_cut(rest, a + b, (a + b).len() as int) == (first + more, end)
        }),
{
    lemma_cut_both(rest, a, b, b.len() as int);
}

/// The lines read as text.
pub open spec fn texts_of(lines: Seq<Seq<u8>>) -> Seq<Seq<char>> {
    lines.map_values(|line: Seq<u8>| text::utf8_lossy(line))
}

/// Takes in more bytes of a stream; gives the lines of text that they end.
pub fn text_lines(rest: &mut Vec<u8>, chunk: &Vec<u8>) -> (r: Vec<String>)
    ensures
        text::views(r@) == texts_of(lines_cut(old(rest)@, chunk@, chunk@.len() as int).0),
        final(rest)@ == lines_cut(old(rest)@, chunk@, chunk@.len() as int).1,
{
    broadcast use text::lemma_views_push;

    let lines = cut_lines(rest, chunk);
    let ghost all = byte_views(lines@);
    let mut out: Vec<String> = Vec::new();
    let mut i: usize = 0;
    assert(text::views(out@) =~= texts_of(all.take(0)));
    while i < lines.len()
        invariant
            i <= lines@.len(),
            all == byte_views(lines@),
            text::views(out@) == texts_of(all.take(i as int)),
        decreases lines@.len() - i,
    {
        broadcast use text::lemma_views_push;

        assert(all[i as int] == lines@[i as int]@);
        out.push(text::lossy_text(&lines[i]));
        i = i + 1;
        assert(all.take(i as int) =~= all.take(i - 1).push(all[i - 1]));
        assert(text::views(out@) =~= texts_of(all.take(i as int)));
    }
    assert(all.take(all.len() as int) =~= all);
    out
}

} // verus!
