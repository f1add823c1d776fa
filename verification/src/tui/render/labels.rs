//! Names of agents and tools as they are shown.
use crate::json;
use crate::text;
use crate::tui::widgets;
use crate::types::message::ToolUseBlock;
use crate::types::message::ToolUseView;
use vstd::prelude::*;

verus! {

pub open spec fn small(c: char) -> bool {
    'a' <= c && c <= 'z'
}

pub open spec fn capital(c: char) -> bool {
    'A' <= c && c <= 'Z'
}

pub open spec fn letter_or_digit(c: char) -> bool {
    small(c) || capital(c) || ('0' <= c && c <= '9')
}

pub fn is_letter_or_digit(c: char) -> (r: bool)
    ensures
        r == letter_or_digit(c),
{
    ('a' <= c && c <= 'z') || ('A' <= c && c <= 'Z') || ('0' <= c && c <= '9')
}

/// `s` with a hyphen wherever a capital follows a small letter.
pub open spec fn camel_split(s: Seq<char>) -> Seq<char>
    decreases s.len(),
{
    if s.len() == 0 {
        Seq::empty()
    } else {
        let before = camel_split(s.drop_last());
        let apart = s.len() >= 2 && small(s[s.len() - 2]) && capital(s.last());
        (if apart {
            before.push('-')
        } else {
            before
        }).push(s.last())
    }
}

pub fn label_camel_boundaries(label: &str) -> (r: String)
    ensures
        r@ == camel_split(label@),
{
    let chars = text::chars_of(label);
    let ghost s = label@;
    let mut out = String::new();
    let mut i: usize = 0;
    assert(s.take(0) =~= Seq::<char>::empty());
    while i < chars.len()
        invariant
            i <= chars@.len(),
            chars@ == s,
            out@ == camel_split(s.take(i as int)),
        decreases chars@.len() - i,
    {
        let ghost t = s.take(i + 1);
        assert(t.drop_last() =~= s.take(i as int));
        assert(t.last() == s[i as int]);
        assert(i > 0 ==> t[t.len() - 2] == s[i - 1]);
        let c = chars[i];
        if i > 0 && 'a' <= chars[i - 1] && chars[i - 1] <= 'z' && 'A' <= c && c <= 'Z' {
            out.push('-');
        }
        out.push(c);
        i = i + 1;
    }
    assert(s.take(i as int) =~= s);
    out
}

/// The runs of letters and digits in `s`.
pub open spec fn runs(s: Seq<char>) -> Seq<Seq<char>>
    decreases s.len(),
{
    if s.len() == 0 {
        Seq::empty()
    } else {
        let before = runs(s.drop_last());
        if !letter_or_digit(s.last()) {
            before
        } else if s.len() >= 2 && letter_or_digit(s[s.len() - 2]) && before.len() > 0 {
            before.update(before.len() - 1, before.last().push(s.last()))
        } else {
            before.push(seq![s.last()])
        }
    }
}

fn split_runs(s: &str) -> (r: Vec<String>)
    ensures
        text::views(r@) == runs(s@),
{
    broadcast use text::lemma_views_push;

    let chars = text::chars_of(s);
    let mut out: Vec<String> = Vec::new();
    let mut cur = String::new();
    let mut i: usize = 0;
    assert(text::views(out@) =~= runs(s@.take(0)));
    while i < chars.len()
        invariant
            chars@ == s@,
            i <= s@.len(),
            cur@.len() == 0 <==> (i == 0 || !letter_or_digit(s@[i - 1])),
            runs(s@.take(i as int)) == (if cur@.len() == 0 {
                text::views(out@)
            } else {
                text::views(out@).push(cur@)
            }),
        decreases s@.len() - i,
    {
        broadcast use text::lemma_views_push;

        let c = chars[i];
        let ghost t = s@.take(i + 1);
        let ghost before = text::views(out@);
        let ghost cur0 = cur@;
        assert(t.drop_last() =~= s@.take(i as int));
        assert(t.last() == c);
        assert(i >= 1 ==> t[t.len() - 2] == s@[i - 1]);
        if is_letter_or_digit(c) {
            cur.push(c);
            proof {
                if cur0.len() == 0 {
                    assert(cur@ =~= seq![c]);
                } else {
                    assert(before.push(cur0).update(before.len() as int, cur0.push(c))
                        =~= before.push(cur0.push(c)));
                }
            }
        } else if text::char_count(cur.as_str()) > 0 {
            out.push(cur);
            cur = String::new();
        }
        i = i + 1;
    }
    assert(s@.take(i as int) =~= s@);
    if text::char_count(cur.as_str()) > 0 {
        out.push(cur);
    }
    out
}

/// The words of a label, in small letters.
pub open spec fn words(label: Seq<char>) -> Seq<Seq<char>> {
    let parts = runs(camel_split(label));
    Seq::new(parts.len(), |i: int| text::ascii_lowered(parts[i]))
}

pub fn label_words(label: &str) -> (r: Vec<String>)
    ensures
        text::views(r@) == words(label@),
{
    let marked = label_camel_boundaries(label);
    let parts = split_runs(marked.as_str());
    let ghost p = text::views(parts@);
    let mut out: Vec<String> = Vec::new();
    let mut i: usize = 0;
    while i < parts.len()
        invariant
            i <= parts@.len(),
            p == text::views(parts@),
            out@.len() == i,
            forall|k: int| 0 <= k < i ==> #[trigger] out@[k]@ == text::ascii_lowered(p[k]),
        decreases parts@.len() - i,
    {
        out.push(text::to_ascii_lowercase(parts[i].as_str()));
        i = i + 1;
    }
    assert(text::views(out@) =~= words(label@));
    out
}

pub open spec fn ascii_upper(c: char) -> char {
    if small(c) {
        ((c as u32 - 32) as u32) as char
    } else {
        c
    }
}

/// A word with a capital letter at its start.
pub open spec fn capitalized(word: Seq<char>) -> Seq<char> {
    if word.len() == 0 {
        word
    } else {
        seq![ascii_upper(word[0])] + word.skip(1)
    }
}

fn upper_char(c: char) -> (r: char)
    ensures
        r == ascii_upper(c),
{
    if 'a' <= c && c <= 'z' {
        ((c as u8) - 32) as char
    } else {
        c
    }
}

pub fn push_capitalized(out: &mut String, word: &str)
    ensures
        final(out)@ == old(out)@ + capitalized(word@),
{
    let chars = text::chars_of(word);
    let ghost before = out@;
    if chars.len() > 0 {
        out.push(upper_char(chars[0]));
        let rest = text::string_of(&chars, 1, chars.len());
        out.push_str(rest.as_str());
        assert(rest@ =~= word@.skip(1));
        assert(out@ =~= before + capitalized(word@));
    } else {
        assert(out@ =~= before + capitalized(word@));
    }
}

/// The words one after the other, each with a capital letter.
pub open spec fn run_together(parts: Seq<Seq<char>>) -> Seq<char>
    decreases parts.len(),
{
    if parts.len() == 0 {
        Seq::empty()
    } else {
        run_together(parts.drop_last()) + capitalized(parts.last())
    }
}

fn join_words(parts: &Vec<String>) -> (r: String)
    ensures
        r@ == run_together(text::views(parts@)),
{
    let ghost p = text::views(parts@);
    let mut out = String::new();
    let mut i: usize = 0;
    assert(p.take(0) =~= Seq::<Seq<char>>::empty());
    while i < parts.len()
        invariant
            i <= parts@.len(),
            p == text::views(parts@),
            out@ == run_together(p.take(i as int)),
        decreases parts@.len() - i,
    {
        assert(p.take(i + 1).drop_last() =~= p.take(i as int));
        push_capitalized(&mut out, parts[i].as_str());
        i = i + 1;
    }
    assert(p.take(i as int) =~= p);
    out
}

/// The name of an agent as it is shown.
pub open spec fn agent_label(label: Seq<char>) -> Seq<char> {
    if words(label).len() == 0 {
        "Subagent"@
    } else {
        run_together(words(label))
    }
}

pub fn format_subagent_label(label: &str) -> (r: String)
    ensures
        r@ == agent_label(label@),
{
    let parts = label_words(label);
    assert(text::views(parts@).len() == parts@.len());
    if parts.len() == 0 {
        return text::copy("Subagent");
    }
    join_words(&parts)
}

/// The name of a tool as it is shown.
pub open spec fn tool_label(name: Seq<char>) -> Seq<char> {
    if name == "ask_user"@ {
        "AskUser"@
    } else if words(name).len() == 0 {
        name
    } else {
        run_together(words(name))
    }
}

pub fn format_tool_label(name: &str) -> (r: String)
    ensures
        r@ == tool_label(name@),
{
    if text::same(name, "ask_user") {
        return text::copy("AskUser");
    }
    let parts = label_words(name);
    assert(text::views(parts@).len() == parts@.len());
    if parts.len() == 0 {
        return text::copy(name);
    }
    join_words(&parts)
}

/// A few words on what a tool use is about.
pub open spec fn tool_summary(
    tool: ToolUseView,
    project_dir: Option<Seq<char>>,
) -> Option<Seq<char>> {
    if tool.name == "bash"@ {
        widgets::input_text(tool.input, "command"@)
    } else if tool.name == "read"@ || tool.name == "edit"@ || tool.name == "write"@ {
        match widgets::input_text(tool.input, "file_path"@) {
            Some(path) => Some(widgets::shown_path(path, project_dir)),
            None => None,
        }
    } else if tool.name == "ask_user"@ {
        Some("waiting for user input"@)
    } else {
        None
    }
}

pub fn subagent_tool_summary(tool_use: &ToolUseBlock, project_dir: Option<&str>) -> (r: Option<
    String,
>)
    ensures
        json::opt_view(r) == tool_summary(tool_use@, widgets::opt_str_view(project_dir)),
{
    let name = tool_use.name.as_str();
    if text::same(name, "bash") {
        widgets::text_input(&tool_use.input, "command")
    } else if text::same(name, "read") || text::same(name, "edit") || text::same(name, "write") {
        match widgets::text_input(&tool_use.input, "file_path") {
            Some(path) => Some(widgets::display_path(path.as_str(), project_dir)),
            None => None,
        }
    } else if text::same(name, "ask_user") {
        Some(text::copy("waiting for user input"))
    } else {
        None
    }
}

} // verus!
