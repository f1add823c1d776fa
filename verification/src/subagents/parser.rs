//! Agent files: a header of `key: value` lines between two `---` lines, then the instructions.
use crate::subagents::AgentModelSpec;
use crate::subagents::AgentSource;
use crate::subagents::AgentSpec;
use crate::subagents::AgentToolPolicy;
use crate::subagents::AgentView;
use crate::subagents::SourceView;
use crate::text;
use vstd::prelude::*;

verus! {

/// `s` without the line break it starts with, if any.
pub open spec fn after_break(s: Seq<char>) -> Seq<char> {
    if s.len() > 0 && s[0] == '\n' {
        s.skip(1)
    } else {
        s
    }
}

fn skip_break(s: String) -> (r: String)
    ensures
        r@ == after_break(s@),
{
    proof {
        reveal_strlit("\n");
        assert("\n"@ =~= seq!['\n']);
        if s@.len() > 0 {
            assert(s@.take(1) =~= seq![s@[0]]);
            assert(seq![s@[0]][0] == s@[0]);
        }
    }
    match text::strip_prefix(s.as_str(), "\n") {
        Some(t) => t,
        None => s,
    }
}

/// The header and the body of an agent file.
pub open spec fn parts_of(content: Seq<char>) -> Result<(Seq<char>, Seq<char>), Seq<char>> {
    if !text::has_prefix(content, "---"@) {
        Err("missing frontmatter; expected file to start with '---'"@)
    } else {
        match text::cut_around(after_break(content.skip(3)), "\n---"@) {
            None => Err("missing closing frontmatter delimiter '---'"@),
            Some((header, body)) => Ok((header, after_break(body))),
        }
    }
}

pub fn split_frontmatter(content: &str) -> (r: Result<(String, String), String>)
    ensures
        match r {
            Ok(p) => parts_of(content@) == Ok::<(Seq<char>, Seq<char>), Seq<char>>((p.0@, p.1@)),
            Err(e) => parts_of(content@) == Err::<(Seq<char>, Seq<char>), Seq<char>>(e@),
        },
{
    proof {
        reveal_strlit("---");
    }
    match text::strip_prefix(content, "---") {
        None => Err(text::copy("missing frontmatter; expected file to start with '---'")),
        Some(rest) => {
            let rest = skip_break(rest);
            match text::split_around(rest.as_str(), "\n---") {
                None => Err(text::copy("missing closing frontmatter delimiter '---'")),
                Some((header, body)) => Ok((header, skip_break(body))),
            }
        },
    }
}

/// The fields of a header, in the order of its lines.
pub type FieldsView = Seq<(Seq<char>, Seq<char>)>;

/// The fields that the first `n` lines of a header give. Blank lines and lines that start with
/// `#` give none.
pub open spec fn fields_of(lines: Seq<Seq<char>>, n: int) -> Result<FieldsView, Seq<char>>
    decreases n,
{
    if n <= 0 {
        Ok(Seq::<(Seq<char>, Seq<char>)>::empty())
    } else {
        match fields_of(lines, n - 1) {
            Err(e) => Err(e),
            Ok(fields) => {
                let line = text::trimmed(lines[n - 1]);
                if line.len() == 0 || line[0] == '#' {
                    Ok(fields)
                } else {
                    match text::cut_at(line, ':') {
                        None => Err(
                            "invalid frontmatter line "@ + text::decimal(n) + ": "@ + line,
                        ),
                        Some((key, value)) => if text::trimmed(key).len() == 0 {
                            Err("empty frontmatter key on line "@ + text::decimal(n))
                        } else {
                            Ok(fields.push((text::trimmed(key), text::trimmed(value))))
                        },
                    }
                }
            },
        }
    }
}

pub open spec fn header_fields(header: Seq<char>) -> Result<FieldsView, Seq<char>> {
    let lines = text::lines_of(header);
    fields_of(lines, lines.len() as int)
}

/// The value of the last field called `key`.
pub open spec fn field(fields: FieldsView, key: Seq<char>) -> Option<Seq<char>>
    decreases fields.len(),
{
    if fields.len() == 0 {
        None
    } else if fields.last().0 == key {
        Some(fields.last().1)
    } else {
        field(fields.drop_last(), key)
    }
}

pub open spec fn fields_view(fields: Seq<(String, String)>) -> FieldsView {
    Seq::new(fields.len(), |i: int| (fields[i].0@, fields[i].1@))
}

proof fn lemma_first_error(lines: Seq<Seq<char>>, n: int, m: int)
    requires
        0 <= n <= m,
        fields_of(lines, n) is Err,
    ensures
        fields_of(lines, m) == fields_of(lines, n),
    decreases m - n,
{
    if n < m {
        lemma_first_error(lines, n, m - 1);
    }
}

pub fn parse_frontmatter(header: &str) -> (r: Result<Vec<(String, String)>, String>)
    ensures
        match r {
            Ok(f) => header_fields(header@) == Ok::<FieldsView, Seq<char>>(fields_view(f@)),
            Err(e) => header_fields(header@) == Err::<FieldsView, Seq<char>>(e@),
        },
{
    let lines = text::lines(header);
    let ghost all = text::lines_of(header@);
    let mut fields: Vec<(String, String)> = Vec::new();
    let mut i: usize = 0;
    assert(fields_view(fields@) =~= Seq::empty());
    while i < lines.len()
        invariant
            i <= lines@.len(),
            all == text::lines_of(header@),
            text::views(lines@) == all,
            fields_of(all, i as int) == Ok::<FieldsView, Seq<char>>(fields_view(fields@)),
        decreases lines@.len() - i,
    {
        assert(text::views(lines@)[i as int] == lines@[i as int]@);
        let ghost before = fields_view(fields@);
        let line = text::trim(lines[i].as_str());
        let chars = text::chars_of(line.as_str());
        if !(chars.len() == 0 || chars[0] == '#') {
            match text::split_once(line.as_str(), ':') {
                None => {
                    let mut e = text::concat(
                        "invalid frontmatter line ",
                        text::decimal_of(i as u64 + 1).as_str(),
                    );
                    e.push_str(": ");
                    e.push_str(line.as_str());
                    proof {
                        lemma_first_error(all, i + 1, all.len() as int);
                    }
                    return Err(e);
                },
                Some((key, value)) => {
                    let key = text::trim(key.as_str());
                    if text::char_count(key.as_str()) == 0 {
                        let e = text::concat(
                            "empty frontmatter key on line ",
                            text::decimal_of(i as u64 + 1).as_str(),
                        );
                        proof {
                            lemma_first_error(all, i + 1, all.len() as int);
                        }
                        return Err(e);
                    }
                    let value = text::trim(value.as_str());
                    fields.push((key, value));
                    assert(fields_view(fields@) =~= before.push((key@, value@)));
                },
            }
        }
        i = i + 1;
    }
    Ok(fields)
}

/// The value of the last of the fields called `key`.
fn find_field(fields: &Vec<(String, String)>, key: &str) -> (r: Option<String>)
    ensures
        match r {
            Some(v) => field(fields_view(fields@), key@) == Some(v@),
            None => field(fields_view(fields@), key@) is None,
        },
{
    let ghost all = fields_view(fields@);
    let mut n: usize = fields.len();
    assert(all.take(n as int) =~= all);
    while n > 0
        invariant
            n <= fields@.len(),
            all == fields_view(fields@),
            field(all, key@) == field(all.take(n as int), key@),
        decreases n,
    {
        assert(all.take(n as int).last() == all[n - 1]);
        assert(all.take(n as int).drop_last() =~= all.take(n - 1));
        if text::same(fields[n - 1].0.as_str(), key) {
            return Some(fields[n - 1].1.clone());
        }
        n = n - 1;
    }
    None
}

/// What the quoted scalar `value` stands for. In double quotes `\n`, `\"` and `\\` are replaced,
/// in that order.
pub open spec fn unquoted(value: Seq<char>) -> Result<Seq<char>, Seq<char>> {
    if value.len() == 0 {
        Err("empty quoted scalar"@)
    } else if value.len() < 2 || value.last() != value[0] {
        Err("unterminated quoted scalar: "@ + value)
    } else {
        let inner = value.subrange(1, value.len() - 1);
        if value[0] == '"' {
            Ok(
                text::replaced(
                    text::replaced(text::replaced(inner, "\\n"@, "\n"@), "\\\""@, "\""@),
                    "\\\\"@,
                    "\\"@,
                ),
            )
        } else {
            Ok(inner)
        }
    }
}

/// Reads a quoted scalar. One character that is no ASCII is none: its quotes would overlap.
pub fn parse_quoted(value: &str) -> (r: Result<String, String>)
    requires
        value@.len() == 1 ==> (value@[0] as u32) < 128,
    ensures
        match r {
            Ok(s) => unquoted(value@) == Ok::<Seq<char>, Seq<char>>(s@),
            Err(e) => unquoted(value@) == Err::<Seq<char>, Seq<char>>(e@),
        },
{
    let chars = text::chars_of(value);
    let n: usize = chars.len();
    if n == 0 {
        return Err(text::copy("empty quoted scalar"));
    }
    if n < 2 || chars[n - 1] != chars[0] {
        return Err(text::concat("unterminated quoted scalar: ", value));
    }
    let inner = text::string_of(&chars, 1, n - 1);
    if chars[0] == '"' {
        proof {
            reveal_strlit("\\n");
            reveal_strlit("\\\"");
            reveal_strlit("\\\\");
        }
        let a = text::replace(inner.as_str(), "\\n", "\n");
        let b = text::replace(a.as_str(), "\\\"", "\"");
        Ok(text::replace(b.as_str(), "\\\\", "\\"))
    } else {
        Ok(inner)
    }
}

/// What a scalar stands for: the trimmed text, without its quotes where it starts with one.
pub open spec fn scalar(value: Seq<char>) -> Result<Seq<char>, Seq<char>> {
    let t = text::trimmed(value);
    if t.len() > 0 && (t[0] == '"' || t[0] == '\'') {
        unquoted(t)
    } else {
        Ok(t)
    }
}

pub fn parse_scalar(value: &str) -> (r: Result<String, String>)
    ensures
        match r {
            Ok(s) => scalar(value@) == Ok::<Seq<char>, Seq<char>>(s@),
            Err(e) => scalar(value@) == Err::<Seq<char>, Seq<char>>(e@),
        },
{
    let t = text::trim(value);
    let chars = text::chars_of(t.as_str());
    if chars.len() > 0 && (chars[0] == '"' || chars[0] == '\'') {
        parse_quoted(t.as_str())
    } else {
        Ok(t)
    }
}

/// The value of a field that must be there and not be blank.
pub open spec fn required(fields: FieldsView, key: Seq<char>) -> Result<Seq<char>, Seq<char>> {
    match field(fields, key) {
        None => Err("missing required frontmatter field '"@ + key + "'"@),
        Some(raw) => match scalar(raw) {
            Err(e) => Err(e),
            Ok(value) => if text::trimmed(value).len() == 0 {
                Err("frontmatter field '"@ + key + "' must not be empty"@)
            } else {
                Ok(value)
            },
        },
    }
}

pub fn required_field(fields: &Vec<(String, String)>, key: &str) -> (r: Result<String, String>)
    ensures
        match r {
            Ok(s) => required(fields_view(fields@), key@) == Ok::<Seq<char>, Seq<char>>(s@),
            Err(e) => required(fields_view(fields@), key@) == Err::<Seq<char>, Seq<char>>(e@),
        },
{
    match find_field(fields, key) {
        None => {
            let mut e = text::concat("missing required frontmatter field '", key);
            e.push_str("'");
            Err(e)
        },
        Some(raw) => match parse_scalar(raw.as_str()) {
            Err(e) => Err(e),
            Ok(value) => {
                let t = text::trim(value.as_str());
                if text::char_count(t.as_str()) == 0 {
                    let mut e = text::concat("frontmatter field '", key);
                    e.push_str("' must not be empty");
                    Err(e)
                } else {
                    Ok(value)
                }
            },
        },
    }
}

/// What the first `n` parts stand for, or the first error among them.
pub open spec fn scalars(parts: Seq<Seq<char>>, n: int) -> Result<Seq<Seq<char>>, Seq<char>>
    decreases n,
{
    if n <= 0 {
        Ok(Seq::<Seq<char>>::empty())
    } else {
        match scalars(parts, n - 1) {
            Err(e) => Err(e),
            Ok(done) => match scalar(text::trimmed(parts[n - 1])) {
                Err(e) => Err(e),
                Ok(s) => Ok(done.push(s)),
            },
        }
    }
}

/// The trimmed parts that are not empty.
pub open spec fn filled(parts: Seq<Seq<char>>) -> Seq<Seq<char>>
    decreases parts.len(),
{
    if parts.len() == 0 {
        Seq::empty()
    } else {
        let done = filled(parts.drop_last());
        if text::trimmed(parts.last()).len() == 0 {
            done
        } else {
            done.push(text::trimmed(parts.last()))
        }
    }
}

/// The tool names that a field lists: an array of scalars in brackets, or one scalar with
/// commas.
pub open spec fn tools_in(value: Seq<char>) -> Result<Seq<Seq<char>>, Seq<char>> {
    let t = text::trimmed(value);
    if t.len() > 0 && t[0] == '[' {
        if t.last() != ']' {
            Err("tools array must end with ']'"@)
        } else {
            let inner = t.subrange(1, t.len() - 1);
            if text::trimmed(inner).len() == 0 {
                Ok(Seq::<Seq<char>>::empty())
            } else {
                let parts = text::split_on(inner, ',');
                scalars(parts, parts.len() as int)
            }
        }
    } else {
        match scalar(t) {
            Err(e) => Err(e),
            Ok(s) => Ok(filled(text::split_on(s, ','))),
        }
    }
}

proof fn lemma_first_bad_scalar(parts: Seq<Seq<char>>, n: int, m: int)
    requires
        0 <= n <= m,
        scalars(parts, n) is Err,
    ensures
        scalars(parts, m) == scalars(parts, n),
    decreases m - n,
{
    if n < m {
        lemma_first_bad_scalar(parts, n, m - 1);
    }
}

fn parse_parts(parts: &Vec<String>) -> (r: Result<Vec<String>, String>)
    ensures
        match r {
            Ok(v) => scalars(text::views(parts@), parts@.len() as int) == Ok::<
                Seq<Seq<char>>,
                Seq<char>,
            >(text::views(v@)),
            Err(e) => scalars(text::views(parts@), parts@.len() as int) == Err::<
                Seq<Seq<char>>,
                Seq<char>,
            >(e@),
        },
{
    broadcast use text::lemma_views_push;

    let ghost all = text::views(parts@);
    let mut out: Vec<String> = Vec::new();
    let mut i: usize = 0;
    assert(text::views(out@) =~= Seq::empty());
    while i < parts.len()
        invariant
            i <= parts@.len(),
            all == text::views(parts@),
            scalars(all, i as int) == Ok::<Seq<Seq<char>>, Seq<char>>(text::views(out@)),
        decreases parts@.len() - i,
    {
        broadcast use text::lemma_views_push;

        assert(all[i as int] == parts@[i as int]@);
        let t = text::trim(parts[i].as_str());
        match parse_scalar(t.as_str()) {
            Ok(s) => {
                out.push(s);
            },
            Err(e) => {
                proof {
                    lemma_first_bad_scalar(all, i + 1, all.len() as int);
                }
                return Err(e);
            },
        }
        i = i + 1;
    }
    Ok(out)
}

fn keep_filled(parts: &Vec<String>) -> (r: Vec<String>)
    ensures
        text::views(r@) == filled(text::views(parts@)),
{
    broadcast use text::lemma_views_push;

    let ghost all = text::views(parts@);
    let mut out: Vec<String> = Vec::new();
    let mut i: usize = 0;
    assert(text::views(out@) =~= Seq::empty());
    while i < parts.len()
        invariant
            i <= parts@.len(),
            all == text::views(parts@),
            text::views(out@) == filled(all.take(i as int)),
        decreases parts@.len() - i,
    {
        broadcast use text::lemma_views_push;

        assert(all.take(i + 1).drop_last() =~= all.take(i as int));
        assert(all.take(i + 1).last() == parts@[i as int]@);
        let t = text::trim(parts[i].as_str());
        if text::char_count(t.as_str()) > 0 {
            out.push(t);
        }
        i = i + 1;
    }
    assert(all.take(all.len() as int) =~= all);
    out
}

pub fn parse_tools_value(value: &str) -> (r: Result<Vec<String>, String>)
    ensures
        match r {
            Ok(v) => tools_in(value@) == Ok::<Seq<Seq<char>>, Seq<char>>(text::views(v@)),
            Err(e) => tools_in(value@) == Err::<Seq<Seq<char>>, Seq<char>>(e@),
        },
{
    let t = text::trim(value);
    let chars = text::chars_of(t.as_str());
    let n: usize = chars.len();
    if n > 0 && chars[0] == '[' {
        if chars[n - 1] != ']' {
            return Err(text::copy("tools array must end with ']'"));
        }
        let inner = text::string_of(&chars, 1, n - 1);
        let bare = text::trim(inner.as_str());
        if text::char_count(bare.as_str()) == 0 {
            let out: Vec<String> = Vec::new();
            assert(text::views(out@) =~= Seq::empty());
            return Ok(out);
        }
        let parts = text::split_char(inner.as_str(), ',');
        assert(text::views(parts@).len() == parts@.len());
        parse_parts(&parts)
    } else {
        match parse_scalar(t.as_str()) {
            Err(e) => Err(e),
            Ok(s) => {
                let parts = text::split_char(s.as_str(), ',');
                Ok(keep_filled(&parts))
            },
        }
    }
}

/// The name a tool goes by: trimmed and in lower case, with `AskUser` written `ask_user`.
pub open spec fn tool_name(tool: Seq<char>) -> Result<Seq<char>, Seq<char>> {
    let t = text::trimmed(tool);
    if t.len() == 0 {
        Err("tool name must not be empty"@)
    } else if t == "AskUser"@ {
        Ok("ask_user"@)
    } else {
        Ok(text::ascii_lowered(t))
    }
}

pub fn normalize_tool_name(tool: &str) -> (r: Result<String, String>)
    ensures
        match r {
            Ok(s) => tool_name(tool@) == Ok::<Seq<char>, Seq<char>>(s@),
            Err(e) => tool_name(tool@) == Err::<Seq<char>, Seq<char>>(e@),
        },
{
    let t = text::trim(tool);
    if text::char_count(t.as_str()) == 0 {
        Err(text::copy("tool name must not be empty"))
    } else if text::same(t.as_str(), "AskUser") {
        Ok(text::copy("ask_user"))
    } else {
        Ok(text::to_ascii_lowercase(t.as_str()))
    }
}

/// The names of the first `n` tools, each once, in the order in which they first come.
pub open spec fn tool_names(tools: Seq<Seq<char>>, n: int) -> Result<Seq<Seq<char>>, Seq<char>>
    decreases n,
{
    if n <= 0 {
        Ok(Seq::<Seq<char>>::empty())
    } else {
        match tool_names(tools, n - 1) {
            Err(e) => Err(e),
            Ok(done) => match tool_name(tools[n - 1]) {
                Err(e) => Err(e),
                Ok(name) => Ok(
                    if done.contains(name) {
                        done
                    } else {
                        done.push(name)
                    },
                ),
            },
        }
    }
}

pub open spec fn normalized(tools: Seq<Seq<char>>) -> Result<Seq<Seq<char>>, Seq<char>> {
    tool_names(tools, tools.len() as int)
}

proof fn lemma_first_bad_name(tools: Seq<Seq<char>>, n: int, m: int)
    requires
        0 <= n <= m,
        tool_names(tools, n) is Err,
    ensures
        tool_names(tools, m) == tool_names(tools, n),
    decreases m - n,
{
    if n < m {
        lemma_first_bad_name(tools, n, m - 1);
    }
}

pub fn normalize_tools(tools: &Vec<String>) -> (r: Result<Vec<String>, String>)
    ensures
        match r {
            Ok(v) => normalized(text::views(tools@)) == Ok::<Seq<Seq<char>>, Seq<char>>(
                text::views(v@),
            ),
            Err(e) => normalized(text::views(tools@)) == Err::<Seq<Seq<char>>, Seq<char>>(e@),
        },
{
    broadcast use text::lemma_views_push;

    let ghost all = text::views(tools@);
    let mut out: Vec<String> = Vec::new();
    let mut i: usize = 0;
    assert(text::views(out@) =~= Seq::empty());
    while i < tools.len()
        invariant
            i <= tools@.len(),
            all == text::views(tools@),
            tool_names(all, i as int) == Ok::<Seq<Seq<char>>, Seq<char>>(text::views(out@)),
        decreases tools@.len() - i,
    {
        broadcast use text::lemma_views_push;

        assert(all[i as int] == tools@[i as int]@);
        match normalize_tool_name(tools[i].as_str()) {
            Ok(name) => {
                if !text::list_contains(&out, name.as_str()) {
                    out.push(name);
                }
            },
            Err(e) => {
                proof {
                    lemma_first_bad_name(all, i + 1, all.len() as int);
                }
                return Err(e);
            },
        }
        i = i + 1;
    }
    Ok(out)
}

/// `names` without the name of the tool that runs agents.
pub open spec fn without_subagent(names: Seq<Seq<char>>) -> Seq<Seq<char>>
    decreases names.len(),
{
    if names.len() == 0 {
        Seq::empty()
    } else {
        let done = without_subagent(names.drop_last());
        if names.last() == "subagent"@ {
            done
        } else {
            done.push(names.last())
        }
    }
}

/// The tools that an agent may be allowed: an agent never runs agents.
pub open spec fn allowed(tools: Seq<Seq<char>>) -> Result<Seq<Seq<char>>, Seq<char>> {
    match normalized(tools) {
        Err(e) => Err(e),
        Ok(names) => Ok(without_subagent(names)),
    }
}

pub fn normalize_allow_tools(tools: &Vec<String>) -> (r: Result<Vec<String>, String>)
    ensures
        match r {
            Ok(v) => allowed(text::views(tools@)) == Ok::<Seq<Seq<char>>, Seq<char>>(
                text::views(v@),
            ),
            Err(e) => allowed(text::views(tools@)) == Err::<Seq<Seq<char>>, Seq<char>>(e@),
        },
{
    broadcast use text::lemma_views_push;

    let names = match normalize_tools(tools) {
        Ok(names) => names,
        Err(e) => {
            return Err(e);
        },
    };
    let ghost all = text::views(names@);
    let mut out: Vec<String> = Vec::new();
    let mut i: usize = 0;
    assert(text::views(out@) =~= Seq::empty());
    while i < names.len()
        invariant
            i <= names@.len(),
            all == text::views(names@),
            text::views(out@) == without_subagent(all.take(i as int)),
        decreases names@.len() - i,
    {
        broadcast use text::lemma_views_push;

        assert(all.take(i + 1).drop_last() =~= all.take(i as int));
        assert(all.take(i + 1).last() == names@[i as int]@);
        if !text::same(names[i].as_str(), "subagent") {
            out.push(names[i].clone());
        }
        i = i + 1;
    }
    assert(all.take(all.len() as int) =~= all);
    Ok(out)
}

/// The provider and the model that `provider/model-name` gives.
pub open spec fn model_of(value: Seq<char>) -> Result<(Seq<char>, Seq<char>), Seq<char>> {
    match text::cut_at(value, '/') {
        None => Err("model must use 'provider/model-name' format"@),
        Some((provider, model)) => if text::trimmed(provider).len() == 0 || text::trimmed(
            model,
        ).len() == 0 {
            Err("model must use 'provider/model-name' format"@)
        } else {
            Ok((text::trimmed(provider), text::trimmed(model)))
        },
    }
}

pub fn parse_model_spec(value: &str) -> (r: Result<AgentModelSpec, String>)
    ensures
        match r {
            Ok(m) => model_of(value@) == Ok::<(Seq<char>, Seq<char>), Seq<char>>(
                (m.provider@, m.model@),
            ),
            Err(e) => model_of(value@) == Err::<(Seq<char>, Seq<char>), Seq<char>>(e@),
        },
{
    match text::split_once(value, '/') {
        None => Err(text::copy("model must use 'provider/model-name' format")),
        Some((provider, model)) => {
            let provider = text::trim(provider.as_str());
            let model = text::trim(model.as_str());
            if text::char_count(provider.as_str()) == 0 || text::char_count(model.as_str()) == 0 {
                Err(text::copy("model must use 'provider/model-name' format"))
            } else {
                Ok(AgentModelSpec { provider, model })
            }
        },
    }
}

/// The tools that the field `key` allows, where it is there.
pub open spec fn allow_field(fields: FieldsView) -> Result<Option<Seq<Seq<char>>>, Seq<char>> {
    match field(fields, "tools"@) {
        None => Ok(None),
        Some(value) => match tools_in(value) {
            Err(e) => Err(e),
            Ok(tools) => match allowed(tools) {
                Err(e) => Err(e),
                Ok(names) => Ok(Some(names)),
            },
        },
    }
}

fn parse_allow(fields: &Vec<(String, String)>) -> (r: Result<Option<Vec<String>>, String>)
    ensures
        match r {
            Ok(v) => allow_field(fields_view(fields@)) == Ok::<
                Option<Seq<Seq<char>>>,
                Seq<char>,
            >(crate::subagents::list_of(v)),
            Err(e) => allow_field(fields_view(fields@)) == Err::<
                Option<Seq<Seq<char>>>,
                Seq<char>,
            >(e@),
        },
{
    match find_field(fields, "tools") {
        None => Ok(None),
        Some(value) => match parse_tools_value(value.as_str()) {
            Err(e) => Err(e),
            Ok(tools) => match normalize_allow_tools(&tools) {
                Err(e) => Err(e),
                Ok(names) => Ok(Some(names)),
            },
        },
    }
}

/// The tools that a header withholds, where it says so.
pub open spec fn deny_field(fields: FieldsView) -> Result<Option<Seq<Seq<char>>>, Seq<char>> {
    match field(fields, "disallow_tools"@) {
        None => Ok(None),
        Some(value) => match tools_in(value) {
            Err(e) => Err(e),
            Ok(tools) => match normalized(tools) {
                Err(e) => Err(e),
                Ok(names) => Ok(Some(names)),
            },
        },
    }
}

fn parse_deny(fields: &Vec<(String, String)>) -> (r: Result<Option<Vec<String>>, String>)
    ensures
        match r {
            Ok(v) => deny_field(fields_view(fields@)) == Ok::<
                Option<Seq<Seq<char>>>,
                Seq<char>,
            >(crate::subagents::list_of(v)),
            Err(e) => deny_field(fields_view(fields@)) == Err::<
                Option<Seq<Seq<char>>>,
                Seq<char>,
            >(e@),
        },
{
    match find_field(fields, "disallow_tools") {
        None => Ok(None),
        Some(value) => match parse_tools_value(value.as_str()) {
            Err(e) => Err(e),
            Ok(tools) => match normalize_tools(&tools) {
                Err(e) => Err(e),
                Ok(names) => Ok(Some(names)),
            },
        },
    }
}

/// The model that a header asks for, where it does.
pub open spec fn model_field(
    fields: FieldsView,
) -> Result<Option<(Seq<char>, Seq<char>)>, Seq<char>> {
    match field(fields, "model"@) {
        None => Ok(None),
        Some(value) => match scalar(value) {
            Err(e) => Err(e),
            Ok(s) => match model_of(s) {
                Err(e) => Err(e),
                Ok(m) => Ok(Some(m)),
            },
        },
    }
}

fn parse_model(fields: &Vec<(String, String)>) -> (r: Result<Option<AgentModelSpec>, String>)
    ensures
        match r {
            Ok(v) => model_field(fields_view(fields@)) == Ok::<
                Option<(Seq<char>, Seq<char>)>,
                Seq<char>,
            >(crate::subagents::model_view(v)),
            Err(e) => model_field(fields_view(fields@)) == Err::<
                Option<(Seq<char>, Seq<char>)>,
                Seq<char>,
            >(e@),
        },
{
    match find_field(fields, "model") {
        None => Ok(None),
        Some(value) => match parse_scalar(value.as_str()) {
            Err(e) => Err(e),
            Ok(s) => match parse_model_spec(s.as_str()) {
                Err(e) => Err(e),
                Ok(m) => Ok(Some(m)),
            },
        },
    }
}

/// The agent that the fields and the body of a file describe.
pub open spec fn agent_from(
    fields: FieldsView,
    body: Seq<char>,
    path: Seq<char>,
) -> Result<AgentView, Seq<char>> {
    match (
        required(fields, "name"@),
        required(fields, "description"@),
        allow_field(fields),
        deny_field(fields),
        model_field(fields),
    ) {
        (Err(e), _, _, _, _) => Err(e),
        (Ok(_), Err(e), _, _, _) => Err(e),
        (Ok(_), Ok(_), Err(e), _, _) => Err(e),
        (Ok(_), Ok(_), Ok(_), Err(e), _) => Err(e),
        (Ok(_), Ok(_), Ok(_), Ok(_), Err(e)) => Err(e),
        (Ok(name), Ok(description), Ok(allow), Ok(deny), Ok(model)) => if text::trimmed(
            body,
        ).len() == 0 {
            Err("agent instructions body must not be empty"@)
        } else {
            Ok(
                AgentView {
                    name,
                    description,
                    instructions: text::trimmed(body),
                    allow,
                    deny,
                    model,
                    source: SourceView::File(path),
                },
            )
        },
    }
}

/// The agent that a file with the given content describes.
pub open spec fn agent_in(content: Seq<char>, path: Seq<char>) -> Result<AgentView, Seq<char>> {
    match parts_of(content) {
        Err(e) => Err(e),
        Ok((header, body)) => match header_fields(header) {
            Err(e) => Err(e),
            Ok(fields) => agent_from(fields, body, path),
        },
    }
}

/// Reads the content of the agent file at `path`.
pub fn parse_agent_file(content: &str, path: &str) -> (r: Result<AgentSpec, String>)
    ensures
        match r {
            Ok(a) => agent_in(content@, path@) == Ok::<AgentView, Seq<char>>(a@),
            Err(e) => agent_in(content@, path@) == Err::<AgentView, Seq<char>>(e@),
        },
{
    let (header, body) = match split_frontmatter(content) {
        Ok(p) => p,
        Err(e) => {
            return Err(e);
        },
    };
    let fields = match parse_frontmatter(header.as_str()) {
        Ok(f) => f,
        Err(e) => {
            return Err(e);
        },
    };
    let name = match required_field(&fields, "name") {
        Ok(s) => s,
        Err(e) => {
            return Err(e);
        },
    };
    let description = match required_field(&fields, "description") {
        Ok(s) => s,
        Err(e) => {
            return Err(e);
        },
    };
    let allow = match parse_allow(&fields) {
        Ok(v) => v,
        Err(e) => {
            return Err(e);
        },
    };
    let deny = match parse_deny(&fields) {
        Ok(v) => v,
        Err(e) => {
            return Err(e);
        },
    };
    let model = match parse_model(&fields) {
        Ok(v) => v,
        Err(e) => {
            return Err(e);
        },
    };
    let instructions = text::trim(body.as_str());
    if text::char_count(instructions.as_str()) == 0 {
        return Err(text::copy("agent instructions body must not be empty"));
    }
    Ok(
        AgentSpec {
            name,
            description,
            instructions,
            tool_policy: AgentToolPolicy { allow, deny },
            model,
            source: AgentSource::File(text::copy(path)),
        },
    )
}

/// Normalised names come each once.
pub proof fn law_normalized_distinct(tools: Seq<Seq<char>>)
    ensures
        normalized(tools) matches Ok(names) ==> names.no_duplicates(),
{
    lemma_names_distinct(tools, tools.len() as int);
}

proof fn lemma_names_distinct(tools: Seq<Seq<char>>, n: int)
    ensures
        tool_names(tools, n) matches Ok(names) ==> names.no_duplicates(),
    decreases n,
{
    if n > 0 {
        lemma_names_distinct(tools, n - 1);
    }
}

/// An allowed list never names the tool that runs agents, and holds the other names as they
/// were.
pub proof fn law_allowed_without_subagent(tools: Seq<Seq<char>>)
    ensures
        allowed(tools) matches Ok(names) ==> !names.contains("subagent"@),
        allowed(tools) matches Ok(names) ==> forall|s: Seq<char>|
            s != "subagent"@ ==> (#[trigger] names.contains(s) == normalized(
                tools,
            )->Ok_0.contains(s)),
{
    if normalized(tools) is Ok {
        lemma_without_subagent(normalized(tools)->Ok_0);
    }
}

proof fn lemma_without_subagent(names: Seq<Seq<char>>)
    ensures
        !without_subagent(names).contains("subagent"@),
        forall|s: Seq<char>|
            s != "subagent"@ ==> (#[trigger] without_subagent(names).contains(s)
                == names.contains(s)),
    decreases names.len(),
{
    if names.len() > 0 {
        lemma_without_subagent(names.drop_last());
        let done = without_subagent(names.drop_last());
        assert(names =~= names.drop_last().push(names.last()));
        assert forall|s: Seq<char>| #[trigger]
            names.contains(s) == (names.drop_last().contains(s) || s == names.last()) by {
            if names.contains(s) {
                let k = choose|k: int| 0 <= k < names.len() && names[k] == s;
                if k < names.len() - 1 {
                    assert(names.drop_last()[k] == s);
                }
            }
            if names.drop_last().contains(s) {
                let k = choose|k: int| 0 <= k < names.drop_last().len() && names.drop_last()[k] == s;
                assert(names[k] == s);
            }
            if s == names.last() {
                assert(names[names.len() - 1] == s);
            }
        }
        assert forall|s: Seq<char>| #[trigger]
            done.push(names.last()).contains(s) == (done.contains(s) || s == names.last()) by {
            let p = done.push(names.last());
            if p.contains(s) {
                let k = choose|k: int| 0 <= k < p.len() && p[k] == s;
                if k < done.len() {
                    assert(done[k] == s);
                }
            }
            if done.contains(s) {
                let k = choose|k: int| 0 <= k < done.len() && done[k] == s;
                assert(p[k] == s);
            }
            assert(p[done.len() as int] == names.last());
        }
    }
}

/// A normalised name is its own normal form.
pub proof fn law_tool_name_twice(tool: Seq<char>)
    ensures
        tool_name(tool) matches Ok(name) ==> tool_name(name) == Ok::<Seq<char>, Seq<char>>(name),
{
    reveal_strlit("AskUser");
    reveal_strlit("ask_user");
    let t = text::trimmed(tool);
    if t.len() > 0 {
        let name = tool_name(tool)->Ok_0;
        text::lemma_trimmed_ends(tool);
        assert forall|c: char| text::white(#[trigger] text::ascii_lower(c)) == text::white(c) by {}
        assert(text::trimmed(name) == name);
        assert(text::ascii_lowered(name) =~= name);
        assert("AskUser"@[0] == 'A');
        assert(name[0] != 'A');
    }
}

} // verus!
