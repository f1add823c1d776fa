//! An agent that is written to a file is read back as it was.
use crate::json;
use crate::subagents::files;
use crate::subagents::parser::agent_from;
use crate::subagents::parser::agent_in;
use crate::subagents::parser::allowed;
use crate::subagents::parser::field;
use crate::subagents::parser::fields_of;
use crate::subagents::parser::filled;
use crate::subagents::parser::header_fields;
use crate::subagents::parser::model_of;
use crate::subagents::parser::normalized;
use crate::subagents::parser::parts_of;
use crate::subagents::parser::tool_name;
use crate::subagents::parser::tool_names;
use crate::subagents::parser::tools_in;
use crate::subagents::parser::without_subagent;
use crate::subagents::parser::FieldsView;
use crate::subagents::AgentView;
use crate::subagents::SourceView;
use crate::text;
use crate::text::joined;
use crate::text::trimmed;
use crate::text_laws;
use crate::types::events::AgentDraft;
use vstd::prelude::*;

verus! {

/// A file with the given header between its `---` lines, and the body behind it.
pub open spec fn file_with(header: Seq<char>, body: Seq<char>) -> Seq<char> {
    "---\n"@ + header + "\n---\n"@ + body
}

proof fn lemma_first_end(header: Seq<char>, rest: Seq<char>)
    requires
        !text::occurs(header, "\n---"@),
    ensures
        text::cut_around(header + "\n---"@ + rest, "\n---"@) == Some((header, rest)),
{
    reveal_strlit("\n---");
    let mark = "\n---"@;
    let s = header + mark + rest;
    let n = header.len() as int;
    text::lemma_find_from(s, mark, 0);
    assert(s.subrange(n, n + 4) =~= mark);
    assert forall|j: int| 0 <= j < n implies !text::occurs_at(s, mark, j) by {
        if text::occurs_at(s, mark, j) {
            if j + 4 <= n {
                assert(header.subrange(j, j + 4) =~= s.subrange(j, j + 4));
                assert(text::occurs_at(header, mark, j));
            } else {
                assert(s.subrange(j, j + 4)[n - j] == s[n]);
                assert(mark[n - j] == '-');
                assert(s[n] == '\n');
            }
        }
    }
    assert(text::occurs_at(s, mark, n));
    assert(text::find_from(s, mark, 0) == Some(n));
    assert(s.take(n) =~= header);
    assert(s.skip(n + 4) =~= rest);
}

/// A file is taken apart into its header and its body.
pub proof fn law_file_is_taken_apart(header: Seq<char>, body: Seq<char>)
    requires
        !text::occurs(header, "\n---"@),
    ensures
        parts_of(file_with(header, body)) == Ok::<(Seq<char>, Seq<char>), Seq<char>>(
            (header, body),
        ),
{
    reveal_strlit("---");
    reveal_strlit("---\n");
    reveal_strlit("\n---");
    reveal_strlit("\n---\n");
    let content = file_with(header, body);
    let rest = seq!['\n'] + body;
    assert(content.take(3) =~= "---"@);
    assert(content.skip(3)[0] == '\n');
    assert(content.skip(3).skip(1) =~= header + "\n---"@ + rest);
    lemma_first_end(header, rest);
    assert(rest.skip(1) =~= body);
}

/// Writing an agent and reading it back gives its instructions: with one header and any body that
/// has no white space at its ends, whatever lines it has, the agent that is read has just that
/// body as its instructions, and all else of it is as with any other body.
pub proof fn law_instructions_are_read_back(
    header: Seq<char>,
    other: Seq<char>,
    body: Seq<char>,
    path: Seq<char>,
)
    requires
        !text::occurs(header, "\n---"@),
        agent_in(file_with(header, other), path) is Ok,
        body.len() > 0,
        trimmed(body) == body,
    ensures
        agent_in(file_with(header, body), path) matches Ok(a) && a.instructions == body && a == (
        AgentView {
            instructions: body,
            ..agent_in(file_with(header, other), path)->Ok_0
        }),
{
    law_file_is_taken_apart(header, body);
    law_file_is_taken_apart(header, other);
}

/// The lines of a header for the given fields.
pub open spec fn field_lines(fields: FieldsView) -> Seq<Seq<char>> {
    fields.map_values(|f: (Seq<char>, Seq<char>)| f.0 + ": "@ + f.1)
}

/// Whether a field can be written on a line: a key without a colon, and a value without white
/// space at its ends or a line break in it.
pub open spec fn writable_field(f: (Seq<char>, Seq<char>)) -> bool {
    &&& f.0.len() > 0
    &&& trimmed(f.0) == f.0
    &&& f.0[0] != '#'
    &&& f.0[0] != '-'
    &&& !f.0.contains(':')
    &&& !f.0.contains('\n')
    &&& f.1.len() > 0
    &&& trimmed(f.1) == f.1
    &&& !f.1.contains('\n')
}

proof fn lemma_ends(s: Seq<char>)
    requires
        s.len() > 0,
        trimmed(s) == s,
    ensures
        !text::white(s[0]),
        !text::white(s.last()),
{
    text::lemma_trimmed_ends(s);
}

proof fn lemma_field_line(f: (Seq<char>, Seq<char>))
    requires
        writable_field(f),
    ensures
        ({
            let line = f.0 + ": "@ + f.1;
            &&& line.len() > 0
            &&& line[0] == f.0[0]
            &&& trimmed(line) == line
            &&& text_laws::one_line(line)
            &&& text::cut_at(line, ':') matches Some((k, v)) && trimmed(k) == f.0 && trimmed(v)
                == f.1
        }),
{
    reveal_strlit(": ");
    let line = f.0 + ": "@ + f.1;
    lemma_ends(f.0);
    lemma_ends(f.1);
    assert(line[0] == f.0[0]);
    assert(line.last() == f.1.last());
    text_laws::lemma_trimmed_is_same(line);
    assert forall|i: int| 0 <= i < line.len() implies line[i] != '\n' by {
        if i < f.0.len() {
            assert(f.0.contains(f.0[i]));
        } else if i >= f.0.len() + 2 {
            assert(line[i] == f.1[i - f.0.len() - 2]);
            assert(f.1.contains(f.1[i - f.0.len() - 2]));
        }
    }
    let v = seq![' '] + f.1;
    assert(line =~= f.0 + seq![':'] + v);
    text_laws::law_cut_at_the_first(f.0, ':', v);
    text_laws::law_trimmed(seq![' '], f.1, Seq::empty());
    assert(seq![' '] + f.1 + Seq::<char>::empty() =~= v);
}

proof fn lemma_fields_read(fields: FieldsView, n: int)
    requires
        0 <= n <= fields.len(),
        forall|i: int| 0 <= i < fields.len() ==> writable_field(#[trigger] fields[i]),
    ensures
        fields_of(field_lines(fields), n) == Ok::<FieldsView, Seq<char>>(fields.take(n)),
    decreases n,
{
    if n > 0 {
        lemma_fields_read(fields, n - 1);
        let f = fields[n - 1];
        assert(writable_field(f));
        lemma_field_line(f);
        assert(field_lines(fields)[n - 1] == f.0 + ": "@ + f.1);
        assert(fields.take(n) =~= fields.take(n - 1).push((f.0, f.1)));
    } else {
        assert(fields.take(0) =~= Seq::empty());
    }
}

/// The fields of a header are read back as they were written.
pub proof fn law_fields_are_read_back(fields: FieldsView)
    requires
        fields.len() > 0,
        forall|i: int| 0 <= i < fields.len() ==> writable_field(#[trigger] fields[i]),
    ensures
        header_fields(joined(field_lines(fields), "\n"@)) == Ok::<FieldsView, Seq<char>>(fields),
{
    let lines = field_lines(fields);
    assert forall|i: int| 0 <= i < lines.len() implies text_laws::one_line(#[trigger] lines[i]) by {
        assert(writable_field(fields[i]));
        lemma_field_line(fields[i]);
    }
    assert(writable_field(fields[fields.len() - 1]));
    lemma_field_line(fields[fields.len() - 1]);
    text_laws::law_lines_are_read_back(lines);
    lemma_fields_read(fields, fields.len() as int);
    assert(fields.take(fields.len() as int) =~= fields);
}

proof fn lemma_no_end_mark(lines: Seq<Seq<char>>)
    requires
        forall|i: int|
            0 <= i < lines.len() ==> (#[trigger] lines[i]).len() > 0 && lines[i][0] != '-'
                && !lines[i].contains('\n'),
    ensures
        !text::occurs(joined(lines, "\n"@), "\n---"@),
    decreases lines.len(),
{
    reveal_strlit("\n");
    reveal_strlit("\n---");
    let s = joined(lines, "\n"@);
    let mark = "\n---"@;
    assert forall|at: int| !text::occurs_at(s, mark, at) by {
        if text::occurs_at(s, mark, at) {
            assert(s.subrange(at, at + 4)[0] == s[at]);
            assert(s.subrange(at, at + 4)[1] == s[at + 1]);
            if lines.len() == 1 {
                assert(lines[0].contains(s[at]));
            } else {
                let less = lines.drop_last();
                let a = joined(less, "\n"@);
                let w = lines.last();
                assert forall|i: int| 0 <= i < less.len() implies (#[trigger] less[i]).len() > 0
                    && less[i][0] != '-' && !less[i].contains('\n') by {
                    assert(lines[i] == less[i]);
                }
                lemma_no_end_mark(less);
                assert(lines[lines.len() - 1] == w);
                if at + 4 <= a.len() {
                    assert(a.subrange(at, at + 4) =~= s.subrange(at, at + 4));
                    assert(text::occurs_at(a, mark, at));
                    assert(text::occurs(a, mark));
                } else if at < a.len() {
                    assert(s.subrange(at, at + 4)[a.len() - at] == s[a.len() as int]);
                } else if at == a.len() {
                    assert(s[at + 1] == w[0]);
                } else {
                    assert(s[at] == w[at - a.len() - 1]);
                    assert(w.contains(s[at]));
                }
            }
        }
    }
}

proof fn lemma_field_push(fields: FieldsView, f: (Seq<char>, Seq<char>), key: Seq<char>)
    ensures
        field(fields.push(f), key) == (if f.0 == key {
            Some(f.1)
        } else {
            field(fields, key)
        }),
{
    assert(fields.push(f).drop_last() =~= fields);
}

/// `fields` with one more, where there is a value for it.
pub open spec fn with_field(fields: FieldsView, key: Seq<char>, value: Option<Seq<char>>) -> FieldsView {
    match value {
        Some(v) => fields.push((key, v)),
        None => fields,
    }
}

/// The fields that an agent's file has.
pub open spec fn agent_fields(
    name: Seq<char>,
    description: Seq<char>,
    tools: Option<Seq<char>>,
    denied: Option<Seq<char>>,
    model: Option<Seq<char>>,
) -> FieldsView {
    with_field(
        with_field(
            with_field(
                seq![("name"@, name), ("description"@, description)],
                "tools"@,
                tools,
            ),
            "disallow_tools"@,
            denied,
        ),
        "model"@,
        model,
    )
}

proof fn lemma_keys()
    ensures
        ({
            let keys = seq!["name"@, "description"@, "tools"@, "disallow_tools"@, "model"@];
            &&& forall|i: int, j: int|
                0 <= i < j < 5 ==> #[trigger] keys[i] != #[trigger] keys[j]
            &&& forall|i: int, v: Seq<char>|
                0 <= i < 5 && v.len() > 0 && trimmed(v) == v && !v.contains('\n')
                    ==> #[trigger] writable_field((keys[i], v))
        }),
{
    reveal_strlit("name");
    reveal_strlit("description");
    reveal_strlit("tools");
    reveal_strlit("disallow_tools");
    reveal_strlit("model");
    let keys = seq!["name"@, "description"@, "tools"@, "disallow_tools"@, "model"@];
    assert forall|i: int, j: int| 0 <= i < j < 5 implies #[trigger] keys[i] != #[trigger] keys[j] by {
        if keys[i] == keys[j] {
            assert(keys[i].len() == keys[j].len() && keys[i][0] == keys[j][0]);
        }
    }
    assert forall|i: int, v: Seq<char>|
        0 <= i < 5 && v.len() > 0 && trimmed(v) == v && !v.contains(
            '\n',
        ) implies #[trigger] writable_field((keys[i], v)) by {
        let k = keys[i];
        assert forall|n: int| 0 <= n < k.len() implies k[n] != ':' && k[n] != '\n' by {}
        text_laws::lemma_trimmed_is_same(k);
    }
}

proof fn lemma_agent_fields(
    name: Seq<char>,
    description: Seq<char>,
    tools: Option<Seq<char>>,
    denied: Option<Seq<char>>,
    model: Option<Seq<char>>,
)
    ensures
        ({
            let f = agent_fields(name, description, tools, denied, model);
            &&& field(f, "name"@) == Some(name)
            &&& field(f, "description"@) == Some(description)
            &&& field(f, "tools"@) == tools
            &&& field(f, "disallow_tools"@) == denied
            &&& field(f, "model"@) == model
        }),
{
    lemma_keys();
    let keys = seq!["name"@, "description"@, "tools"@, "disallow_tools"@, "model"@];
    assert(keys[0] == "name"@ && keys[1] == "description"@ && keys[2] == "tools"@ && keys[3]
        == "disallow_tools"@ && keys[4] == "model"@);
    let none: FieldsView = Seq::empty();
    let one = none.push(("name"@, name));
    let base = one.push(("description"@, description));
    assert(seq![("name"@, name), ("description"@, description)] =~= base);
    let a = with_field(base, "tools"@, tools);
    let b = with_field(a, "disallow_tools"@, denied);
    let c = with_field(b, "model"@, model);
    assert forall|i: int| 0 <= i < 5 implies field(c, #[trigger] keys[i]) == (if i == 0 {
        Some(name)
    } else if i == 1 {
        Some(description)
    } else if i == 2 {
        tools
    } else if i == 3 {
        denied
    } else {
        model
    }) by {
        let key = keys[i];
        lemma_field_push(none, ("name"@, name), key);
        lemma_field_push(one, ("description"@, description), key);
        if tools is Some {
            lemma_field_push(base, ("tools"@, tools->0), key);
        }
        if denied is Some {
            lemma_field_push(a, ("disallow_tools"@, denied->0), key);
        }
        if model is Some {
            lemma_field_push(b, ("model"@, model->0), key);
        }
    }
}

/// Whether a text is read back as it is: it is not empty, has no white space at its ends, and no
/// quote at its start.
pub open spec fn plain(s: Seq<char>) -> bool {
    s.len() > 0 && trimmed(s) == s && s[0] != '"' && s[0] != '\'' && !s.contains('\n')
}

/// Whether names of tools are read back as they are: each is its own normal form, comes once, and
/// holds no comma; none could be taken for the start of a list or of a quoted text.
pub open spec fn plain_tools(tools: Seq<Seq<char>>) -> bool {
    &&& tools.no_duplicates()
    &&& forall|i: int|
        0 <= i < tools.len() ==> plain(#[trigger] tools[i]) && tools[i][0] != '['
            && !tools[i].contains(',') && tool_name(tools[i]) == Ok::<Seq<char>, Seq<char>>(
            tools[i],
        )
}

proof fn lemma_list(tools: Seq<Seq<char>>)
    requires
        tools.len() > 0,
        plain_tools(tools),
    ensures
        ({
            let s = joined(tools, ", "@);
            &&& plain(s)
            &&& s[0] == tools[0][0]
            &&& s.last() == tools.last().last()
            &&& filled(text::split_on(s, ',')) == tools
        }),
    decreases tools.len(),
{
    reveal_strlit(", ");
    let s = joined(tools, ", "@);
    assert(plain(tools[0]));
    assert(plain(tools[tools.len() - 1]));
    lemma_ends(tools[0]);
    lemma_ends(tools.last());
    if tools.len() == 1 {
        text_laws::law_split_none(s, ',');
        let parts = text::split_on(s, ',');
        assert(parts.drop_last() =~= Seq::empty());
        reveal_with_fuel(filled, 2);
        assert(filled(parts) =~= tools);
    } else {
        let less = tools.drop_last();
        let w = tools.last();
        assert forall|i: int| 0 <= i < less.len() implies plain(#[trigger] less[i]) && less[i][0]
            != '[' && !less[i].contains(',') && tool_name(less[i]) == Ok::<Seq<char>, Seq<char>>(
            less[i],
        ) by {
            assert(tools[i] == less[i]);
        }
        lemma_list(less);
        let a = joined(less, ", "@);
        let b = seq![' '] + w;
        assert(s =~= a + seq![','] + b);
        assert forall|i: int| 0 <= i < b.len() implies b[i] != ',' by {
            if i > 0 {
                assert(w.contains(w[i - 1]));
            }
        }
        text_laws::law_split_both(a, b, ',');
        text_laws::law_split_none(b, ',');
        text_laws::law_trimmed(seq![' '], w, Seq::empty());
        assert(seq![' '] + w + Seq::<char>::empty() =~= b);
        let parts = text::split_on(s, ',');
        assert(parts =~= text::split_on(a, ',').push(b));
        assert(parts.drop_last() =~= text::split_on(a, ','));
        assert(filled(parts) =~= less.push(w));
        assert(less.push(w) =~= tools);
        assert(s[0] == a[0] && less[0] == tools[0]);
        assert(s.last() == w.last());
        text_laws::lemma_trimmed_is_same(s);
        assert forall|i: int| 0 <= i < s.len() implies s[i] != '\n' by {
            if i < a.len() {
                assert(a.contains(a[i]));
            } else if i >= a.len() + 2 {
                assert(s[i] == w[i - a.len() - 2]);
                assert(w.contains(w[i - a.len() - 2]));
            }
        }
    }
}

proof fn lemma_names_kept(tools: Seq<Seq<char>>, n: int)
    requires
        plain_tools(tools),
        0 <= n <= tools.len(),
    ensures
        tool_names(tools, n) == Ok::<Seq<Seq<char>>, Seq<char>>(tools.take(n)),
    decreases n,
{
    if n > 0 {
        lemma_names_kept(tools, n - 1);
        assert(plain(tools[n - 1]));
        let done = tools.take(n - 1);
        if done.contains(tools[n - 1]) {
            let k = choose|k: int| 0 <= k < done.len() && done[k] == tools[n - 1];
            assert(tools[k] == tools[n - 1]);
        }
        assert(tools.take(n) =~= done.push(tools[n - 1]));
    } else {
        assert(tools.take(0) =~= Seq::empty());
    }
}

proof fn lemma_nothing_left_out(names: Seq<Seq<char>>)
    requires
        !names.contains("subagent"@),
    ensures
        without_subagent(names) == names,
    decreases names.len(),
{
    if names.len() > 0 {
        assert(names[names.len() - 1] != "subagent"@);
        assert forall|k: int| 0 <= k < names.drop_last().len() implies names.drop_last()[k]
            != "subagent"@ by {
            assert(names[k] == names.drop_last()[k]);
        }
        lemma_nothing_left_out(names.drop_last());
        assert(names.drop_last().push(names.last()) =~= names);
    } else {
        assert(names =~= Seq::empty());
    }
}

/// The names of tools that are listed with commas are read back, in their order.
pub proof fn law_tools_are_read_back(tools: Seq<Seq<char>>)
    requires
        tools.len() > 0,
        plain_tools(tools),
    ensures
        tools_in(joined(tools, ", "@)) == Ok::<Seq<Seq<char>>, Seq<char>>(tools),
        normalized(tools) == Ok::<Seq<Seq<char>>, Seq<char>>(tools),
        !tools.contains("subagent"@) ==> allowed(tools) == Ok::<Seq<Seq<char>>, Seq<char>>(tools),
{
    lemma_list(tools);
    assert(plain(tools[0]) && tools[0][0] != '[');
    lemma_names_kept(tools, tools.len() as int);
    assert(tools.take(tools.len() as int) =~= tools);
    if !tools.contains("subagent"@) {
        lemma_nothing_left_out(tools);
    }
}

/// A model is read as its provider and its name, cut at the first slash.
pub proof fn law_model_is_read_back(provider: Seq<char>, model: Seq<char>)
    requires
        plain(provider),
        plain(model),
        !provider.contains('/'),
    ensures
        model_of(provider + "/"@ + model) == Ok::<(Seq<char>, Seq<char>), Seq<char>>(
            (provider, model),
        ),
{
    reveal_strlit("/");
    assert("/"@ =~= seq!['/']);
    text_laws::law_cut_at_the_first(provider, '/', model);
}

/// What the lists of a draft are written as.
pub open spec fn list_text(names: Seq<Seq<char>>) -> Option<Seq<char>> {
    if names.len() == 0 {
        None
    } else {
        Some(joined(names, ", "@))
    }
}

/// Whether a draft can be written so that nothing of it changes.
pub open spec fn plain_draft(d: AgentDraft) -> bool {
    &&& plain(files::one_line(d.name@))
    &&& plain(files::one_line(d.description@))
    &&& plain_tools(text::views(d.tools@))
    &&& !text::views(d.tools@).contains("subagent"@)
    &&& plain_tools(text::views(d.disallow_tools@))
    &&& d.model matches Some(m) ==> plain(m@) && model_of(m@) is Ok
    &&& d.instructions@.len() > 0
    &&& trimmed(d.instructions@) == d.instructions@
}

proof fn lemma_joined_push(lines: Seq<Seq<char>>, line: Seq<char>)
    requires
        lines.len() > 0,
    ensures
        joined(lines.push(line), "\n"@) == joined(lines, "\n"@) + "\n"@ + line,
{
    assert(lines.push(line).drop_last() =~= lines);
}

proof fn lemma_lines_push(fields: FieldsView, f: (Seq<char>, Seq<char>))
    ensures
        field_lines(fields.push(f)) == field_lines(fields).push(f.0 + ": "@ + f.1),
{
    assert(field_lines(fields.push(f)) =~= field_lines(fields).push(f.0 + ": "@ + f.1));
}

/// What `with_field` adds to the text of the header.
proof fn lemma_header_grows(fields: FieldsView, key: Seq<char>, value: Option<Seq<char>>)
    requires
        fields.len() > 0,
    ensures
        joined(field_lines(with_field(fields, key, value)), "\n"@) + "\n"@ == joined(
            field_lines(fields),
            "\n"@,
        ) + "\n"@ + (match value {
            Some(v) => key + ": "@ + v + "\n"@,
            None => Seq::empty(),
        }),
{
    let h = joined(field_lines(fields), "\n"@);
    match value {
        Some(v) => {
            lemma_lines_push(fields, (key, v));
            lemma_joined_push(field_lines(fields), key + ": "@ + v);
            assert(h + "\n"@ + (key + ": "@ + v) + "\n"@ =~= h + "\n"@ + (key + ": "@ + v
                + "\n"@));
        },
        None => {
            assert(h + "\n"@ + Seq::<char>::empty() =~= h + "\n"@);
        },
    }
}

/// The text of an agent's file is its fields, each on a line, and its instructions.
proof fn lemma_file_text(d: AgentDraft)
    ensures
        ({
            let fields = agent_fields(
                files::one_line(d.name@),
                files::one_line(d.description@),
                list_text(text::views(d.tools@)),
                list_text(text::views(d.disallow_tools@)),
                json::opt_view(d.model),
            );
            files::file_text(d) == file_with(
                joined(field_lines(fields), "\n"@),
                "\n"@ + d.instructions@ + "\n"@,
            )
        }),
{
    let name = files::one_line(d.name@);
    let description = files::one_line(d.description@);
    let tools = list_text(text::views(d.tools@));
    let denied = list_text(text::views(d.disallow_tools@));
    let model = json::opt_view(d.model);
    let none: FieldsView = Seq::empty();
    let one = none.push(("name"@, name));
    let base = one.push(("description"@, description));
    assert(seq![("name"@, name), ("description"@, description)] =~= base);
    let a = with_field(base, "tools"@, tools);
    let b = with_field(a, "disallow_tools"@, denied);
    let c = with_field(b, "model"@, model);
    lemma_lines_push(none, ("name"@, name));
    lemma_lines_push(one, ("description"@, description));
    let l1 = "name"@ + ": "@ + name;
    let l2 = "description"@ + ": "@ + description;
    assert(field_lines(one) =~= seq![l1]);
    lemma_joined_push(seq![l1], l2);
    assert(joined(seq![l1], "\n"@) == l1);
    lemma_header_grows(base, "tools"@, tools);
    lemma_header_grows(a, "disallow_tools"@, denied);
    lemma_header_grows(b, "model"@, model);
    lemma_literals();
    let t = files::list_line("tools: "@, text::views(d.tools@));
    let x = files::list_line("disallow_tools: "@, text::views(d.disallow_tools@));
    let m = files::model_line(model);
    let h = joined(field_lines(c), "\n"@);
    assert(h + "\n"@ == l1 + "\n"@ + l2 + "\n"@ + t + x + m);
    lemma_same_text("---\n"@, "\n"@, "name"@, "description"@, ": "@, name, description, t, x, m, h, d.instructions@);
}

proof fn lemma_literals()
    ensures
        "---\nname: "@ == "---\n"@ + "name"@ + ": "@,
        "\ndescription: "@ == "\n"@ + "description"@ + ": "@,
        "tools: "@ == "tools"@ + ": "@,
        "disallow_tools: "@ == "disallow_tools"@ + ": "@,
        "model: "@ == "model"@ + ": "@,
        "---\n\n"@ == "---\n"@ + "\n"@,
        "\n---\n"@ == "\n"@ + "---\n"@,
{
    reveal_strlit("name");
    reveal_strlit("description");
    reveal_strlit("tools");
    reveal_strlit("disallow_tools");
    reveal_strlit("model");
    reveal_strlit(": ");
    reveal_strlit("\n");
    reveal_strlit("---\n");
    reveal_strlit("\n---\n");
    reveal_strlit("---\nname: ");
    reveal_strlit("\ndescription: ");
    reveal_strlit("tools: ");
    reveal_strlit("disallow_tools: ");
    reveal_strlit("model: ");
    reveal_strlit("---\n\n");
    assert("---\nname: "@ =~= "---\n"@ + "name"@ + ": "@);
    assert("\ndescription: "@ =~= "\n"@ + "description"@ + ": "@);
    assert("tools: "@ =~= "tools"@ + ": "@);
    assert("disallow_tools: "@ =~= "disallow_tools"@ + ": "@);
    assert("model: "@ =~= "model"@ + ": "@);
    assert("---\n\n"@ =~= "---\n"@ + "\n"@);
    assert("\n---\n"@ =~= "\n"@ + "---\n"@);
}

proof fn lemma_same_text(
    dashes: Seq<char>,
    nl: Seq<char>,
    k1: Seq<char>,
    k2: Seq<char>,
    colon: Seq<char>,
    v1: Seq<char>,
    v2: Seq<char>,
    t: Seq<char>,
    x: Seq<char>,
    m: Seq<char>,
    h: Seq<char>,
    i: Seq<char>,
)
    requires
        h + nl == (k1 + colon + v1) + nl + (k2 + colon + v2) + nl + t + x + m,
    ensures
        (dashes + k1 + colon) + v1 + (nl + k2 + colon) + v2 + nl + t + x + m + (dashes + nl) + i
            + nl == dashes + h + (nl + dashes) + (nl + i + nl),
{
    let all = (k1 + colon + v1) + nl + (k2 + colon + v2) + nl + t + x + m;
    assert((dashes + k1 + colon) + v1 + (nl + k2 + colon) + v2 + nl + t + x + m =~= dashes + all);
    assert(dashes + all + (dashes + nl) + i + nl =~= dashes + all + dashes + nl + i + nl);
    assert(dashes + h + (nl + dashes) + (nl + i + nl) =~= dashes + (h + nl) + dashes + nl + i + nl);
}

/// An agent that is written to its file is read back as it was: its name and its description on
/// one line, its instructions with all their lines, the tools that it is allowed and denied, and
/// its model.
pub proof fn law_agent_is_read_back(d: AgentDraft, path: Seq<char>)
    requires
        plain_draft(d),
    ensures
        agent_in(files::file_text(d), path) matches Ok(a) && {
            &&& a.name == files::one_line(d.name@)
            &&& a.description == files::one_line(d.description@)
            &&& a.instructions == d.instructions@
            &&& a.allow == (if d.tools@.len() == 0 {
                None
            } else {
                Some(text::views(d.tools@))
            })
            &&& a.deny == (if d.disallow_tools@.len() == 0 {
                None
            } else {
                Some(text::views(d.disallow_tools@))
            })
            &&& a.model == (match d.model {
                Some(m) => Some(model_of(m@)->Ok_0),
                None => None,
            })
            &&& a.source == SourceView::File(path)
        },
{
    let name = files::one_line(d.name@);
    let description = files::one_line(d.description@);
    let tools = list_text(text::views(d.tools@));
    let denied = list_text(text::views(d.disallow_tools@));
    let model = json::opt_view(d.model);
    let fields = agent_fields(name, description, tools, denied, model);
    let header = joined(field_lines(fields), "\n"@);
    let body = "\n"@ + d.instructions@ + "\n"@;
    lemma_file_text(d);
    lemma_keys();
    let keys = seq!["name"@, "description"@, "tools"@, "disallow_tools"@, "model"@];
    if d.tools@.len() > 0 {
        lemma_list(text::views(d.tools@));
        law_tools_are_read_back(text::views(d.tools@));
        assert(writable_field((keys[2], tools->0)));
    }
    if d.disallow_tools@.len() > 0 {
        lemma_list(text::views(d.disallow_tools@));
        law_tools_are_read_back(text::views(d.disallow_tools@));
        assert(writable_field((keys[3], denied->0)));
    }
    if d.model is Some {
        assert(writable_field((keys[4], model->0)));
    }
    assert(writable_field((keys[0], name)));
    assert(writable_field((keys[1], description)));
    assert forall|i: int| 0 <= i < fields.len() implies writable_field(#[trigger] fields[i]) by {}
    law_fields_are_read_back(fields);
    let lines = field_lines(fields);
    assert forall|i: int| 0 <= i < lines.len() implies (#[trigger] lines[i]).len() > 0
        && lines[i][0] != '-' && !lines[i].contains('\n') by {
        assert(writable_field(fields[i]));
        lemma_field_line(fields[i]);
    }
    lemma_no_end_mark(lines);
    law_file_is_taken_apart(header, body);
    lemma_agent_fields(name, description, tools, denied, model);
    reveal_strlit("\n");
    lemma_ends(d.instructions@);
    text_laws::law_trimmed("\n"@, d.instructions@, "\n"@);
    assert(agent_from(fields, body, path) is Ok);
}

} // verus!
