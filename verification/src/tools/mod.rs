//! Tools that the model can call.
pub mod apply_patch_tool;
pub mod bash_tool;
pub mod patch_apply;
pub mod patch_laws;
pub mod patch_run;
pub mod patch_steps;
pub mod patch_text_laws;
pub mod permission;
pub mod subagent_tool;
pub mod tool_laws;
pub mod write_tool;

use crate::json;
use crate::json::Json;
use crate::json::JsonView;
use crate::subagents;
use crate::subagents::AgentToolPolicy;
use crate::text;
use crate::types::message::ToolResultBlock;
use crate::types::message::ToolResultView;
use crate::types::tool;
use crate::types::tool::ToolDefinition;
use crate::types::tool::ToolDefinitionView;
use vstd::prelude::*;

verus! {

/// Whether `s` is decimal digits, one at least.
pub open spec fn is_number(s: Seq<char>) -> bool {
    s.len() > 0 && forall|i: int| 0 <= i < s.len() ==> text::digit_value(#[trigger] s[i]) is Some
}

/// Whether `s` gives a position: a line and a column by their numbers.
pub open spec fn is_position(s: Seq<char>) -> bool {
    &&& text::has_prefix(s, " at line "@)
    &&& match text::cut_around(s.skip(9), " column "@) {
        Some((line, column)) => is_number(line) && is_number(column),
        None => false,
    }
}

/// The last place before `n` from which a position stands to the end of `msg`.
pub open spec fn position_before(msg: Seq<char>, n: int) -> Option<int>
    decreases n,
{
    if n <= 0 {
        None
    } else if is_position(msg.skip(n - 1)) {
        Some(n - 1)
    } else {
        position_before(msg, n - 1)
    }
}

/// What is left of an error message when the position at its end is cut off.
pub open spec fn without_position(msg: Seq<char>) -> Seq<char> {
    match position_before(msg, msg.len() as int) {
        Some(at) => msg.take(at),
        None => msg,
    }
}

fn number(s: &str) -> (r: bool)
    ensures
        r == is_number(s@),
{
    let chars = text::chars_of(s);
    let mut i: usize = 0;
    while i < chars.len()
        invariant
            chars@ == s@,
            i <= chars@.len(),
            forall|k: int| 0 <= k < i ==> text::digit_value(#[trigger] s@[k]) is Some,
        decreases chars@.len() - i,
    {
        let c = chars[i];
        if c < '0' || c > '9' {
            assert(text::digit_value(s@[i as int]) is None);
            return false;
        }
        i = i + 1;
    }
    chars.len() > 0
}

fn position(chars: &Vec<char>, at: usize) -> (r: bool)
    requires
        at <= chars@.len(),
    ensures
        r == is_position(chars@.skip(at as int)),
{
    let head = text::chars_of(" at line ");
    proof {
        reveal_strlit(" at line ");
    }
    let ghost s = chars@.skip(at as int);
    if !text::matches_at(chars, &head, at) {
        assert(text::has_prefix(s, " at line "@) ==> chars@.subrange(at as int, at + 9)
            =~= s.take(9));
        return false;
    }
    assert(s.take(9) =~= chars@.subrange(at as int, at + 9));
    let total: usize = chars.len();
    assert(at + 9 <= total);
    let rest = text::string_of(chars, at + 9, total);
    assert(rest@ =~= s.skip(9));
    match text::split_around(rest.as_str(), " column ") {
        Some((line, column)) => number(line.as_str()) && number(column.as_str()),
        None => false,
    }
}

/// Cuts the position off an error message that ends in one.
pub fn clean_json_error(msg: &str) -> (r: String)
    ensures
        r@ == without_position(msg@),
{
    let chars = text::chars_of(msg);
    let mut n: usize = chars.len();
    while n > 0
        invariant
            chars@ == msg@,
            n <= msg@.len(),
            position_before(msg@, msg@.len() as int) == position_before(msg@, n as int),
        decreases n,
    {
        if position(&chars, n - 1) {
            let r = text::string_of(&chars, 0, n - 1);
            assert(r@ =~= msg@.take(n - 1));
            return r;
        }
        n = n - 1;
    }
    text::copy(msg)
}

proof fn lemma_digit(c: char)
    requires
        text::digit_value(c) is Some,
    ensures
        '0' <= c <= '9',
{
}

/// A position begins nowhere but at its start.
proof fn lemma_one_position(line: Seq<char>, column: Seq<char>, j: int)
    requires
        is_number(line),
        is_number(column),
        0 < j <= (" at line "@ + line + " column "@ + column).len(),
    ensures
        !is_position((" at line "@ + line + " column "@ + column).skip(j)),
{
    reveal_strlit(" at line ");
    reveal_strlit(" column ");
    let t = " at line "@ + line + " column "@ + column;
    let s = t.skip(j);
    if text::has_prefix(s, " at line "@) {
        assert(s.take(9)[0] == ' ' && s.take(9)[1] == 'a');
        assert(t[j] == ' ' && t[j + 1] == 'a');
        let n = line.len() as int;
        lemma_digit(line[0]);
        lemma_digit(column[0]);
        if 9 <= j < 9 + n {
            lemma_digit(line[j - 9]);
        }
        if j >= 17 + n {
            lemma_digit(column[j - 17 - n]);
        }
        assert(t[9] == line[0]);
        assert(t[17 + n] == column[0]);
        if j >= 17 + n {
            assert(t[j] == column[j - 17 - n]);
        } else if j >= 9 + n {
            assert(t[j] == " column "@[j - 9 - n]);
        } else if j >= 9 {
            assert(t[j] == line[j - 9]);
        } else {
            assert(t[j] == " at line "@[j]);
        }
    }
}

proof fn lemma_is_position(line: Seq<char>, column: Seq<char>)
    requires
        is_number(line),
        is_number(column),
    ensures
        is_position(" at line "@ + line + " column "@ + column),
{
    reveal_strlit(" at line ");
    reveal_strlit(" column ");
    let t = " at line "@ + line + " column "@ + column;
    let rest = t.skip(9);
    let n = line.len() as int;
    assert(t.take(9) =~= " at line "@);
    assert(rest =~= line + " column "@ + column);
    assert(rest.subrange(n, n + 8) =~= " column "@);
    text::lemma_find_from(rest, " column "@, 0);
    assert forall|j: int| 0 <= j < n implies !text::occurs_at(rest, " column "@, j) by {
        if text::occurs_at(rest, " column "@, j) {
            assert(rest.subrange(j, j + 8)[0] == ' ');
            lemma_digit(line[j]);
        }
    }
    assert(text::occurs_at(rest, " column "@, n));
    assert(text::find_from(rest, " column "@, 0) == Some(n));
    assert(rest.take(n) =~= line);
    assert(rest.skip(n + 8) =~= column);
}

/// From a message with a position at its end that position is cut off and nothing else, whatever
/// the message says.
pub proof fn law_position_is_cut_off(body: Seq<char>, line: Seq<char>, column: Seq<char>)
    requires
        is_number(line),
        is_number(column),
    ensures
        without_position(body + " at line "@ + line + " column "@ + column) == body,
{
    let t = " at line "@ + line + " column "@ + column;
    let msg = body + " at line "@ + line + " column "@ + column;
    assert(msg =~= body + t);
    lemma_is_position(line, column);
    assert(msg.skip(body.len() as int) =~= t);
    lemma_position_before(body, line, column, msg.len() as int);
    assert(msg.take(body.len() as int) =~= body);
}

proof fn lemma_position_before(body: Seq<char>, line: Seq<char>, column: Seq<char>, n: int)
    requires
        is_number(line),
        is_number(column),
        body.len() < n <= body.len() + (" at line "@ + line + " column "@ + column).len(),
        is_position(" at line "@ + line + " column "@ + column),
    ensures
        position_before(body + (" at line "@ + line + " column "@ + column), n) == Some(
            body.len() as int,
        ),
    decreases n,
{
    let t = " at line "@ + line + " column "@ + column;
    let msg = body + t;
    let j = n - 1 - body.len();
    assert(msg.skip(n - 1) =~= t.skip(j));
    if j > 0 {
        lemma_one_position(line, column, j);
        lemma_position_before(body, line, column, n - 1);
    } else {
        assert(t.skip(0) =~= t);
    }
}

/// What running a tool came to.
#[derive(Debug, PartialEq, Eq)]
pub struct ToolResult {
    pub output: String,
    pub is_error: bool,
    pub metadata: Option<Vec<(String, Json)>>,
}

#[verifier::ext_equal]
pub struct ResultView {
    pub output: Seq<char>,
    pub is_error: bool,
    pub metadata: Option<Seq<(Seq<char>, JsonView)>>,
}

impl View for ToolResult {
    type V = ResultView;

    open spec fn view(&self) -> ResultView {
        ResultView {
            output: self.output@,
            is_error: self.is_error,
            metadata: match self.metadata {
                Some(m) => Some(json::entries_view(m@)),
                None => None,
            },
        }
    }
}

/// A result that is fine and says `output`.
pub open spec fn fine(output: Seq<char>) -> ResultView {
    ResultView { output, is_error: false, metadata: None }
}

/// A result that failed and says why.
pub open spec fn failed(output: Seq<char>) -> ResultView {
    ResultView { output, is_error: true, metadata: None }
}

impl ToolResult {
    pub fn ok(output: String) -> (r: Self)
        ensures
            r@ == fine(output@),
    {
        ToolResult { output, is_error: false, metadata: None }
    }

    pub fn error(output: String) -> (r: Self)
        ensures
            r@ == failed(output@),
    {
        ToolResult { output, is_error: true, metadata: None }
    }

    pub fn with_metadata(self, metadata: Vec<(String, Json)>) -> (r: Self)
        ensures
            r@ == (ResultView { metadata: Some(json::entries_view(metadata@)), ..self@ }),
    {
        ToolResult { output: self.output, is_error: self.is_error, metadata: Some(metadata) }
    }

    /// The block that answers the tool call `tool_use_id`.
    pub fn into_block(self, tool_use_id: &str) -> (r: ToolResultBlock)
        ensures
            r@ == (ToolResultView {
                tool_use_id: tool_use_id@,
                is_error: self@.is_error,
                content: self@.output,
                metadata: self@.metadata,
            }),
    {
        ToolResultBlock {
            tool_use_id: text::copy(tool_use_id),
            is_error: self.is_error,
            content: self.output,
            metadata: self.metadata,
        }
    }
}

/// The entries with their keys and values in the order given.
pub fn tool_metadata(entries: Vec<(&str, Json)>) -> (r: Vec<(String, Json)>)
    ensures
        json::entries_view(r@) == Seq::new(
            entries@.len(),
            |i: int| (entries@[i].0@, entries@[i].1@),
        ),
{
    let mut out: Vec<(String, Json)> = Vec::new();
    let mut i: usize = 0;
    while i < entries.len()
        invariant
            i <= entries@.len(),
            out@.len() == i,
            forall|k: int|
                0 <= k < i ==> (#[trigger] out@[k]).0@ == entries@[k].0@ && out@[k].1@
                    == entries@[k].1@,
        decreases entries@.len() - i,
    {
        let key = text::copy(entries[i].0);
        let value = entries[i].1.copy();
        out.push((key, value));
        i = i + 1;
    }
    assert(json::entries_view(out@) =~= Seq::new(
        entries@.len(),
        |i: int| (entries@[i].0@, entries@[i].1@),
    ));
    out
}

/// A tool as it is registered.
#[derive(Debug)]
pub struct RegisteredTool {
    pub name: String,
    pub description: String,
    pub input_schema: Json,
}

impl View for RegisteredTool {
    type V = ToolDefinitionView;

    open spec fn view(&self) -> ToolDefinitionView {
        ToolDefinitionView {
            name: self.name@,
            description: self.description@,
            input_schema: self.input_schema@,
        }
    }
}

impl RegisteredTool {
    pub fn new(name: &str, description: &str, input_schema: Json) -> (r: Self)
        ensures
            r@ == (ToolDefinitionView {
                name: name@,
                description: description@,
                input_schema: input_schema@,
            }),
    {
        RegisteredTool {
            name: text::copy(name),
            description: text::copy(description),
            input_schema,
        }
    }

    pub fn definition(&self) -> (r: ToolDefinition)
        ensures
            r@ == self@,
    {
        ToolDefinition {
            name: self.name.clone(),
            description: self.description.clone(),
            input_schema: self.input_schema.copy(),
        }
    }
}

pub open spec fn registered_view(tools: Seq<RegisteredTool>) -> Seq<ToolDefinitionView> {
    Seq::new(tools.len(), |i: int| tools[i]@)
}

/// The place of the tool called `name` among the first `n`.
pub open spec fn place_of(tools: Seq<ToolDefinitionView>, name: Seq<char>, n: int) -> Option<int>
    decreases n,
{
    if n <= 0 {
        None
    } else if tools[n - 1].name == name {
        Some(n - 1)
    } else {
        place_of(tools, name, n - 1)
    }
}

/// The tools after `t` was registered: it takes the place of one with its name, else the last.
pub open spec fn with_tool(
    tools: Seq<ToolDefinitionView>,
    t: ToolDefinitionView,
) -> Seq<ToolDefinitionView> {
    match place_of(tools, t.name, tools.len() as int) {
        Some(i) => tools.update(i, t),
        None => tools.push(t),
    }
}

/// Tools by name, in the order in which the names were first registered.
#[derive(Debug)]
pub struct ToolRegistry {
    tools: Vec<RegisteredTool>,
}

impl View for ToolRegistry {
    type V = Seq<ToolDefinitionView>;

    closed spec fn view(&self) -> Seq<ToolDefinitionView> {
        registered_view(self.tools@)
    }
}

impl Default for ToolRegistry {
    fn default() -> (r: Self)
        ensures
            r@.len() == 0,
    {
        ToolRegistry::new()
    }
}

impl ToolRegistry {
    pub fn new() -> (r: Self)
        ensures
            r@ == Seq::<ToolDefinitionView>::empty(),
    {
        let r = ToolRegistry { tools: Vec::new() };
        assert(r@ =~= Seq::empty());
        r
    }

    fn place(&self, name: &str) -> (r: Option<usize>)
        ensures
            match r {
                Some(i) => place_of(self@, name@, self@.len() as int) == Some(i as int) && i
                    < self.tools@.len(),
                None => place_of(self@, name@, self@.len() as int) is None,
            },
    {
        let mut n: usize = self.tools.len();
        while n > 0
            invariant
                n <= self.tools@.len(),
                self@.len() == self.tools@.len(),
                place_of(self@, name@, self@.len() as int) == place_of(self@, name@, n as int),
            decreases n,
        {
            assert(self@[n - 1] == self.tools@[n - 1]@);
            if text::same(self.tools[n - 1].name.as_str(), name) {
                return Some(n - 1);
            }
            n = n - 1;
        }
        None
    }

    pub fn register(&mut self, tool: RegisteredTool)
        ensures
            final(self)@ == with_tool(old(self)@, tool@),
    {
        let ghost before = self@;
        let ghost t = tool@;
        match self.place(tool.name.as_str()) {
            Some(i) => {
                self.tools.set(i, tool);
                assert(self@ =~= before.update(i as int, t));
            },
            None => {
                self.tools.push(tool);
                assert(self@ =~= before.push(t));
            },
        }
    }

    pub fn get(&self, name: &str) -> (r: Option<&RegisteredTool>)
        ensures
            match r {
                Some(t) => place_of(self@, name@, self@.len() as int) matches Some(i) && 0 <= i
                    < self@.len() && t@ == self@[i] && t@.name == name@,
                None => place_of(self@, name@, self@.len() as int) is None,
            },
    {
        match self.place(name) {
            Some(i) => {
                proof {
                    lemma_place(self@, name@, self@.len() as int);
                    assert(self@[i as int] == self.tools@[i as int]@);
                }
                Some(&self.tools[i])
            },
            None => None,
        }
    }

    pub fn definitions(&self) -> (r: Vec<ToolDefinition>)
        ensures
            tool::definitions_view(r@) == self@,
    {
        let mut out: Vec<ToolDefinition> = Vec::new();
        let mut i: usize = 0;
        while i < self.tools.len()
            invariant
                i <= self.tools@.len(),
                out@.len() == i,
                forall|k: int| 0 <= k < i ==> (#[trigger] out@[k])@ == self.tools@[k]@,
            decreases self.tools@.len() - i,
        {
            out.push(self.tools[i].definition());
            i = i + 1;
        }
        assert(tool::definitions_view(out@) =~= self@);
        out
    }
}

pub proof fn lemma_place(tools: Seq<ToolDefinitionView>, name: Seq<char>, n: int)
    ensures
        match place_of(tools, name, n) {
            Some(i) => 0 <= i < n && tools[i].name == name && forall|j: int|
                i < j < n ==> (#[trigger] tools[j]).name != name,
            None => forall|j: int| 0 <= j < n ==> (#[trigger] tools[j]).name != name,
        },
    decreases n,
{
    if n > 0 && tools[n - 1].name != name {
        lemma_place(tools, name, n - 1);
    }
}

/// Whether every name is registered once.
pub open spec fn names_once(tools: Seq<ToolDefinitionView>) -> bool {
    forall|i: int, j: int|
        0 <= i < j < tools.len() ==> (#[trigger] tools[i]).name != (#[trigger] tools[j]).name
}

/// Registering keeps every name once, gives back under its name the tool just registered, and
/// leaves the tools of other names as they were.
pub proof fn law_register(
    tools: Seq<ToolDefinitionView>,
    t: ToolDefinitionView,
    name: Seq<char>,
)
    requires
        names_once(tools),
    ensures
        names_once(with_tool(tools, t)),
        ({
            let after = with_tool(tools, t);
            let here = place_of(after, t.name, after.len() as int);
            here is Some && after[here->0] == t
        }),
        name != t.name ==> place_of(with_tool(tools, t), name, with_tool(tools, t).len() as int)
            == place_of(tools, name, tools.len() as int),
        name != t.name ==> (place_of(tools, name, tools.len() as int) matches Some(i) ==> with_tool(
            tools,
            t,
        )[i] == tools[i]),
{
    let after = with_tool(tools, t);
    lemma_place(tools, t.name, tools.len() as int);
    lemma_place(after, t.name, after.len() as int);
    lemma_place(tools, name, tools.len() as int);
    lemma_place(after, name, after.len() as int);
    match place_of(tools, t.name, tools.len() as int) {
        Some(i) => {
            assert(after[i] == t);
            assert forall|k: int| 0 <= k < after.len() && k != i implies after[k] == tools[k] by {}
            if name != t.name {
                match place_of(tools, name, tools.len() as int) {
                    Some(j) => {
                        assert(after[j] == tools[j]);
                        let k = place_of(after, name, after.len() as int)->0;
                        assert(after[k].name == name);
                        assert(tools[k].name == name);
                    },
                    None => {
                        if place_of(after, name, after.len() as int) is Some {
                            let k = place_of(after, name, after.len() as int)->0;
                            assert(after[k].name == name);
                            assert(tools[k].name == name);
                        }
                    },
                }
            }
        },
        None => {
            assert(after[tools.len() as int] == t);
            assert forall|k: int| 0 <= k < tools.len() implies after[k] == tools[k] by {}
            if name != t.name {
                match place_of(tools, name, tools.len() as int) {
                    Some(j) => {
                        assert(after[j] == tools[j]);
                        let k = place_of(after, name, after.len() as int)->0;
                        assert(after[k].name == name);
                        assert(tools[k].name == name);
                    },
                    None => {
                        if place_of(after, name, after.len() as int) is Some {
                            let k = place_of(after, name, after.len() as int)->0;
                            assert(after[k].name == name);
                            assert(tools[k].name == name);
                        }
                    },
                }
            }
        },
    }
}

/// The names of the tools that every agent has by default.
pub open spec fn default_names() -> Seq<Seq<char>> {
    seq!["bash"@, "read"@, "edit"@, "write"@]
}

pub open spec fn default_tools(
    bash_schema: JsonView,
    read: ToolDefinitionView,
    edit: ToolDefinitionView,
    write_schema: JsonView,
) -> Seq<ToolDefinitionView> {
    let bash = ToolDefinitionView {
        name: "bash"@,
        description: bash_tool::DESCRIPTION@,
        input_schema: bash_schema,
    };
    let write = ToolDefinitionView {
        name: "write"@,
        description: write_tool::DESCRIPTION@,
        input_schema: write_schema,
    };
    with_tool(with_tool(with_tool(seq![bash], read), edit), write)
}

/// The tools that are there by default: running commands, and reading, editing and writing
/// files. `bash_schema` and `write_schema` describe the inputs of those two tools.
pub fn create_default_registry(
    bash_schema: Json,
    read: RegisteredTool,
    edit: RegisteredTool,
    write_schema: Json,
) -> (r: ToolRegistry)
    ensures
        r@ == default_tools(bash_schema@, read@, edit@, write_schema@),
{
    let mut registry = ToolRegistry::new();
    let bash = bash_tool::BashTool;
    let write = write_tool::WriteTool;
    registry.register(RegisteredTool::new(bash.name(), bash.description(), bash_schema));
    assert(registry@ =~= seq![registry@[0]]);
    registry.register(read);
    registry.register(edit);
    registry.register(RegisteredTool::new(write.name(), write.description(), write_schema));
    registry
}

/// The tools an agent shares with the agent that runs it.
pub fn inherited_subagent_tool_names() -> (r: Vec<String>)
    ensures
        text::views(r@) == default_names(),
{
    let mut out: Vec<String> = Vec::new();
    out.push(text::copy("bash"));
    out.push(text::copy("read"));
    out.push(text::copy("edit"));
    out.push(text::copy("write"));
    assert(text::views(out@) =~= default_names());
    out
}

/// Whether an agent with these lists may use a tool: of the tools that it is allowed, or that all
/// agents share where it has no such list, all but those it is denied.
pub open spec fn may_use(
    allow: Option<Seq<Seq<char>>>,
    deny: Option<Seq<Seq<char>>>,
    name: Seq<char>,
) -> bool {
    &&& (match allow {
        Some(names) => names.contains(name),
        None => default_names().contains(name),
    })
    &&& !(deny is Some && deny->0.contains(name))
}

pub fn subagent_may_use(policy: &AgentToolPolicy, name: &str) -> (r: bool)
    ensures
        r == may_use(
            subagents::list_of(policy.allow),
            subagents::list_of(policy.deny),
            name@,
        ),
{
    let allowed = match &policy.allow {
        Some(names) => text::list_contains(names, name),
        None => {
            let names = inherited_subagent_tool_names();
            text::list_contains(&names, name)
        },
    };
    let denied = match &policy.deny {
        Some(names) => text::list_contains(names, name),
        None => false,
    };
    allowed && !denied
}

/// What an agent is denied it may never use, whatever it is allowed.
pub proof fn law_denied_tools_are_never_used(
    allow: Option<Seq<Seq<char>>>,
    deny: Seq<Seq<char>>,
    name: Seq<char>,
)
    requires
        deny.contains(name),
    ensures
        !may_use(allow, Some(deny), name),
{
}

} // verus!
