//! Requests of the OpenAI interface.
use crate::json;
use crate::json::Json;
use crate::json::JsonView;
use crate::text;
use crate::types::config::ThinkingEffort;
use crate::types::message;
use crate::types::message::BlockView;
use crate::types::message::ContentBlock;
use crate::types::message::Message;
use crate::types::message::MessageView;
use crate::types::message::Role;
use crate::types::message::ToolResultView;
use crate::types::message::ToolUseView;
use crate::types::tool;
use crate::types::tool::ToolDefinition;
use crate::types::tool::ToolDefinitionView;
use vstd::prelude::*;

verus! {

/// A message that only has a role and a text.
pub open spec fn plain_message(role: Seq<char>, content: JsonView) -> JsonView {
    JsonView::Object(seq![("role"@, JsonView::Str(role)), ("content"@, content)])
}

/// A tool result is a message of its own.
pub open spec fn tool_message(tr: ToolResultView) -> JsonView {
    JsonView::Object(
        seq![
            ("role"@, JsonView::Str("tool"@)),
            ("tool_call_id"@, JsonView::Str(tr.tool_use_id)),
            ("content"@, JsonView::Str(tr.content)),
        ],
    )
}

/// The tool results among the first `n` blocks, as messages.
pub open spec fn result_messages(blocks: Seq<BlockView>, n: int) -> Seq<JsonView>
    decreases n,
{
    if n <= 0 {
        Seq::empty()
    } else {
        match blocks[n - 1] {
            BlockView::ToolResult(tr) => result_messages(blocks, n - 1).push(tool_message(tr)),
            _ => result_messages(blocks, n - 1),
        }
    }
}

/// The texts among the first `n` blocks.
pub open spec fn texts_of(blocks: Seq<BlockView>, n: int) -> Seq<Seq<char>>
    decreases n,
{
    if n <= 0 {
        Seq::empty()
    } else {
        match blocks[n - 1] {
            BlockView::Text(t) => texts_of(blocks, n - 1).push(t),
            _ => texts_of(blocks, n - 1),
        }
    }
}

pub open spec fn text_part(t: Seq<char>) -> JsonView {
    JsonView::Object(seq![("type"@, JsonView::Str("text"@)), ("text"@, JsonView::Str(t))])
}

/// The messages for a user message: its tool results where it has any, else its texts.
pub open spec fn user_messages(blocks: Seq<BlockView>) -> Seq<JsonView> {
    let results = result_messages(blocks, blocks.len() as int);
    let texts = texts_of(blocks, blocks.len() as int);
    if results.len() > 0 {
        results
    } else if texts.len() == 0 {
        Seq::empty()
    } else if texts.len() == 1 {
        seq![plain_message("user"@, JsonView::Str(texts[0]))]
    } else {
        seq![
            plain_message(
                "user"@,
                JsonView::Array(Seq::new(texts.len(), |i: int| text_part(texts[i]))),
            ),
        ]
    }
}

pub open spec fn call_json(tu: ToolUseView) -> JsonView {
    JsonView::Object(
        seq![
            ("id"@, JsonView::Str(tu.id)),
            ("type"@, JsonView::Str("function"@)),
            (
                "function"@,
                JsonView::Object(
                    seq![
                        ("name"@, JsonView::Str(tu.name)),
                        (
                            "arguments"@,
                            JsonView::Str(json::text_of_json(JsonView::Object(tu.input))),
                        ),
                    ],
                ),
            ),
        ],
    )
}

/// The tool calls among the first `n` blocks.
pub open spec fn calls_of(blocks: Seq<BlockView>, n: int) -> Seq<JsonView>
    decreases n,
{
    if n <= 0 {
        Seq::empty()
    } else {
        match blocks[n - 1] {
            BlockView::ToolUse(tu) => calls_of(blocks, n - 1).push(call_json(tu)),
            _ => calls_of(blocks, n - 1),
        }
    }
}

/// The first thinking among the first `n` blocks.
pub open spec fn first_thinking(blocks: Seq<BlockView>, n: int) -> Option<Seq<char>>
    decreases n,
{
    if n <= 0 {
        None
    } else {
        match (first_thinking(blocks, n - 1), blocks[n - 1]) {
            (Some(t), _) => Some(t),
            (None, BlockView::Thinking(t)) => Some(t),
            (None, _) => None,
        }
    }
}

pub open spec fn assistant_entries(blocks: Seq<BlockView>) -> Seq<(Seq<char>, JsonView)> {
    let n = blocks.len() as int;
    let texts = texts_of(blocks, n);
    let calls = calls_of(blocks, n);
    let base = seq![
        ("role"@, JsonView::Str("assistant"@)),
        (
            "content"@,
            if texts.len() == 0 {
                JsonView::Null
            } else {
                JsonView::Str(text::joined(texts, Seq::empty()))
            },
        ),
    ];
    let with_calls = if calls.len() > 0 {
        base.push(("tool_calls"@, JsonView::Array(calls)))
    } else {
        base
    };
    match first_thinking(blocks, n) {
        Some(t) => with_calls.push(("reasoning_content"@, JsonView::Str(t))),
        None => with_calls,
    }
}

/// The messages for one message.
pub open spec fn converted(m: MessageView) -> Seq<JsonView> {
    match m.role {
        Role::User => user_messages(m.content),
        Role::Assistant => seq![JsonView::Object(assistant_entries(m.content))],
    }
}

/// The messages for the first `n` messages, the system prompt in front.
pub open spec fn converted_all(
    messages: Seq<MessageView>,
    system_prompt: Option<Seq<char>>,
    n: int,
) -> Seq<JsonView>
    decreases n,
{
    if n <= 0 {
        match system_prompt {
            Some(s) => seq![plain_message("system"@, JsonView::Str(s))],
            None => Seq::empty(),
        }
    } else {
        converted_all(messages, system_prompt, n - 1) + converted(messages[n - 1])
    }
}

/// The tool results among the first `n` blocks, in their order.
pub open spec fn results_in(blocks: Seq<BlockView>, n: int) -> Seq<ToolResultView>
    decreases n,
{
    if n <= 0 {
        Seq::empty()
    } else {
        match blocks[n - 1] {
            BlockView::ToolResult(tr) => results_in(blocks, n - 1).push(tr),
            _ => results_in(blocks, n - 1),
        }
    }
}

proof fn lemma_result_messages(blocks: Seq<BlockView>, n: int)
    requires
        0 <= n <= blocks.len(),
    ensures
        result_messages(blocks, n) == results_in(blocks, n).map_values(
            |tr: ToolResultView| tool_message(tr),
        ),
    decreases n,
{
    if n > 0 {
        lemma_result_messages(blocks, n - 1);
    }
    assert(result_messages(blocks, n) =~= results_in(blocks, n).map_values(
        |tr: ToolResultView| tool_message(tr),
    ));
}

/// A user message with tool results becomes one message for each of them, in their order, and
/// nothing else; an assistant message becomes one message.
pub proof fn law_messages_for_one(m: MessageView)
    ensures
        ({
            let results = results_in(m.content, m.content.len() as int);
            m.role == Role::User && results.len() > 0 ==> converted(m) == results.map_values(
                |tr: ToolResultView| tool_message(tr),
            )
        }),
        m.role == Role::Assistant ==> converted(m).len() == 1,
{
    lemma_result_messages(m.content, m.content.len() as int);
}

proof fn lemma_converted_first(
    a: Seq<MessageView>,
    b: Seq<MessageView>,
    system_prompt: Option<Seq<char>>,
    n: int,
)
    requires
        0 <= n <= a.len(),
    ensures
        converted_all(a + b, system_prompt, n) == converted_all(a, system_prompt, n),
    decreases n,
{
    if n > 0 {
        lemma_converted_first(a, b, system_prompt, n - 1);
        assert((a + b)[n - 1] == a[n - 1]);
    }
}

proof fn lemma_converted_rest(
    a: Seq<MessageView>,
    b: Seq<MessageView>,
    system_prompt: Option<Seq<char>>,
    n: int,
)
    requires
        0 <= n <= b.len(),
    ensures
        converted_all(a + b, system_prompt, a.len() + n) == converted_all(
            a,
            system_prompt,
            a.len() as int,
        ) + converted_all(b, None, n),
    decreases n,
{
    let head = converted_all(a, system_prompt, a.len() as int);
    if n > 0 {
        lemma_converted_rest(a, b, system_prompt, n - 1);
        assert((a + b)[a.len() + n - 1] == b[n - 1]);
        assert(head + converted_all(b, None, n - 1) + converted(b[n - 1]) =~= head + (
        converted_all(b, None, n - 1) + converted(b[n - 1])));
    } else {
        lemma_converted_first(a, b, system_prompt, a.len() as int);
        assert(head + Seq::<JsonView>::empty() =~= head);
    }
}

/// Each message is converted by itself: the messages for a conversation are those for its first
/// part and behind them those for the rest. A system prompt stands in front of all.
pub proof fn law_messages_are_converted_one_by_one(
    a: Seq<MessageView>,
    b: Seq<MessageView>,
    prompt: Seq<char>,
)
    ensures
        converted_all(a + b, None, (a + b).len() as int) == converted_all(
            a,
            None,
            a.len() as int,
        ) + converted_all(b, None, b.len() as int),
        converted_all(a, Some(prompt), a.len() as int) == seq![
            plain_message("system"@, JsonView::Str(prompt)),
        ] + converted_all(a, None, a.len() as int),
{
    lemma_converted_rest(a, b, None, b.len() as int);
    let none: Seq<MessageView> = Seq::empty();
    lemma_converted_rest(none, a, Some(prompt), a.len() as int);
    assert(none + a =~= a);
}

fn plain(role: &str, content: Json) -> (r: Json)
    ensures
        r@ == plain_message(role@, content@),
{
    proof {
        json::lemma_empty_views();
    }
    let mut entries: Vec<(String, Json)> = Vec::new();
    json::put(&mut entries, "role", json::str_value(role));
    json::put(&mut entries, "content", content);
    assert(json::entries_view(entries@) =~= seq![
        ("role"@, JsonView::Str(role@)),
        ("content"@, content@),
    ]);
    json::object(entries)
}

fn list_results(blocks: &Vec<ContentBlock>) -> (r: Vec<Json>)
    ensures
        json::list_view(r@) == result_messages(
            message::blocks_view(blocks@),
            blocks@.len() as int,
        ),
{
    proof {
        json::lemma_empty_views();
    }
    let ghost all = message::blocks_view(blocks@);
    let mut out: Vec<Json> = Vec::new();
    let mut i: usize = 0;
    while i < blocks.len()
        invariant
            i <= blocks@.len(),
            all == message::blocks_view(blocks@),
            json::list_view(out@) == result_messages(all, i as int),
        decreases blocks@.len() - i,
    {
        assert(all[i as int] == blocks@[i as int]@);
        match &blocks[i] {
            ContentBlock::ToolResult(tr) => {
                proof {
                    json::lemma_empty_views();
                }
                let mut entries: Vec<(String, Json)> = Vec::new();
                json::put(&mut entries, "role", json::str_value("tool"));
                json::put(&mut entries, "tool_call_id", json::str_value(tr.tool_use_id.as_str()));
                json::put(&mut entries, "content", json::str_value(tr.content.as_str()));
                assert(json::entries_view(entries@) =~= seq![
                    ("role"@, JsonView::Str("tool"@)),
                    ("tool_call_id"@, JsonView::Str(tr.tool_use_id@)),
                    ("content"@, JsonView::Str(tr.content@)),
                ]);
                json::put_item(&mut out, json::object(entries));
            },
            _ => {},
        }
        i = i + 1;
    }
    out
}

pub(crate) fn list_texts(blocks: &Vec<ContentBlock>) -> (r: Vec<String>)
    ensures
        text::views(r@) == texts_of(message::blocks_view(blocks@), blocks@.len() as int),
{
    let ghost all = message::blocks_view(blocks@);
    let mut out: Vec<String> = Vec::new();
    let mut i: usize = 0;
    assert(text::views(out@) =~= Seq::empty());
    while i < blocks.len()
        invariant
            i <= blocks@.len(),
            all == message::blocks_view(blocks@),
            text::views(out@) == texts_of(all, i as int),
        decreases blocks@.len() - i,
    {
        broadcast use text::lemma_views_push;

        assert(all[i as int] == blocks@[i as int]@);
        match &blocks[i] {
            ContentBlock::Text(t) => {
                out.push(t.text.clone());
            },
            _ => {},
        }
        i = i + 1;
    }
    out
}

fn list_calls(blocks: &Vec<ContentBlock>) -> (r: Vec<Json>)
    ensures
        json::list_view(r@) == calls_of(message::blocks_view(blocks@), blocks@.len() as int),
{
    proof {
        json::lemma_empty_views();
    }
    let ghost all = message::blocks_view(blocks@);
    let mut out: Vec<Json> = Vec::new();
    let mut i: usize = 0;
    while i < blocks.len()
        invariant
            i <= blocks@.len(),
            all == message::blocks_view(blocks@),
            json::list_view(out@) == calls_of(all, i as int),
        decreases blocks@.len() - i,
    {
        assert(all[i as int] == blocks@[i as int]@);
        match &blocks[i] {
            ContentBlock::ToolUse(tu) => {
                proof {
                    json::lemma_empty_views();
                }
                let input = json::object(json::copy_entries(&tu.input));
                let arguments = json::print_json(&input);
                let mut function: Vec<(String, Json)> = Vec::new();
                json::put(&mut function, "name", json::str_value(tu.name.as_str()));
                json::put(&mut function, "arguments", json::str_value(arguments.as_str()));
                assert(json::entries_view(function@) =~= seq![
                    ("name"@, JsonView::Str(tu.name@)),
                    (
                        "arguments"@,
                        JsonView::Str(
                            json::text_of_json(JsonView::Object(json::entries_view(tu.input@))),
                        ),
                    ),
                ]);
                let function = json::object(function);
                let mut entries: Vec<(String, Json)> = Vec::new();
                json::put(&mut entries, "id", json::str_value(tu.id.as_str()));
                json::put(&mut entries, "type", json::str_value("function"));
                json::put(&mut entries, "function", function);
                assert(json::entries_view(entries@) =~= seq![
                    ("id"@, JsonView::Str(tu.id@)),
                    ("type"@, JsonView::Str("function"@)),
                    ("function"@, function@),
                ]);
                json::put_item(&mut out, json::object(entries));
            },
            _ => {},
        }
        i = i + 1;
    }
    out
}

fn find_thinking(blocks: &Vec<ContentBlock>) -> (r: Option<String>)
    ensures
        json::opt_view(r) == first_thinking(message::blocks_view(blocks@), blocks@.len() as int),
{
    let ghost all = message::blocks_view(blocks@);
    let mut found: Option<String> = None;
    let mut i: usize = 0;
    while i < blocks.len()
        invariant
            i <= blocks@.len(),
            all == message::blocks_view(blocks@),
            json::opt_view(found) == first_thinking(all, i as int),
        decreases blocks@.len() - i,
    {
        assert(all[i as int] == blocks@[i as int]@);
        match &blocks[i] {
            ContentBlock::Thinking(t) => {
                if found.is_none() {
                    found = Some(t.thinking.clone());
                }
            },
            _ => {},
        }
        i = i + 1;
    }
    found
}

fn convert_user(blocks: &Vec<ContentBlock>, out: &mut Vec<Json>)
    ensures
        json::list_view(final(out)@) == json::list_view(old(out)@) + user_messages(
            message::blocks_view(blocks@),
        ),
{
    let ghost before = json::list_view(out@);
    let ghost all = message::blocks_view(blocks@);
    let mut results = list_results(blocks);
    if results.len() > 0 {
        let ghost r = json::list_view(results@);
        out.append(&mut results);
        assert(json::list_view(out@) =~= before + r);
        return;
    }
    let texts = list_texts(blocks);
    if texts.len() == 0 {
        assert(json::list_view(out@) =~= before + Seq::empty());
        return;
    }
    let ghost ts = text::views(texts@);
    let content = if texts.len() == 1 {
        assert(ts[0] == texts@[0]@);
        json::str_value(texts[0].as_str())
    } else {
        let mut parts: Vec<Json> = Vec::new();
        let mut i: usize = 0;
        while i < texts.len()
            invariant
                i <= texts@.len(),
                ts == text::views(texts@),
                json::list_view(parts@) =~= Seq::new(i as nat, |k: int| text_part(ts[k])),
            decreases texts@.len() - i,
        {
            proof {
                json::lemma_empty_views();
            }
            let mut entries: Vec<(String, Json)> = Vec::new();
            json::put(&mut entries, "type", json::str_value("text"));
            json::put(&mut entries, "text", json::str_value(texts[i].as_str()));
            assert(json::entries_view(entries@) =~= seq![
                ("type"@, JsonView::Str("text"@)),
                ("text"@, JsonView::Str(texts@[i as int]@)),
            ]);
            json::put_item(&mut parts, json::object(entries));
            i = i + 1;
        }
        json::array(parts)
    };
    json::put_item(out, plain("user", content));
    assert(json::list_view(out@) =~= before + user_messages(all));
}

fn convert_assistant(blocks: &Vec<ContentBlock>) -> (r: Json)
    ensures
        r@ == JsonView::Object(assistant_entries(message::blocks_view(blocks@))),
{
    proof {
        json::lemma_empty_views();
        reveal_strlit("");
        assert(""@ =~= Seq::<char>::empty());
    }
    let ghost all = message::blocks_view(blocks@);
    let texts = list_texts(blocks);
    let content = if texts.len() == 0 {
        Json::Null
    } else {
        let joined = text::join(&texts, "");
        Json::Str(joined)
    };
    let mut entries: Vec<(String, Json)> = Vec::new();
    json::put(&mut entries, "role", json::str_value("assistant"));
    json::put(&mut entries, "content", content);
    assert(json::entries_view(entries@) =~= seq![
        ("role"@, JsonView::Str("assistant"@)),
        ("content"@, content@),
    ]);
    let calls = list_calls(blocks);
    if calls.len() > 0 {
        json::put(&mut entries, "tool_calls", json::array(calls));
    }
    match find_thinking(blocks) {
        Some(t) => {
            json::put(&mut entries, "reasoning_content", Json::Str(t));
        },
        None => {},
    }
    assert(json::entries_view(entries@) =~= assistant_entries(all));
    json::object(entries)
}

/// Converts a conversation. A tool result that stands in a user message becomes a message of
/// its own, and the system prompt the first message.
pub fn convert_messages_to_openai(messages: &Vec<Message>, system_prompt: &Option<String>) -> (r:
    Vec<Json>)
    ensures
        json::list_view(r@) == converted_all(
            message::messages_view(messages@),
            json::opt_view(*system_prompt),
            messages@.len() as int,
        ),
{
    proof {
        json::lemma_empty_views();
    }
    let ghost all = message::messages_view(messages@);
    let ghost system = json::opt_view(*system_prompt);
    let mut out: Vec<Json> = Vec::new();
    match system_prompt {
        Some(s) => {
            json::put_item(&mut out, plain("system", json::str_value(s.as_str())));
            assert(json::list_view(out@) =~= converted_all(all, system, 0));
        },
        None => {},
    }
    let mut i: usize = 0;
    while i < messages.len()
        invariant
            i <= messages@.len(),
            all == message::messages_view(messages@),
            json::list_view(out@) == converted_all(all, system, i as int),
        decreases messages@.len() - i,
    {
        assert(all[i as int] == messages@[i as int]@);
        let ghost before = json::list_view(out@);
        match messages[i].role {
            Role::User => {
                convert_user(&messages[i].content, &mut out);
            },
            Role::Assistant => {
                let m = convert_assistant(&messages[i].content);
                let ghost mv = m@;
                json::put_item(&mut out, m);
                assert(json::list_view(out@) =~= before + seq![mv]);
            },
        }
        i = i + 1;
    }
    out
}

/// The most tokens of an answer where the request sets no limit: more where the model thinks,
/// since thinking counts.
pub open spec fn default_max_tokens(effort: Option<ThinkingEffort>) -> u64 {
    match effort {
        Some(e) => if e != ThinkingEffort::Off {
            16384
        } else {
            8192
        },
        None => 8192,
    }
}

pub open spec fn effort_name(effort: Option<ThinkingEffort>) -> Option<JsonView> {
    match effort {
        Some(ThinkingEffort::Low) => Some(JsonView::Str("low"@)),
        Some(ThinkingEffort::Medium) => Some(JsonView::Str("medium"@)),
        Some(ThinkingEffort::High) => Some(JsonView::Str("high"@)),
        _ => None,
    }
}

pub open spec fn tool_json(t: ToolDefinitionView) -> JsonView {
    JsonView::Object(
        seq![
            ("type"@, JsonView::Str("function"@)),
            (
                "function"@,
                JsonView::Object(
                    seq![
                        ("name"@, JsonView::Str(t.name)),
                        ("description"@, JsonView::Str(t.description)),
                        ("parameters"@, t.input_schema),
                    ],
                ),
            ),
        ],
    )
}

pub open spec fn base_entries(model: Seq<char>, messages: Seq<JsonView>, max_tokens: u64) -> Seq<
    (Seq<char>, JsonView),
> {
    seq![
        ("model"@, JsonView::Str(model)),
        ("messages"@, JsonView::Array(messages)),
        ("stream"@, JsonView::Bool(true)),
        ("max_tokens"@, json::nat_view(max_tokens)),
    ]
}

/// The body of a request. `temperature` is given as JSON.
pub open spec fn body_view(
    model: Seq<char>,
    messages: Seq<MessageView>,
    system_prompt: Option<Seq<char>>,
    max_tokens: Option<u32>,
    effort: Option<ThinkingEffort>,
    temperature: Option<JsonView>,
    tools: Option<Seq<ToolDefinitionView>>,
) -> JsonView {
    let max: u64 = match max_tokens {
        Some(n) => n as u64,
        None => default_max_tokens(effort),
    };
    let tool_list: Option<JsonView> = match tools {
        Some(ts) => Some(JsonView::Array(Seq::new(ts.len(), |i: int| tool_json(ts[i])))),
        None => None,
    };
    let base = base_entries(
        model,
        converted_all(messages, system_prompt, messages.len() as int),
        max,
    );
    JsonView::Object(
        crate::api::anthropic::with_entry(
            crate::api::anthropic::with_entry(
                crate::api::anthropic::with_entry(
                    base,
                    "reasoning_effort"@,
                    effort_name(effort),
                ),
                "temperature"@,
                temperature,
            ),
            "tools"@,
            tool_list,
        ),
    )
}

fn list_tools(tools: &Vec<ToolDefinition>) -> (r: Json)
    ensures
        r@ == JsonView::Array(
            Seq::new(tool::definitions_view(tools@).len(), |i: int| tool_json(tool::definitions_view(tools@)[i])),
        ),
{
    let ghost all = tool::definitions_view(tools@);
    let mut out: Vec<Json> = Vec::new();
    let mut i: usize = 0;
    while i < tools.len()
        invariant
            i <= tools@.len(),
            all == tool::definitions_view(tools@),
            json::list_view(out@) =~= Seq::new(i as nat, |k: int| tool_json(all[k])),
        decreases tools@.len() - i,
    {
        proof {
            json::lemma_empty_views();
        }
        assert(all[i as int] == tools@[i as int]@);
        let t = &tools[i];
        let mut function: Vec<(String, Json)> = Vec::new();
        json::put(&mut function, "name", json::str_value(t.name.as_str()));
        json::put(&mut function, "description", json::str_value(t.description.as_str()));
        json::put(&mut function, "parameters", t.input_schema.copy());
        assert(json::entries_view(function@) =~= seq![
            ("name"@, JsonView::Str(t.name@)),
            ("description"@, JsonView::Str(t.description@)),
            ("parameters"@, t.input_schema@),
        ]);
        let function = json::object(function);
        let mut entries: Vec<(String, Json)> = Vec::new();
        json::put(&mut entries, "type", json::str_value("function"));
        json::put(&mut entries, "function", function);
        assert(json::entries_view(entries@) =~= seq![
            ("type"@, JsonView::Str("function"@)),
            ("function"@, function@),
        ]);
        json::put_item(&mut out, json::object(entries));
        i = i + 1;
    }
    json::array(out)
}

/// Builds the body of a request.
pub fn request_body(
    model: &str,
    messages: &Vec<Message>,
    system_prompt: &Option<String>,
    max_tokens: Option<u32>,
    effort: Option<ThinkingEffort>,
    temperature: Option<Json>,
    tools: &Option<Vec<ToolDefinition>>,
) -> (r: Json)
    ensures
        r@ == body_view(
            model@,
            message::messages_view(messages@),
            json::opt_view(*system_prompt),
            max_tokens,
            effort,
            match temperature {
                Some(t) => Some(t@),
                None => None,
            },
            match *tools {
                Some(ts) => Some(tool::definitions_view(ts@)),
                None => None,
            },
        ),
{
    proof {
        json::lemma_empty_views();
    }
    let converted = convert_messages_to_openai(messages, system_prompt);
    let ghost cv = json::list_view(converted@);
    let max: u64 = match max_tokens {
        Some(n) => n as u64,
        None => match effort {
            Some(e) => if e != ThinkingEffort::Off {
                16384
            } else {
                8192
            },
            None => 8192,
        },
    };
    let mut entries: Vec<(String, Json)> = Vec::new();
    json::put(&mut entries, "model", json::str_value(model));
    json::put(&mut entries, "messages", json::array(converted));
    json::put(&mut entries, "stream", Json::Bool(true));
    json::put(&mut entries, "max_tokens", json::nat_value(max));
    assert(json::entries_view(entries@) =~= base_entries(model@, cv, max));
    match effort {
        Some(ThinkingEffort::Low) => {
            json::put(&mut entries, "reasoning_effort", json::str_value("low"));
        },
        Some(ThinkingEffort::Medium) => {
            json::put(&mut entries, "reasoning_effort", json::str_value("medium"));
        },
        Some(ThinkingEffort::High) => {
            json::put(&mut entries, "reasoning_effort", json::str_value("high"));
        },
        _ => {},
    }
    match temperature {
        Some(t) => {
            json::put(&mut entries, "temperature", t);
        },
        None => {},
    }
    match tools {
        Some(ts) => {
            json::put(&mut entries, "tools", list_tools(ts));
        },
        None => {},
    }
    json::object(entries)
}

/// Where requests go.
pub fn request_url(base_url: &str) -> (r: String)
    ensures
        r@ == base_url@ + "/chat/completions"@,
{
    text::concat(base_url, "/chat/completions")
}

/// The value of the authorization header.
pub fn bearer(api_key: &str) -> (r: String)
    ensures
        r@ == "Bearer "@ + api_key@,
{
    text::concat("Bearer ", api_key)
}

} // verus!
