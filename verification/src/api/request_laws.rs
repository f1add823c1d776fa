//! What a request to a model says of what it was made from.
use crate::api::anthropic;
use crate::api::openai_request;
use crate::api::openai_request::assistant_entries;
use crate::api::openai_request::body_view;
use crate::api::openai_request::calls_of;
use crate::api::openai_request::converted;
use crate::api::openai_request::converted_all;
use crate::api::openai_request::first_thinking;
use crate::api::openai_request::result_messages;
use crate::api::openai_request::texts_of;
use crate::api::openai_request::user_messages;
use crate::json;
use crate::json::lookup;
use crate::json::JsonView;
use crate::text;
use crate::tools;
use crate::types::config::ThinkingEffort;
use crate::types::message::BlockView;
use crate::types::message::MessageView;
use crate::types::message::Role;
use crate::types::message::ToolResultView;
use crate::types::message::ToolUseView;
use crate::types::tool::ToolDefinitionView;
use vstd::prelude::*;

verus! {

pub proof fn lemma_lookup_push(
    entries: Seq<(Seq<char>, JsonView)>,
    key: Seq<char>,
    value: JsonView,
    asked: Seq<char>,
)
    ensures
        lookup(entries.push((key, value)), asked) == (if key == asked {
            Some(value)
        } else {
            lookup(entries, asked)
        }),
{
    assert(entries.push((key, value)).drop_last() =~= entries);
}

proof fn lemma_with_entry(
    entries: Seq<(Seq<char>, JsonView)>,
    key: Seq<char>,
    value: Option<JsonView>,
    asked: Seq<char>,
)
    ensures
        lookup(anthropic::with_entry(entries, key, value), asked) == (if key == asked
            && value is Some {
            value
        } else {
            lookup(entries, asked)
        }),
{
    match value {
        Some(v) => {
            lemma_lookup_push(entries, key, v, asked);
        },
        None => {},
    }
}

/// The names of the members of a request are different.
proof fn lemma_body_keys()
    ensures
        ({
            let keys = seq![
                "model"@,
                "messages"@,
                "stream"@,
                "max_tokens"@,
                "reasoning_effort"@,
                "temperature"@,
                "tools"@,
                "system"@,
            ];
            forall|i: int, j: int| 0 <= i < j < 8 ==> #[trigger] keys[i] != #[trigger] keys[j]
        }),
{
    reveal_strlit("model");
    reveal_strlit("messages");
    reveal_strlit("stream");
    reveal_strlit("max_tokens");
    reveal_strlit("reasoning_effort");
    reveal_strlit("temperature");
    reveal_strlit("tools");
    reveal_strlit("system");
    let keys = seq![
        "model"@,
        "messages"@,
        "stream"@,
        "max_tokens"@,
        "reasoning_effort"@,
        "temperature"@,
        "tools"@,
        "system"@,
    ];
    assert forall|i: int, j: int| 0 <= i < j < 8 implies #[trigger] keys[i] != #[trigger] keys[j] by {
        if keys[i] == keys[j] {
            assert(keys[i].len() == keys[j].len());
            assert(keys[i][0] == keys[j][0]);
            assert(keys[i][1] == keys[j][1]);
        }
    }
}

proof fn lemma_four(
    a: (Seq<char>, JsonView),
    b: (Seq<char>, JsonView),
    c: (Seq<char>, JsonView),
    d: (Seq<char>, JsonView),
    asked: Seq<char>,
)
    ensures
        lookup(seq![a, b, c, d], asked) == (if d.0 == asked {
            Some(d.1)
        } else if c.0 == asked {
            Some(c.1)
        } else if b.0 == asked {
            Some(b.1)
        } else if a.0 == asked {
            Some(a.1)
        } else {
            None
        }),
{
    lemma_three(a, b, c, asked);
    assert(seq![a, b, c, d].drop_last() =~= seq![a, b, c]);
}

proof fn lemma_three(
    a: (Seq<char>, JsonView),
    b: (Seq<char>, JsonView),
    c: (Seq<char>, JsonView),
    asked: Seq<char>,
)
    ensures
        lookup(seq![a, b, c], asked) == (if c.0 == asked {
            Some(c.1)
        } else if b.0 == asked {
            Some(b.1)
        } else if a.0 == asked {
            Some(a.1)
        } else {
            None
        }),
{
    lemma_two(a, b, asked);
    assert(seq![a, b, c].drop_last() =~= seq![a, b]);
}

proof fn lemma_two(a: (Seq<char>, JsonView), b: (Seq<char>, JsonView), asked: Seq<char>)
    ensures
        lookup(seq![a, b], asked) == (if b.0 == asked {
            Some(b.1)
        } else if a.0 == asked {
            Some(a.1)
        } else {
            None
        }),
{
    reveal_with_fuel(lookup, 3);
    assert(seq![a, b].drop_last() =~= seq![a]);
    assert(seq![a].drop_last() =~= Seq::empty());
}

proof fn lemma_body_member(
    model: Seq<char>,
    messages: Seq<MessageView>,
    system_prompt: Option<Seq<char>>,
    max_tokens: Option<u32>,
    effort: Option<ThinkingEffort>,
    temperature: Option<JsonView>,
    tools: Option<Seq<ToolDefinitionView>>,
    asked: Seq<char>,
)
    ensures
        ({
            let body = body_view(
                model,
                messages,
                system_prompt,
                max_tokens,
                effort,
                temperature,
                tools,
            );
            let e = body->Object_0;
            let list = match tools {
                Some(ts) => Some(
                    JsonView::Array(
                        Seq::new(ts.len(), |i: int| openai_request::tool_json(ts[i])),
                    ),
                ),
                None => None,
            };
            let all = converted_all(messages, system_prompt, messages.len() as int);
            body.member(asked) == (if asked == "tools"@ {
                list
            } else if asked == "temperature"@ {
                temperature
            } else if asked == "reasoning_effort"@ {
                openai_request::effort_name(effort)
            } else if asked == "model"@ {
                Some(JsonView::Str(model))
            } else if asked == "messages"@ {
                Some(JsonView::Array(all))
            } else if asked == "stream"@ {
                Some(JsonView::Bool(true))
            } else if asked == "max_tokens"@ {
                Some(
                    json::nat_view(
                        match max_tokens {
                            Some(n) => n as u64,
                            None => openai_request::default_max_tokens(effort),
                        },
                    ),
                )
            } else {
                None
            })
        }),
{
    lemma_body_keys();
    let keys = seq![
        "model"@,
        "messages"@,
        "stream"@,
        "max_tokens"@,
        "reasoning_effort"@,
        "temperature"@,
        "tools"@,
        "system"@,
    ];
    assert(forall|i: int, j: int| 0 <= i < j < 8 ==> #[trigger] keys[i] != #[trigger] keys[j]);
    assert(keys[0] == "model"@ && keys[1] == "messages"@ && keys[2] == "stream"@ && keys[3]
        == "max_tokens"@ && keys[4] == "reasoning_effort"@ && keys[5] == "temperature"@ && keys[6]
        == "tools"@);
    let max: u64 = match max_tokens {
        Some(n) => n as u64,
        None => openai_request::default_max_tokens(effort),
    };
    let all = converted_all(messages, system_prompt, messages.len() as int);
    let base = openai_request::base_entries(model, all, max);
    lemma_four(
        ("model"@, JsonView::Str(model)),
        ("messages"@, JsonView::Array(all)),
        ("stream"@, JsonView::Bool(true)),
        ("max_tokens"@, json::nat_view(max)),
        asked,
    );
    let a = anthropic::with_entry(
        base,
        "reasoning_effort"@,
        openai_request::effort_name(effort),
    );
    lemma_with_entry(base, "reasoning_effort"@, openai_request::effort_name(effort), asked);
    let b = anthropic::with_entry(a, "temperature"@, temperature);
    lemma_with_entry(a, "temperature"@, temperature, asked);
    let list = match tools {
        Some(ts) => Some(
            JsonView::Array(Seq::new(ts.len(), |i: int| openai_request::tool_json(ts[i]))),
        ),
        None => None,
    };
    lemma_with_entry(b, "tools"@, list, asked);
}

/// A request asks the model that it was made for, to stream, with the temperature that is given
/// and no other, with the limit that is given, and where none is given with one that is larger
/// where the model thinks; how hard the model thinks is said just where it thinks.
pub proof fn law_request_says_what_is_asked(
    model: Seq<char>,
    messages: Seq<MessageView>,
    system_prompt: Option<Seq<char>>,
    max_tokens: Option<u32>,
    effort: Option<ThinkingEffort>,
    temperature: Option<JsonView>,
    tools: Option<Seq<ToolDefinitionView>>,
)
    ensures
        ({
            let body = body_view(
                model,
                messages,
                system_prompt,
                max_tokens,
                effort,
                temperature,
                tools,
            );
            let thinks = effort is Some && effort != Some(ThinkingEffort::Off);
            &&& body.at("model"@).str_value() == Some(model)
            &&& body.at("stream"@).bool_value() == Some(true)
            &&& body.member("temperature"@) == temperature
            &&& max_tokens matches Some(n) ==> body.at("max_tokens"@).u64_value() == Some(n as u64)
            &&& max_tokens is None ==> body.at("max_tokens"@).u64_value() == Some(
                if thinks {
                    16384u64
                } else {
                    8192u64
                },
            )
            &&& body.member("reasoning_effort"@) is Some <==> thinks
            &&& effort == Some(ThinkingEffort::Low) ==> body.at("reasoning_effort"@).str_value()
                == Some("low"@)
            &&& effort == Some(ThinkingEffort::Medium) ==> body.at("reasoning_effort"@).str_value()
                == Some("medium"@)
            &&& effort == Some(ThinkingEffort::High) ==> body.at("reasoning_effort"@).str_value()
                == Some("high"@)
            &&& body.at("messages"@).items() == Some(
                converted_all(messages, system_prompt, messages.len() as int),
            )
            &&& body.member("tools"@) is Some <==> tools is Some
            &&& body.member("system"@) is None
        }),
{
    lemma_body_keys();
    let keys = seq![
        "model"@,
        "messages"@,
        "stream"@,
        "max_tokens"@,
        "reasoning_effort"@,
        "temperature"@,
        "tools"@,
        "system"@,
    ];
    assert(forall|i: int, j: int| 0 <= i < j < 8 ==> #[trigger] keys[i] != #[trigger] keys[j]);
    assert(keys[0] == "model"@ && keys[1] == "messages"@ && keys[2] == "stream"@ && keys[3]
        == "max_tokens"@ && keys[4] == "reasoning_effort"@ && keys[5] == "temperature"@ && keys[6]
        == "tools"@ && keys[7] == "system"@);
    lemma_body_member(
        model,
        messages,
        system_prompt,
        max_tokens,
        effort,
        temperature,
        tools,
        "model"@,
    );
    lemma_body_member(
        model,
        messages,
        system_prompt,
        max_tokens,
        effort,
        temperature,
        tools,
        "stream"@,
    );
    lemma_body_member(
        model,
        messages,
        system_prompt,
        max_tokens,
        effort,
        temperature,
        tools,
        "temperature"@,
    );
    lemma_body_member(
        model,
        messages,
        system_prompt,
        max_tokens,
        effort,
        temperature,
        tools,
        "max_tokens"@,
    );
    lemma_body_member(
        model,
        messages,
        system_prompt,
        max_tokens,
        effort,
        temperature,
        tools,
        "reasoning_effort"@,
    );
    lemma_body_member(
        model,
        messages,
        system_prompt,
        max_tokens,
        effort,
        temperature,
        tools,
        "messages"@,
    );
    lemma_body_member(
        model,
        messages,
        system_prompt,
        max_tokens,
        effort,
        temperature,
        tools,
        "tools"@,
    );
    lemma_body_member(
        model,
        messages,
        system_prompt,
        max_tokens,
        effort,
        temperature,
        tools,
        "system"@,
    );
}

/// Every tool is offered to the model at its place, as a function with the name, the description
/// and the schema of its definition.
pub proof fn law_tools_are_offered_as_defined(
    model: Seq<char>,
    messages: Seq<MessageView>,
    system_prompt: Option<Seq<char>>,
    max_tokens: Option<u32>,
    effort: Option<ThinkingEffort>,
    temperature: Option<JsonView>,
    tools: Seq<ToolDefinitionView>,
    i: int,
)
    requires
        0 <= i < tools.len(),
    ensures
        ({
            let body = body_view(
                model,
                messages,
                system_prompt,
                max_tokens,
                effort,
                temperature,
                Some(tools),
            );
            let offered = body.at("tools"@).items();
            &&& offered matches Some(list) && list.len() == tools.len()
            &&& offered->0[i].at("type"@).str_value() == Some("function"@)
            &&& offered->0[i].at("function"@).at("name"@).str_value() == Some(tools[i].name)
            &&& offered->0[i].at("function"@).at("description"@).str_value() == Some(
                tools[i].description,
            )
            &&& offered->0[i].at("function"@).at("parameters"@) == tools[i].input_schema
        }),
{
    lemma_body_member(
        model,
        messages,
        system_prompt,
        max_tokens,
        effort,
        temperature,
        Some(tools),
        "tools"@,
    );
    let t = tools[i];
    reveal_strlit("type");
    reveal_strlit("function");
    reveal_strlit("name");
    reveal_strlit("description");
    reveal_strlit("parameters");
    let f = JsonView::Object(
        seq![
            ("name"@, JsonView::Str(t.name)),
            ("description"@, JsonView::Str(t.description)),
            ("parameters"@, t.input_schema),
        ],
    );
    lemma_two(("type"@, JsonView::Str("function"@)), ("function"@, f), "type"@);
    lemma_two(("type"@, JsonView::Str("function"@)), ("function"@, f), "function"@);
    lemma_three(
        ("name"@, JsonView::Str(t.name)),
        ("description"@, JsonView::Str(t.description)),
        ("parameters"@, t.input_schema),
        "name"@,
    );
    lemma_three(
        ("name"@, JsonView::Str(t.name)),
        ("description"@, JsonView::Str(t.description)),
        ("parameters"@, t.input_schema),
        "description"@,
    );
    lemma_three(
        ("name"@, JsonView::Str(t.name)),
        ("description"@, JsonView::Str(t.description)),
        ("parameters"@, t.input_schema),
        "parameters"@,
    );
    assert("type"@.len() == 4 && "function"@.len() == 8);
    assert("name"@.len() == 4 && "description"@.len() == 11 && "parameters"@.len() == 10);
}

/// The names that the model is offered are the names under which the registry finds the tools:
/// a call by the name at place `i` finds the tool at place `i`.
pub proof fn law_offered_tools_are_found(
    model: Seq<char>,
    messages: Seq<MessageView>,
    tools: Seq<ToolDefinitionView>,
    i: int,
)
    requires
        0 <= i < tools.len(),
        tools::names_once(tools),
    ensures
        ({
            let body = body_view(model, messages, None, None, None, None, Some(tools));
            let name = body.at("tools"@).items()->0[i].at("function"@).at("name"@).str_value();
            name is Some && tools::place_of(tools, name->0, tools.len() as int) == Some(i)
        }),
{
    law_tools_are_offered_as_defined(model, messages, None, None, None, None, tools, i);
    tools::lemma_place(tools, tools[i].name, tools.len() as int);
    match tools::place_of(tools, tools[i].name, tools.len() as int) {
        Some(j) => {
            if j < i {
                assert(tools[j].name != tools[i].name);
            } else if i < j {
                assert(tools[i].name != tools[j].name);
            }
        },
        None => {
            assert(tools[i].name != tools[i].name);
        },
    }
}

proof fn lemma_prefix_texts(a: Seq<BlockView>, b: BlockView, n: int)
    requires
        0 <= n <= a.len(),
    ensures
        texts_of(a.push(b), n) == texts_of(a, n),
        result_messages(a.push(b), n) == result_messages(a, n),
        calls_of(a.push(b), n) == calls_of(a, n),
        first_thinking(a.push(b), n) == first_thinking(a, n),
    decreases n,
{
    if n > 0 {
        lemma_prefix_texts(a, b, n - 1);
        assert(a.push(b)[n - 1] == a[n - 1]);
    }
}

/// What one more block adds to a message: a text block its text, a call its call, a tool result
/// its result, and thinking only where none came before; no block adds to what is not of its
/// kind.
pub proof fn law_each_block_adds_its_own(blocks: Seq<BlockView>, b: BlockView)
    ensures
        ({
            let n = blocks.len() as int;
            let more = blocks.push(b);
            &&& texts_of(more, n + 1) == (match b {
                BlockView::Text(t) => texts_of(blocks, n).push(t),
                _ => texts_of(blocks, n),
            })
            &&& calls_of(more, n + 1).len() == calls_of(blocks, n).len() + (if b is ToolUse {
                1int
            } else {
                0
            })
            &&& result_messages(more, n + 1).len() == result_messages(blocks, n).len() + (if b is
                ToolResult {
                1int
            } else {
                0
            })
            &&& first_thinking(more, n + 1) == (match (first_thinking(blocks, n), b) {
                (None, BlockView::Thinking(t)) => Some(t),
                (first, _) => first,
            })
        }),
        texts_of(Seq::empty(), 0) == Seq::<Seq<char>>::empty(),
        first_thinking(Seq::empty(), 0) is None,
{
    lemma_prefix_texts(blocks, b, blocks.len() as int);
    assert(blocks.push(b)[blocks.len() as int] == b);
}

/// A tool result goes to the model as a message of a tool, with the id of the call that it
/// answers and what the tool said.
pub proof fn law_result_goes_to_its_call(blocks: Seq<BlockView>, tr: ToolResultView)
    ensures
        ({
            let sent = user_messages(blocks.push(BlockView::ToolResult(tr)));
            let last = sent[sent.len() - 1];
            &&& sent.len() > 0
            &&& last.at("role"@).str_value() == Some("tool"@)
            &&& last.at("tool_call_id"@).str_value() == Some(tr.tool_use_id)
            &&& last.at("content"@).str_value() == Some(tr.content)
        }),
{
    let more = blocks.push(BlockView::ToolResult(tr));
    lemma_prefix_texts(blocks, BlockView::ToolResult(tr), blocks.len() as int);
    assert(more[blocks.len() as int] == BlockView::ToolResult(tr));
    reveal_strlit("role");
    reveal_strlit("tool_call_id");
    reveal_strlit("content");
    let a = ("role"@, JsonView::Str("tool"@));
    let b = ("tool_call_id"@, JsonView::Str(tr.tool_use_id));
    let c = ("content"@, JsonView::Str(tr.content));
    lemma_three(a, b, c, "role"@);
    lemma_three(a, b, c, "tool_call_id"@);
    lemma_three(a, b, c, "content"@);
    assert("role"@.len() == 4 && "tool_call_id"@.len() == 12 && "content"@.len() == 7);
}

/// A user message of texts goes to the model as one message of the user with these texts: one
/// text as it is, several as parts in their order.
pub proof fn law_user_texts_are_sent(blocks: Seq<BlockView>)
    requires
        result_messages(blocks, blocks.len() as int).len() == 0,
    ensures
        ({
            let texts = texts_of(blocks, blocks.len() as int);
            let sent = user_messages(blocks);
            &&& sent.len() == (if texts.len() == 0 {
                0int
            } else {
                1
            })
            &&& texts.len() > 0 ==> sent[0].at("role"@).str_value() == Some("user"@)
            &&& texts.len() == 1 ==> sent[0].at("content"@).str_value() == Some(texts[0])
            &&& texts.len() > 1 ==> (sent[0].at("content"@).items() matches Some(parts)
                && parts.len() == texts.len() && forall|i: int|
                0 <= i < texts.len() ==> (#[trigger] parts[i]).at("type"@).str_value() == Some(
                    "text"@,
                ) && parts[i].at("text"@).str_value() == Some(texts[i]))
        }),
{
    let texts = texts_of(blocks, blocks.len() as int);
    reveal_strlit("role");
    reveal_strlit("content");
    reveal_strlit("type");
    reveal_strlit("text");
    assert("role"@.len() == 4 && "content"@.len() == 7);
    assert("type"@[1] == 'y' && "text"@[1] == 'e');
    let content = if texts.len() == 1 {
        JsonView::Str(texts[0])
    } else {
        JsonView::Array(Seq::new(texts.len(), |i: int| openai_request::text_part(texts[i])))
    };
    lemma_two(("role"@, JsonView::Str("user"@)), ("content"@, content), "role"@);
    lemma_two(("role"@, JsonView::Str("user"@)), ("content"@, content), "content"@);
    assert forall|i: int| 0 <= i < texts.len() implies (#[trigger] openai_request::text_part(
        texts[i],
    )).at("type"@).str_value() == Some("text"@) && openai_request::text_part(texts[i]).at(
        "text"@,
    ).str_value() == Some(texts[i]) by {
        lemma_two(
            ("type"@, JsonView::Str("text"@)),
            ("text"@, JsonView::Str(texts[i])),
            "type"@,
        );
        lemma_two(
            ("type"@, JsonView::Str("text"@)),
            ("text"@, JsonView::Str(texts[i])),
            "text"@,
        );
    }
    if texts.len() > 1 {
        let parts = user_messages(blocks)[0].at("content"@).items()->0;
        assert forall|i: int| 0 <= i < texts.len() implies (#[trigger] parts[i]).at(
            "type"@,
        ).str_value() == Some("text"@) && parts[i].at("text"@).str_value() == Some(texts[i]) by {
            assert(parts[i] == openai_request::text_part(texts[i]));
        }
    }
}

/// A call goes back to the model under the id that the model gave it, with the name of its tool
/// and the text of its input.
pub proof fn law_call_goes_back_as_it_came(blocks: Seq<BlockView>, u: ToolUseView)
    ensures
        ({
            let calls = calls_of(
                blocks.push(BlockView::ToolUse(u)),
                blocks.len() as int + 1,
            );
            let last = calls[calls.len() - 1];
            &&& calls.len() > 0
            &&& last.at("id"@).str_value() == Some(u.id)
            &&& last.at("type"@).str_value() == Some("function"@)
            &&& last.at("function"@).at("name"@).str_value() == Some(u.name)
            &&& last.at("function"@).at("arguments"@).str_value() == Some(
                json::text_of_json(JsonView::Object(u.input)),
            )
        }),
{
    let more = blocks.push(BlockView::ToolUse(u));
    lemma_prefix_texts(blocks, BlockView::ToolUse(u), blocks.len() as int);
    assert(more[blocks.len() as int] == BlockView::ToolUse(u));
    reveal_strlit("id");
    reveal_strlit("type");
    reveal_strlit("function");
    reveal_strlit("name");
    reveal_strlit("arguments");
    assert("id"@.len() == 2 && "type"@.len() == 4 && "function"@.len() == 8);
    assert("name"@.len() == 4 && "arguments"@.len() == 9);
    let n = ("name"@, JsonView::Str(u.name));
    let g = ("arguments"@, JsonView::Str(json::text_of_json(JsonView::Object(u.input))));
    let a = ("id"@, JsonView::Str(u.id));
    let b = ("type"@, JsonView::Str("function"@));
    let c = ("function"@, JsonView::Object(seq![n, g]));
    lemma_three(a, b, c, "id"@);
    lemma_three(a, b, c, "type"@);
    lemma_three(a, b, c, "function"@);
    lemma_two(n, g, "name"@);
    lemma_two(n, g, "arguments"@);
}

proof fn lemma_assistant_keys()
    ensures
        "role"@ != "content"@,
        "role"@ != "tool_calls"@,
        "role"@ != "reasoning_content"@,
        "content"@ != "tool_calls"@,
        "content"@ != "reasoning_content"@,
        "tool_calls"@ != "reasoning_content"@,
{
    reveal_strlit("role");
    reveal_strlit("content");
    reveal_strlit("tool_calls");
    reveal_strlit("reasoning_content");
    assert("role"@.len() == 4 && "content"@.len() == 7 && "tool_calls"@.len() == 10
        && "reasoning_content"@.len() == 17);
}

/// An answer goes back to the model as one message of the assistant: all its texts joined, or
/// nothing where it has none; its calls where it has any, and its first thinking where it has
/// any.
pub proof fn law_answer_goes_back_as_it_came(m: MessageView)
    requires
        m.role == Role::Assistant,
    ensures
        ({
            let n = m.content.len() as int;
            let texts = texts_of(m.content, n);
            let sent = converted(m);
            &&& sent.len() == 1
            &&& sent[0].at("role"@).str_value() == Some("assistant"@)
            &&& texts.len() == 0 ==> sent[0].member("content"@) == Some(JsonView::Null)
            &&& texts.len() > 0 ==> sent[0].at("content"@).str_value() == Some(
                text::joined(texts, Seq::empty()),
            )
            &&& sent[0].at("tool_calls"@).items() == (if calls_of(m.content, n).len() > 0 {
                Some(calls_of(m.content, n))
            } else {
                None
            })
            &&& sent[0].at("reasoning_content"@).str_value() == first_thinking(m.content, n)
        }),
{
    let n = m.content.len() as int;
    let texts = texts_of(m.content, n);
    let calls = calls_of(m.content, n);
    lemma_assistant_keys();
    let content = if texts.len() == 0 {
        JsonView::Null
    } else {
        JsonView::Str(text::joined(texts, Seq::empty()))
    };
    let a = ("role"@, JsonView::Str("assistant"@));
    let b = ("content"@, content);
    let base = seq![a, b];
    let with_calls = if calls.len() > 0 {
        base.push(("tool_calls"@, JsonView::Array(calls)))
    } else {
        base
    };
    let keys = seq!["role"@, "content"@, "tool_calls"@, "reasoning_content"@];
    assert forall|i: int| 0 <= i < 4 implies lookup(
        assistant_entries(m.content),
        #[trigger] keys[i],
    ) == (if i == 3 {
        match first_thinking(m.content, n) {
            Some(t) => Some(JsonView::Str(t)),
            None => None,
        }
    } else if i == 2 {
        if calls.len() > 0 {
            Some(JsonView::Array(calls))
        } else {
            None
        }
    } else if i == 1 {
        Some(content)
    } else {
        Some(a.1)
    }) by {
        let key = keys[i];
        lemma_two(a, b, key);
        lemma_lookup_push(base, "tool_calls"@, JsonView::Array(calls), key);
        match first_thinking(m.content, n) {
            Some(t) => {
                lemma_lookup_push(with_calls, "reasoning_content"@, JsonView::Str(t), key);
            },
            None => {},
        }
    }
    assert(keys[0] == "role"@ && keys[1] == "content"@ && keys[2] == "tool_calls"@ && keys[3]
        == "reasoning_content"@);
}

/// The other interface is asked in the same terms: the model, the messages as they are given, the
/// system prompt as a member of its own, the temperature, and a limit.
pub proof fn law_anthropic_request_says_what_is_asked(
    model: Seq<char>,
    messages: JsonView,
    max_tokens: Option<u32>,
    system_prompt: Option<Seq<char>>,
    temperature: Option<JsonView>,
)
    ensures
        ({
            let body = anthropic::body_view(
                model,
                messages,
                max_tokens,
                system_prompt,
                temperature,
            );
            &&& body.at("model"@).str_value() == Some(model)
            &&& body.member("messages"@) == Some(messages)
            &&& body.at("stream"@).bool_value() == Some(true)
            &&& body.at("system"@).str_value() == system_prompt
            &&& body.member("temperature"@) == temperature
            &&& body.at("max_tokens"@).u64_value() == Some(
                match max_tokens {
                    Some(n) => n as u64,
                    None => 4096u64,
                },
            )
        }),
{
    lemma_body_keys();
    let keys = seq![
        "model"@,
        "messages"@,
        "stream"@,
        "max_tokens"@,
        "reasoning_effort"@,
        "temperature"@,
        "tools"@,
        "system"@,
    ];
    assert(forall|i: int, j: int| 0 <= i < j < 8 ==> #[trigger] keys[i] != #[trigger] keys[j]);
    assert(keys[0] == "model"@ && keys[1] == "messages"@ && keys[2] == "stream"@ && keys[3]
        == "max_tokens"@ && keys[5] == "temperature"@ && keys[7] == "system"@);
    let max: u64 = match max_tokens {
        Some(n) => n as u64,
        None => 4096,
    };
    let system: Option<JsonView> = match system_prompt {
        Some(s) => Some(JsonView::Str(s)),
        None => None,
    };
    let base = anthropic::base_entries(model, messages, max);
    let with_system = anthropic::with_entry(base, "system"@, system);
    let all = anthropic::with_entry(with_system, "temperature"@, temperature);
    assert forall|i: int| 0 <= i < 8 implies lookup(all, #[trigger] keys[i]) == (if i == 5 {
        temperature
    } else if i == 7 {
        system
    } else if i == 0 {
        Some(JsonView::Str(model))
    } else if i == 1 {
        Some(messages)
    } else if i == 2 {
        Some(JsonView::Bool(true))
    } else if i == 3 {
        Some(json::nat_view(max))
    } else {
        None
    }) by {
        lemma_four(
            ("model"@, JsonView::Str(model)),
            ("messages"@, messages),
            ("max_tokens"@, json::nat_view(max)),
            ("stream"@, JsonView::Bool(true)),
            keys[i],
        );
        lemma_with_entry(base, "system"@, system, keys[i]);
        lemma_with_entry(with_system, "temperature"@, temperature, keys[i]);
    }
}

} // verus!
