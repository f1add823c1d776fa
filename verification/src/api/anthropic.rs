//! The message stream of the Anthropic interface.
use crate::api;
use crate::api::ApiCompletion;
use crate::api::ApiEvent;
use crate::api::ApiEventView;
use crate::api::CompletionView;
use crate::api::FinishReason;
use crate::api::FinishView;
use crate::api::Usage;
use crate::api::MAX_CONSECUTIVE_ERRORS;
use crate::json;
use crate::json::Json;
use crate::json::JsonView;
use crate::text;
use crate::types::message;
use crate::types::message::BlockView;
use crate::types::message::ContentBlock;
use crate::types::message::Message;
use crate::types::message::MessageView;
use crate::types::message::Role;
use crate::types::message::ToolUseBlock;
use crate::types::message::ToolUseView;
use vstd::prelude::*;

verus! {

/// The block that is being received.
#[derive(Debug)]
pub enum BlockState {
    Thinking { text: String },
    Text { text: String },
    ToolUse { id: String, name: String, partial_input: String },
}

#[verifier::ext_equal]
pub enum BlockStateView {
    Thinking(Seq<char>),
    Text(Seq<char>),
    ToolUse(Seq<char>, Seq<char>, Seq<char>),
}

impl View for BlockState {
    type V = BlockStateView;

    open spec fn view(&self) -> BlockStateView {
        match *self {
            BlockState::Thinking { text } => BlockStateView::Thinking(text@),
            BlockState::Text { text } => BlockStateView::Text(text@),
            BlockState::ToolUse { id, name, partial_input } => BlockStateView::ToolUse(
                id@,
                name@,
                partial_input@,
            ),
        }
    }
}

/// How far a stream has come.
#[derive(Debug)]
pub struct AnthropicStream {
    pub current_block: Option<BlockState>,
    pub content_blocks: Vec<ContentBlock>,
    pub prompt_tokens: u32,
    pub completion_tokens: u32,
    pub finish_reason: FinishReason,
    pub consecutive_errors: u32,
}

#[verifier::ext_equal]
pub struct StreamView {
    pub current_block: Option<BlockStateView>,
    pub content_blocks: Seq<BlockView>,
    pub prompt_tokens: u32,
    pub completion_tokens: u32,
    pub finish_reason: FinishView,
    pub consecutive_errors: u32,
}

impl View for AnthropicStream {
    type V = StreamView;

    open spec fn view(&self) -> StreamView {
        StreamView {
            current_block: match self.current_block {
                Some(b) => Some(b@),
                None => None,
            },
            content_blocks: message::blocks_view(self.content_blocks@),
            prompt_tokens: self.prompt_tokens,
            completion_tokens: self.completion_tokens,
            finish_reason: self.finish_reason@,
            consecutive_errors: self.consecutive_errors,
        }
    }
}

/// A count of tokens: the low 32 bits of the number, or none where it is missing.
pub open spec fn token_count(v: JsonView) -> u32 {
    match v.u64_value() {
        Some(n) => n as u32,
        None => 0,
    }
}

/// The text under `key`, or the empty text.
pub open spec fn text_or_empty(v: JsonView, key: Seq<char>) -> Seq<char> {
    match v.at(key).str_value() {
        Some(s) => s,
        None => Seq::empty(),
    }
}

/// The beginning of a message: it tells how long the prompt was.
pub open spec fn after_message_start(s: StreamView, data: JsonView) -> StreamView {
    match data.at("message"@).member("usage"@) {
        Some(usage) => StreamView {
            prompt_tokens: token_count(usage.at("input_tokens"@)),
            ..s
        },
        None => s,
    }
}

/// The beginning of a block.
pub open spec fn after_block_start(s: StreamView, data: JsonView) -> StreamView {
    let block = data.at("content_block"@);
    match block.at("type"@).str_value() {
        Some(kind) => if kind == "text"@ {
            StreamView { current_block: Some(BlockStateView::Text(Seq::empty())), ..s }
        } else if kind == "thinking"@ {
            StreamView { current_block: Some(BlockStateView::Thinking(Seq::empty())), ..s }
        } else if kind == "tool_use"@ {
            StreamView {
                current_block: Some(
                    BlockStateView::ToolUse(
                        text_or_empty(block, "id"@),
                        text_or_empty(block, "name"@),
                        Seq::empty(),
                    ),
                ),
                ..s
            }
        } else {
            s
        },
        None => s,
    }
}

/// More of a block. Text and thinking are handed on at once; they are kept only where the
/// block being received is of their kind.
pub open spec fn after_block_delta(s: StreamView, data: JsonView) -> (
    StreamView,
    Option<ApiEventView>,
) {
    let delta = data.at("delta"@);
    match delta.at("type"@).str_value() {
        Some(kind) => if kind == "text_delta"@ {
            match delta.at("text"@).str_value() {
                Some(t) => (
                    match s.current_block {
                        Some(BlockStateView::Text(acc)) => StreamView {
                            current_block: Some(BlockStateView::Text(acc + t)),
                            ..s
                        },
                        _ => s,
                    },
                    Some(ApiEventView::Text(t)),
                ),
                None => (s, None),
            }
        } else if kind == "thinking_delta"@ {
            match delta.at("thinking"@).str_value() {
                Some(t) => (
                    match s.current_block {
                        Some(BlockStateView::Thinking(acc)) => StreamView {
                            current_block: Some(BlockStateView::Thinking(acc + t)),
                            ..s
                        },
                        _ => s,
                    },
                    Some(ApiEventView::Thinking(t)),
                ),
                None => (s, None),
            }
        } else if kind == "input_json_delta"@ {
            match (delta.at("partial_json"@).str_value(), s.current_block) {
                (Some(t), Some(BlockStateView::ToolUse(id, name, acc))) => (
                    StreamView {
                        current_block: Some(BlockStateView::ToolUse(id, name, acc + t)),
                        ..s
                    },
                    None,
                ),
                _ => (s, None),
            }
        } else {
            (s, None)
        },
        None => (s, None),
    }
}

/// The end of a block: it joins the message, and a tool use is handed on.
pub open spec fn after_block_stop(s: StreamView) -> (StreamView, Option<ApiEventView>) {
    match s.current_block {
        Some(BlockStateView::Text(t)) => (
            StreamView {
                current_block: None,
                content_blocks: s.content_blocks.push(BlockView::Text(t)),
                ..s
            },
            None,
        ),
        Some(BlockStateView::Thinking(t)) => (
            StreamView {
                current_block: None,
                content_blocks: s.content_blocks.push(BlockView::Thinking(t)),
                ..s
            },
            None,
        ),
        Some(BlockStateView::ToolUse(id, name, partial)) => {
            let tool_use = ToolUseView { id, name, input: json::object_of_text(partial) };
            (
                StreamView {
                    current_block: None,
                    content_blocks: s.content_blocks.push(BlockView::ToolUse(tool_use)),
                    ..s
                },
                Some(ApiEventView::ToolUse(tool_use)),
            )
        },
        None => (s, None),
    }
}

/// The reason to stop that a text names.
pub open spec fn stop_reason(reason: Option<Seq<char>>) -> FinishView {
    match reason {
        Some(r) => if r == "end_turn"@ || r == "stop_sequence"@ {
            FinishView::Stop
        } else if r == "max_tokens"@ {
            FinishView::Length
        } else if r == "tool_use"@ {
            FinishView::ToolUse
        } else {
            FinishView::Error(r)
        },
        None => FinishView::Stop,
    }
}

/// Near the end of a message: how long the answer is, and why it stopped.
pub open spec fn after_message_delta(s: StreamView, data: JsonView) -> StreamView {
    StreamView {
        completion_tokens: match data.member("usage"@) {
            Some(usage) => token_count(usage.at("output_tokens"@)),
            None => s.completion_tokens,
        },
        finish_reason: match data.member("delta"@) {
            Some(delta) => stop_reason(delta.at("stop_reason"@).str_value()),
            None => s.finish_reason,
        },
        ..s
    }
}

/// The end of a message: all its blocks are handed on as the answer.
pub open spec fn after_message_stop(s: StreamView) -> (StreamView, Option<ApiEventView>) {
    (
        StreamView { content_blocks: Seq::empty(), ..s },
        Some(
            ApiEventView::Done(
                CompletionView {
                    message: MessageView { role: Role::Assistant, content: s.content_blocks },
                    finish_reason: s.finish_reason,
                    usage: Usage {
                        prompt_tokens: s.prompt_tokens as usize,
                        completion_tokens: s.completion_tokens as usize,
                    },
                },
            ),
        ),
    )
}

/// The stream after an event with the given data, and what is handed on.
pub open spec fn after_data(s: StreamView, event: Seq<char>, data: JsonView) -> (
    StreamView,
    Option<ApiEventView>,
) {
    if event == "message_start"@ {
        (after_message_start(s, data), None)
    } else if event == "content_block_start"@ {
        (after_block_start(s, data), None)
    } else if event == "content_block_delta"@ {
        after_block_delta(s, data)
    } else if event == "content_block_stop"@ {
        after_block_stop(s)
    } else if event == "message_delta"@ {
        (after_message_delta(s, data), None)
    } else if event == "message_stop"@ {
        after_message_stop(s)
    } else {
        (s, None)
    }
}

/// The stream after an event, and what is handed on. A heartbeat, and data that is no JSON, do
/// nothing but end a run of errors.
pub open spec fn after_event(s: StreamView, event: Seq<char>, data: Seq<char>) -> (
    StreamView,
    Option<ApiEventView>,
) {
    let s = StreamView { consecutive_errors: 0, ..s };
    if event == "ping"@ || data.len() == 0 {
        (s, None)
    } else {
        match json::json_of_text(data) {
            Some(v) => after_data(s, event, v),
            None => (s, None),
        }
    }
}

pub open spec fn handed_on(r: Option<ApiEvent>) -> Option<ApiEventView> {
    match r {
        Some(e) => Some(e@),
        None => None,
    }
}

/// The low 32 bits of a count, or zero.
pub(crate) fn read_tokens(v: Option<&Json>) -> (r: u32)
    ensures
        r == (match v {
            Some(j) => token_count(j@),
            None => 0,
        }),
{
    match v {
        Some(j) => match j.as_u64() {
            Some(n) => {
                #[verifier::truncate]
                (n as u32)
            },
            None => 0,
        },
        None => 0,
    }
}

fn read_text(v: &Json, key: &str) -> (r: String)
    ensures
        r@ == text_or_empty(v@, key@),
{
    match v.str_at(key) {
        Some(s) => s,
        None => String::new(),
    }
}

impl AnthropicStream {
    pub fn new() -> (r: Self)
        ensures
            r@ == (StreamView {
                current_block: None,
                content_blocks: Seq::empty(),
                prompt_tokens: 0,
                completion_tokens: 0,
                finish_reason: FinishView::Stop,
                consecutive_errors: 0,
            }),
    {
        let r = AnthropicStream {
            current_block: None,
            content_blocks: Vec::new(),
            prompt_tokens: 0,
            completion_tokens: 0,
            finish_reason: FinishReason::Stop,
            consecutive_errors: 0,
        };
        assert(r@.content_blocks =~= Seq::empty());
        r
    }

    fn on_message_start(&mut self, data: &Json)
        ensures
            final(self)@ == after_message_start(old(self)@, data@),
    {
        match data.get("message") {
            Some(msg) => match msg.get("usage") {
                Some(usage) => {
                    self.prompt_tokens = read_tokens(usage.get("input_tokens"));
                },
                None => {},
            },
            None => {},
        }
    }

    fn on_block_start(&mut self, data: &Json)
        ensures
            final(self)@ == after_block_start(old(self)@, data@),
    {
        match data.get("content_block") {
            Some(block) => match block.str_at("type") {
                Some(kind) => {
                    if text::same(kind.as_str(), "text") {
                        self.current_block = Some(BlockState::Text { text: String::new() });
                    } else if text::same(kind.as_str(), "thinking") {
                        self.current_block = Some(BlockState::Thinking { text: String::new() });
                    } else if text::same(kind.as_str(), "tool_use") {
                        self.current_block =
                        Some(
                            BlockState::ToolUse {
                                id: read_text(block, "id"),
                                name: read_text(block, "name"),
                                partial_input: String::new(),
                            },
                        );
                    }
                },
                None => {},
            },
            None => {},
        }
    }

    fn on_block_delta(&mut self, data: &Json) -> (r: Option<ApiEvent>)
        ensures
            (final(self)@, handed_on(r)) == after_block_delta(old(self)@, data@),
    {
        let delta = match data.get("delta") {
            Some(d) => d,
            None => {
                return None;
            },
        };
        let kind = match delta.str_at("type") {
            Some(k) => k,
            None => {
                return None;
            },
        };
        if text::same(kind.as_str(), "text_delta") {
            match delta.str_at("text") {
                Some(t) => {
                    match self.current_block.take() {
                        Some(BlockState::Text { text }) => {
                            let mut text = text;
                            text.push_str(t.as_str());
                            self.current_block = Some(BlockState::Text { text });
                        },
                        other => {
                            self.current_block = other;
                        },
                    }
                    Some(ApiEvent::Text(t))
                },
                None => None,
            }
        } else if text::same(kind.as_str(), "thinking_delta") {
            match delta.str_at("thinking") {
                Some(t) => {
                    match self.current_block.take() {
                        Some(BlockState::Thinking { text }) => {
                            let mut text = text;
                            text.push_str(t.as_str());
                            self.current_block = Some(BlockState::Thinking { text });
                        },
                        other => {
                            self.current_block = other;
                        },
                    }
                    Some(ApiEvent::Thinking(t))
                },
                None => None,
            }
        } else if text::same(kind.as_str(), "input_json_delta") {
            match delta.str_at("partial_json") {
                Some(t) => {
                    match self.current_block.take() {
                        Some(BlockState::ToolUse { id, name, partial_input }) => {
                            let mut partial_input = partial_input;
                            partial_input.push_str(t.as_str());
                            self.current_block =
                            Some(BlockState::ToolUse { id, name, partial_input });
                        },
                        other => {
                            self.current_block = other;
                        },
                    }
                    None
                },
                None => None,
            }
        } else {
            None
        }
    }

    fn push_block(&mut self, block: ContentBlock)
        ensures
            final(self)@ == (StreamView {
                content_blocks: old(self)@.content_blocks.push(block@),
                ..old(self)@
            }),
    {
        let ghost before = self@.content_blocks;
        let ghost b = block@;
        self.content_blocks.push(block);
        assert(self@.content_blocks =~= before.push(b));
    }

    fn on_block_stop(&mut self) -> (r: Option<ApiEvent>)
        ensures
            (final(self)@, handed_on(r)) == after_block_stop(old(self)@),
    {
        match self.current_block.take() {
            Some(BlockState::Text { text }) => {
                self.push_block(ContentBlock::from_text(text));
                None
            },
            Some(BlockState::Thinking { text }) => {
                self.push_block(ContentBlock::from_thinking(text));
                None
            },
            Some(BlockState::ToolUse { id, name, partial_input }) => {
                let input = json::parse_object(partial_input.as_str());
                let tool_use = ToolUseBlock { id, name, input };
                self.push_block(ContentBlock::ToolUse(tool_use.clone()));
                Some(ApiEvent::ToolUse(tool_use))
            },
            None => None,
        }
    }

    fn on_message_delta(&mut self, data: &Json)
        ensures
            final(self)@ == after_message_delta(old(self)@, data@),
    {
        match data.get("usage") {
            Some(usage) => {
                self.completion_tokens = read_tokens(usage.get("output_tokens"));
            },
            None => {},
        }
        match data.get("delta") {
            Some(delta) => {
                self.finish_reason =
                match delta.str_at("stop_reason") {
                    Some(r) => {
                        if text::same(r.as_str(), "end_turn") || text::same(
                            r.as_str(),
                            "stop_sequence",
                        ) {
                            FinishReason::Stop
                        } else if text::same(r.as_str(), "max_tokens") {
                            FinishReason::Length
                        } else if text::same(r.as_str(), "tool_use") {
                            FinishReason::ToolUse
                        } else {
                            FinishReason::Error(r)
                        }
                    },
                    None => FinishReason::Stop,
                };
            },
            None => {},
        }
    }

    fn on_message_stop(&mut self) -> (r: Option<ApiEvent>)
        ensures
            (final(self)@, handed_on(r)) == after_message_stop(old(self)@),
    {
        let mut blocks: Vec<ContentBlock> = Vec::new();
        std::mem::swap(&mut blocks, &mut self.content_blocks);
        assert(self@.content_blocks =~= Seq::empty());
        Some(
            ApiEvent::Done(
                ApiCompletion {
                    message: Message::new(Role::Assistant, blocks),
                    finish_reason: self.finish_reason.clone(),
                    usage: Usage {
                        prompt_tokens: self.prompt_tokens as usize,
                        completion_tokens: self.completion_tokens as usize,
                    },
                },
            ),
        )
    }

    /// Takes in the data of an event; gives what is to be handed on.
    pub fn on_data(&mut self, event: &str, data: &Json) -> (r: Option<ApiEvent>)
        ensures
            (final(self)@, handed_on(r)) == after_data(old(self)@, event@, data@),
    {
        if text::same(event, "message_start") {
            self.on_message_start(data);
            None
        } else if text::same(event, "content_block_start") {
            self.on_block_start(data);
            None
        } else if text::same(event, "content_block_delta") {
            self.on_block_delta(data)
        } else if text::same(event, "content_block_stop") {
            self.on_block_stop()
        } else if text::same(event, "message_delta") {
            self.on_message_delta(data);
            None
        } else if text::same(event, "message_stop") {
            self.on_message_stop()
        } else {
            None
        }
    }

    /// Takes in an event; gives what is to be handed on.
    pub fn on_event(&mut self, event: &str, data: &str) -> (r: Option<ApiEvent>)
        ensures
            (final(self)@, handed_on(r)) == after_event(old(self)@, event@, data@),
    {
        self.consecutive_errors = 0;
        if text::same(event, "ping") || text::char_count(data) == 0 {
            return None;
        }
        match json::parse_json(data) {
            Some(v) => self.on_data(event, &v),
            None => None,
        }
    }

    /// Takes in an event that could not be read; says whether the stream ends.
    pub fn on_error(&mut self) -> (r: bool)
        requires
            old(self).consecutive_errors < u32::MAX,
        ensures
            *final(self) == (AnthropicStream {
                consecutive_errors: (old(self).consecutive_errors + 1) as u32,
                ..*old(self)
            }),
            r == (old(self).consecutive_errors + 1 >= MAX_CONSECUTIVE_ERRORS),
    {
        self.consecutive_errors = self.consecutive_errors + 1;
        self.consecutive_errors >= MAX_CONSECUTIVE_ERRORS
    }
}

/// What every request says.
pub open spec fn base_entries(model: Seq<char>, messages: JsonView, max_tokens: u64) -> Seq<
    (Seq<char>, JsonView),
> {
    seq![
        ("model"@, JsonView::Str(model)),
        ("messages"@, messages),
        ("max_tokens"@, json::nat_view(max_tokens)),
        ("stream"@, JsonView::Bool(true)),
    ]
}

/// `entries` with one more, where there is a value for it.
pub open spec fn with_entry(
    entries: Seq<(Seq<char>, JsonView)>,
    key: Seq<char>,
    value: Option<JsonView>,
) -> Seq<(Seq<char>, JsonView)> {
    match value {
        Some(v) => entries.push((key, v)),
        None => entries,
    }
}

/// The body of a request. `messages` and `temperature` are given as JSON.
pub open spec fn body_view(
    model: Seq<char>,
    messages: JsonView,
    max_tokens: Option<u32>,
    system_prompt: Option<Seq<char>>,
    temperature: Option<JsonView>,
) -> JsonView {
    let max: u64 = match max_tokens {
        Some(n) => n as u64,
        None => 4096,
    };
    let system: Option<JsonView> = match system_prompt {
        Some(s) => Some(JsonView::Str(s)),
        None => None,
    };
    JsonView::Object(
        with_entry(
            with_entry(base_entries(model, messages, max), "system"@, system),
            "temperature"@,
            temperature,
        ),
    )
}

/// Builds the body of a request.
pub fn request_body(
    model: &str,
    messages: Json,
    max_tokens: Option<u32>,
    system_prompt: &Option<String>,
    temperature: Option<Json>,
) -> (r: Json)
    ensures
        r@ == body_view(
            model@,
            messages@,
            max_tokens,
            json::opt_view(*system_prompt),
            match temperature {
                Some(t) => Some(t@),
                None => None,
            },
        ),
{
    proof {
        json::lemma_empty_views();
    }
    let mut entries: Vec<(String, Json)> = Vec::new();
    json::put(&mut entries, "model", json::str_value(model));
    json::put(&mut entries, "messages", messages);
    let max: u64 = match max_tokens {
        Some(n) => n as u64,
        None => 4096,
    };
    json::put(&mut entries, "max_tokens", json::nat_value(max));
    json::put(&mut entries, "stream", Json::Bool(true));
    assert(json::entries_view(entries@) =~= base_entries(model@, messages@, max));
    match system_prompt {
        Some(s) => {
            json::put(&mut entries, "system", json::str_value(s.as_str()));
        },
        None => {},
    }
    match temperature {
        Some(t) => {
            json::put(&mut entries, "temperature", t);
        },
        None => {},
    }
    json::object(entries)
}

/// Where requests go.
pub fn request_url(base_url: &str) -> (r: String)
    ensures
        r@ == base_url@ + "/v1/messages"@,
{
    text::concat(base_url, "/v1/messages")
}

/// The stream after the first `n` deltas of a block, and all that was handed on.
pub open spec fn after_deltas(s: StreamView, deltas: Seq<JsonView>, n: int) -> (
    StreamView,
    Seq<ApiEventView>,
)
    decreases n,
{
    if n <= 0 {
        (s, Seq::empty())
    } else {
        let (before, sent) = after_deltas(s, deltas, n - 1);
        let (t, more) = after_block_delta(before, deltas[n - 1]);
        (
            t,
            match more {
                Some(e) => sent.push(e),
                None => sent,
            },
        )
    }
}

/// Whether `data` is a piece of text.
pub open spec fn text_piece(data: JsonView) -> bool {
    data.at("delta"@).at("type"@).str_value() == Some("text_delta"@) && data.at("delta"@).at(
        "text"@,
    ).str_value() is Some
}

/// Whether `data` is a piece of thinking.
pub open spec fn thinking_piece(data: JsonView) -> bool {
    data.at("delta"@).at("type"@).str_value() == Some("thinking_delta"@) && data.at("delta"@).at(
        "thinking"@,
    ).str_value() is Some
}

proof fn lemma_kinds_differ()
    ensures
        "text_delta"@ != "thinking_delta"@,
{
    reveal_strlit("text_delta");
    reveal_strlit("thinking_delta");
    assert("text_delta"@.len() != "thinking_delta"@.len());
}

proof fn lemma_text_pieces(s: StreamView, deltas: Seq<JsonView>, n: int)
    requires
        s.current_block == Some(BlockStateView::Text(Seq::empty())),
        0 <= n <= deltas.len(),
        forall|i: int| 0 <= i < n ==> text_piece(#[trigger] deltas[i]),
    ensures
        after_deltas(s, deltas, n).0 == (StreamView {
            current_block: Some(
                BlockStateView::Text(api::text_handed_on(after_deltas(s, deltas, n).1)),
            ),
            ..s
        }),
    decreases n,
{
    if n > 0 {
        lemma_text_pieces(s, deltas, n - 1);
        let (before, sent) = after_deltas(s, deltas, n - 1);
        let all = after_deltas(s, deltas, n).1;
        assert(text_piece(deltas[n - 1]));
        assert(all.drop_last() =~= sent);
    }
}

proof fn lemma_thinking_pieces(s: StreamView, deltas: Seq<JsonView>, n: int)
    requires
        s.current_block == Some(BlockStateView::Thinking(Seq::empty())),
        0 <= n <= deltas.len(),
        forall|i: int| 0 <= i < n ==> thinking_piece(#[trigger] deltas[i]),
    ensures
        after_deltas(s, deltas, n).0 == (StreamView {
            current_block: Some(
                BlockStateView::Thinking(api::thinking_handed_on(after_deltas(s, deltas, n).1)),
            ),
            ..s
        }),
    decreases n,
{
    if n > 0 {
        lemma_thinking_pieces(s, deltas, n - 1);
        lemma_kinds_differ();
        let (before, sent) = after_deltas(s, deltas, n - 1);
        let all = after_deltas(s, deltas, n).1;
        assert(thinking_piece(deltas[n - 1]));
        assert(all.drop_last() =~= sent);
    }
}

/// A block of text in the answer is what was handed on of it, piece by piece.
pub proof fn law_text_block_is_what_was_handed_on(s: StreamView, deltas: Seq<JsonView>)
    requires
        s.current_block == Some(BlockStateView::Text(Seq::empty())),
        forall|i: int| 0 <= i < deltas.len() ==> text_piece(#[trigger] deltas[i]),
    ensures
        ({
            let (t, sent) = after_deltas(s, deltas, deltas.len() as int);
            after_block_stop(t).0 == (StreamView {
                current_block: None,
                content_blocks: s.content_blocks.push(
                    BlockView::Text(api::text_handed_on(sent)),
                ),
                ..s
            })
        }),
{
    lemma_text_pieces(s, deltas, deltas.len() as int);
}

/// A block of thinking in the answer is what was handed on of it, piece by piece.
pub proof fn law_thinking_block_is_what_was_handed_on(s: StreamView, deltas: Seq<JsonView>)
    requires
        s.current_block == Some(BlockStateView::Thinking(Seq::empty())),
        forall|i: int| 0 <= i < deltas.len() ==> thinking_piece(#[trigger] deltas[i]),
    ensures
        ({
            let (t, sent) = after_deltas(s, deltas, deltas.len() as int);
            after_block_stop(t).0 == (StreamView {
                current_block: None,
                content_blocks: s.content_blocks.push(
                    BlockView::Thinking(api::thinking_handed_on(sent)),
                ),
                ..s
            })
        }),
{
    lemma_thinking_pieces(s, deltas, deltas.len() as int);
}

/// Whatever comes in, a tool use that is handed on joins the answer, and the blocks that are
/// there stay until the whole answer is handed on.
pub proof fn law_calls_handed_on_are_in_the_answer(
    s: StreamView,
    event: Seq<char>,
    data: JsonView,
)
    ensures
        ({
            let (t, sent) = after_data(s, event, data);
            match sent {
                Some(ApiEventView::ToolUse(u)) => t.content_blocks == s.content_blocks.push(
                    BlockView::ToolUse(u),
                ),
                Some(ApiEventView::Done(c)) => c.message.content == s.content_blocks,
                _ => s.content_blocks.is_prefix_of(t.content_blocks),
            }
        }),
{
}

} // verus!
