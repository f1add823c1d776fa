//! The completion stream of the OpenAI interface.
use crate::api;
use crate::api::anthropic;
use crate::api::ApiCompletion;
use crate::api::ApiEvent;
use crate::api::ApiEventView;
use crate::api::CompletionView;
use crate::api::FinishReason;
use crate::api::FinishView;
use crate::api::Usage;
use crate::api::MAX_CONSECUTIVE_ERRORS;
use crate::json;
use crate::json::Json;
use crate::json::JsonView;
use crate::text;
use crate::types::message;
use crate::types::message::BlockView;
use crate::types::message::ContentBlock;
use crate::types::message::Message;
use crate::types::message::MessageView;
use crate::types::message::Role;
use crate::types::message::ToolUseBlock;
use crate::types::message::ToolUseView;
use std::collections::HashMap;
use vstd::prelude::*;
use vstd::std_specs::iter::IteratorSpec;

verus! {

broadcast use vstd::std_specs::hash::group_hash_axioms;

/// What has come in of a tool call.
#[derive(Debug)]
pub struct ToolCallAcc {
    pub id: Option<String>,
    pub name: Option<String>,
    pub arguments: String,
    pub emitted: bool,
}

#[verifier::ext_equal]
pub struct AccView {
    pub id: Option<Seq<char>>,
    pub name: Option<Seq<char>>,
    pub arguments: Seq<char>,
    pub emitted: bool,
}

impl View for ToolCallAcc {
    type V = AccView;

    open spec fn view(&self) -> AccView {
        AccView {
            id: json::opt_view(self.id),
            name: json::opt_view(self.name),
            arguments: self.arguments@,
            emitted: self.emitted,
        }
    }
}

/// How far a stream has come. Tool calls are kept by their index in the answer.
#[derive(Debug)]
pub struct OpenAiStream {
    pub accumulated_text: Option<String>,
    pub accumulated_reasoning: Option<String>,
    pub tool_calls: HashMap<usize, ToolCallAcc>,
    pub active_tool_call_index: Option<usize>,
    pub content_blocks: Vec<ContentBlock>,
    pub prompt_tokens: u32,
    pub completion_tokens: u32,
    pub finish_reason: FinishReason,
    pub consecutive_errors: u32,
}

#[verifier::ext_equal]
pub struct OpenAiView {
    pub text: Option<Seq<char>>,
    pub reasoning: Option<Seq<char>>,
    pub calls: Map<usize, AccView>,
    pub active: Option<usize>,
    pub blocks: Seq<BlockView>,
    pub prompt_tokens: u32,
    pub completion_tokens: u32,
    pub finish_reason: FinishView,
    pub consecutive_errors: u32,
}

pub open spec fn calls_view(m: Map<usize, ToolCallAcc>) -> Map<usize, AccView> {
    Map::new(|k: usize| m.contains_key(k), |k: usize| m[k]@)
}

impl View for OpenAiStream {
    type V = OpenAiView;

    open spec fn view(&self) -> OpenAiView {
        OpenAiView {
            text: json::opt_view(self.accumulated_text),
            reasoning: json::opt_view(self.accumulated_reasoning),
            calls: calls_view(self.tool_calls@),
            active: self.active_tool_call_index,
            blocks: message::blocks_view(self.content_blocks@),
            prompt_tokens: self.prompt_tokens,
            completion_tokens: self.completion_tokens,
            finish_reason: self.finish_reason@,
            consecutive_errors: self.consecutive_errors,
        }
    }
}

/// An optional text with more behind it.
pub open spec fn grown(acc: Option<Seq<char>>, more: Seq<char>) -> Option<Seq<char>> {
    match acc {
        Some(t) => Some(t + more),
        None => Some(more),
    }
}

pub open spec fn nonempty(s: Option<Seq<char>>) -> Option<Seq<char>> {
    match s {
        Some(t) => if t.len() > 0 {
            Some(t)
        } else {
            None
        },
        None => None,
    }
}

/// The reason to stop that a text names.
pub open spec fn finish_of(reason: Seq<char>) -> FinishView {
    if reason == "stop"@ {
        FinishView::Stop
    } else if reason == "length"@ {
        FinishView::Length
    } else if reason == "tool_calls"@ {
        FinishView::ToolUse
    } else {
        FinishView::Error(reason)
    }
}

/// The index that a piece of a tool call belongs to.
pub open spec fn call_index(tc: JsonView) -> usize {
    match tc.at("index"@).u64_value() {
        Some(n) => n as usize,
        None => 0,
    }
}

/// A tool call with one more piece of it.
pub open spec fn call_grown(acc: AccView, tc: JsonView) -> AccView {
    let function = tc.at("function"@);
    AccView {
        id: match tc.at("id"@).str_value() {
            Some(id) => Some(id),
            None => acc.id,
        },
        name: match function.at("name"@).str_value() {
            Some(name) => Some(name),
            None => acc.name,
        },
        arguments: match function.at("arguments"@).str_value() {
            Some(args) => acc.arguments + args,
            None => acc.arguments,
        },
        emitted: acc.emitted,
    }
}

pub open spec fn new_call() -> AccView {
    AccView { id: None, name: None, arguments: Seq::empty(), emitted: false }
}

/// The tool calls with the first `n` pieces taken in.
pub open spec fn calls_grown(
    calls: Map<usize, AccView>,
    items: Seq<JsonView>,
    n: int,
) -> Map<usize, AccView>
    decreases n,
{
    if n <= 0 {
        calls
    } else {
        let before = calls_grown(calls, items, n - 1);
        let k = call_index(items[n - 1]);
        before.insert(
            k,
            call_grown(
                if before.contains_key(k) {
                    before[k]
                } else {
                    new_call()
                },
                items[n - 1],
            ),
        )
    }
}

pub open spec fn seen_indices(items: Seq<JsonView>) -> Seq<usize> {
    Seq::new(items.len(), |i: int| call_index(items[i]))
}

/// A finished tool call.
pub open spec fn tool_use_of(acc: AccView) -> ToolUseView {
    ToolUseView {
        id: match acc.id {
            Some(id) => id,
            None => Seq::empty(),
        },
        name: match acc.name {
            Some(name) => name,
            None => Seq::empty(),
        },
        input: json::object_of_text(acc.arguments),
    }
}

/// Whether the call with index `k` has an id and has not been handed on.
pub open spec fn waits(calls: Map<usize, AccView>, k: int) -> bool {
    &&& 0 <= k <= usize::MAX
    &&& calls.contains_key(k as usize)
    &&& !calls[k as usize].emitted
    &&& calls[k as usize].id is Some
}

/// The call that was being received where a chunk has nothing of it: it has ended.
pub open spec fn ended(s: OpenAiView, items: Seq<JsonView>) -> Option<usize> {
    match s.active {
        Some(a) => if !seen_indices(items).contains(a) && calls_grown(
            s.calls,
            items,
            items.len() as int,
        ).contains_key(a) {
            Some(a)
        } else {
            None
        },
        None => None,
    }
}

/// The tool calls of a chunk taken in. A call that has ended leaves the calls, and is handed on
/// where it has an id.
pub open spec fn after_calls(s: OpenAiView, items: Seq<JsonView>) -> (
    OpenAiView,
    Seq<ApiEventView>,
) {
    let calls = calls_grown(s.calls, items, items.len() as int);
    let seen = seen_indices(items);
    let active = if seen.len() > 0 {
        Some(seen.last())
    } else {
        None
    };
    match ended(s, items) {
        Some(a) => {
            let rest = OpenAiView { calls: calls.remove(a), active, ..s };
            if calls[a].id is Some {
                let tool_use = tool_use_of(calls[a]);
                (
                    OpenAiView { blocks: s.blocks.push(BlockView::ToolUse(tool_use)), ..rest },
                    seq![ApiEventView::ToolUse(tool_use)],
                )
            } else {
                (rest, Seq::empty())
            }
        },
        None => (OpenAiView { calls, active, ..s }, Seq::empty()),
    }
}

/// The calls from index `k` on that wait, in the order of their index.
pub open spec fn waiting_from(calls: Map<usize, AccView>, k: int) -> Seq<usize>
    decreases usize::MAX + 1 - k,
{
    if k > usize::MAX {
        Seq::empty()
    } else if waits(calls, k) {
        seq![k as usize] + waiting_from(calls, k + 1)
    } else {
        waiting_from(calls, k + 1)
    }
}

/// The tool uses of the calls with the given indices.
pub open spec fn uses_of(calls: Map<usize, AccView>, order: Seq<usize>) -> Seq<ToolUseView> {
    order.map_values(|k: usize| tool_use_of(calls[k]))
}

pub open spec fn use_blocks(uses: Seq<ToolUseView>) -> Seq<BlockView> {
    uses.map_values(|u: ToolUseView| BlockView::ToolUse(u))
}

pub open spec fn use_events(uses: Seq<ToolUseView>) -> Seq<ApiEventView> {
    uses.map_values(|u: ToolUseView| ApiEventView::ToolUse(u))
}

/// The calls after those below `k` that waited were handed on.
pub open spec fn calls_sent(calls: Map<usize, AccView>, k: int) -> Map<usize, AccView> {
    Map::new(
        |i: usize| calls.contains_key(i),
        |i: usize|
            if i < k && calls[i].id is Some {
                AccView { emitted: true, ..calls[i] }
            } else {
                calls[i]
            },
    )
}

/// Every call that waits is handed on, in the order of their index.
pub open spec fn flushed(s: OpenAiView, sent: Seq<ApiEventView>) -> (
    OpenAiView,
    Seq<ApiEventView>,
) {
    let uses = uses_of(s.calls, waiting_from(s.calls, 0));
    (
        OpenAiView {
            calls: calls_sent(s.calls, usize::MAX + 1),
            blocks: s.blocks + use_blocks(uses),
            ..s
        },
        sent + use_events(uses),
    )
}

/// Reasoning comes under one of two names.
pub open spec fn reasoning_of(delta: JsonView) -> Option<Seq<char>> {
    nonempty(
        (match delta.member("reasoning_content"@) {
            Some(v) => v,
            None => delta.at("reasoning"@),
        }).str_value(),
    )
}

/// What a chunk says apart from the answer itself.
pub open spec fn after_meta(s: OpenAiView, data: JsonView, choice: JsonView) -> OpenAiView {
    let reason = nonempty(choice.at("finish_reason"@).str_value());
    let with_reason = match reason {
        Some(r) => OpenAiView { finish_reason: finish_of(r), ..s },
        None => s,
    };
    match data.member("usage"@) {
        Some(usage) => OpenAiView {
            prompt_tokens: anthropic::token_count(usage.at("prompt_tokens"@)),
            completion_tokens: anthropic::token_count(usage.at("completion_tokens"@)),
            ..with_reason
        },
        None => with_reason,
    }
}

/// More text of the answer.
pub open spec fn after_content(s: OpenAiView, delta: JsonView) -> (OpenAiView, Seq<ApiEventView>) {
    match nonempty(delta.at("content"@).str_value()) {
        Some(t) => (
            OpenAiView { text: grown(s.text, t), ..s },
            seq![ApiEventView::Text(t)],
        ),
        None => (s, Seq::empty()),
    }
}

/// More reasoning.
pub open spec fn after_reasoning(s: OpenAiView, delta: JsonView) -> (
    OpenAiView,
    Seq<ApiEventView>,
) {
    match reasoning_of(delta) {
        Some(t) => (
            OpenAiView { reasoning: grown(s.reasoning, t), ..s },
            seq![ApiEventView::Thinking(t)],
        ),
        None => (s, Seq::empty()),
    }
}

/// More of the tool calls.
pub open spec fn after_call_delta(s: OpenAiView, delta: JsonView) -> (
    OpenAiView,
    Seq<ApiEventView>,
) {
    match delta.at("tool_calls"@).items() {
        Some(items) => after_calls(s, items),
        None => (s, Seq::empty()),
    }
}

/// The stream after the delta of a chunk, and what is handed on.
pub open spec fn after_delta(s: OpenAiView, delta: JsonView, all_called: bool) -> (
    OpenAiView,
    Seq<ApiEventView>,
) {
    let a = after_content(s, delta);
    let b = after_reasoning(a.0, delta);
    let c = after_call_delta(b.0, delta);
    let sent = a.1 + b.1 + c.1;
    if all_called {
        flushed(c.0, sent)
    } else {
        (c.0, sent)
    }
}

/// The stream after a chunk, and what is handed on.
pub open spec fn after_data(s: OpenAiView, data: JsonView) -> (OpenAiView, Seq<ApiEventView>) {
    match data.at("choices"@).items() {
        Some(choices) => if choices.len() == 0 {
            (s, Seq::empty())
        } else {
            let choice = choices[0];
            let m = after_meta(s, data, choice);
            match choice.member("delta"@) {
                Some(delta) => after_delta(
                    m,
                    delta,
                    choice.at("finish_reason"@).str_value() == Some("tool_calls"@),
                ),
                None => (m, Seq::empty()),
            }
        },
        None => (s, Seq::empty()),
    }
}

/// The stream after an event, what is handed on, and whether the stream ends.
pub open spec fn after_event(s: OpenAiView, data: Seq<char>) -> (
    OpenAiView,
    Seq<ApiEventView>,
    bool,
) {
    let s = OpenAiView { consecutive_errors: 0, ..s };
    if data == "[DONE]"@ {
        (s, Seq::empty(), true)
    } else if data.len() == 0 {
        (s, Seq::empty(), false)
    } else {
        match json::json_of_text(data) {
            Some(v) => {
                let (t, sent) = after_data(s, v);
                (t, sent, false)
            },
            None => (s, Seq::empty(), false),
        }
    }
}

/// The stream with its text and its reasoning joined to the answer.
pub open spec fn closed(s: OpenAiView) -> OpenAiView {
    let a = match s.text {
        Some(t) => OpenAiView { text: None, blocks: s.blocks.push(BlockView::Text(t)), ..s },
        None => s,
    };
    match a.reasoning {
        Some(t) => OpenAiView {
            reasoning: None,
            blocks: a.blocks.push(BlockView::Thinking(t)),
            ..a
        },
        None => a,
    }
}

/// What is handed on when the stream ends: the calls that wait, and the whole answer.
pub open spec fn finished(s: OpenAiView) -> (OpenAiView, Seq<ApiEventView>) {
    let (t, sent) = flushed(closed(s), Seq::empty());
    (
        OpenAiView { blocks: Seq::empty(), ..t },
        sent.push(
            ApiEventView::Done(
                CompletionView {
                    message: MessageView { role: Role::Assistant, content: t.blocks },
                    finish_reason: t.finish_reason,
                    usage: Usage {
                        prompt_tokens: t.prompt_tokens as usize,
                        completion_tokens: t.completion_tokens as usize,
                    },
                },
            ),
        ),
    )
}

fn read_index(tc: &Json) -> (r: usize)
    ensures
        r == call_index(tc@),
{
    match tc.u64_at("index") {
        Some(n) => {
            #[verifier::truncate]
            (n as usize)
        },
        None => 0,
    }
}

fn nonempty_str(s: Option<String>) -> (r: Option<String>)
    ensures
        json::opt_view(r) == nonempty(json::opt_view(s)),
{
    match s {
        Some(t) => {
            if text::char_count(t.as_str()) > 0 {
                Some(t)
            } else {
                None
            }
        },
        None => None,
    }
}

fn grow(acc: Option<String>, more: &str) -> (r: Option<String>)
    ensures
        json::opt_view(r) == grown(json::opt_view(acc), more@),
{
    match acc {
        Some(t) => {
            let mut t = t;
            t.push_str(more);
            Some(t)
        },
        None => Some(text::copy(more)),
    }
}

impl ToolCallAcc {
    fn new() -> (r: Self)
        ensures
            r@ == new_call(),
    {
        ToolCallAcc { id: None, name: None, arguments: String::new(), emitted: false }
    }

    fn take_in(&mut self, tc: &Json)
        ensures
            final(self)@ == call_grown(old(self)@, tc@),
    {
        match tc.str_at("id") {
            Some(id) => {
                self.id = Some(id);
            },
            None => {},
        }
        match tc.get("function") {
            Some(function) => {
                match function.str_at("name") {
                    Some(name) => {
                        self.name = Some(name);
                    },
                    None => {},
                }
                match function.str_at("arguments") {
                    Some(args) => {
                        self.arguments.push_str(args.as_str());
                    },
                    None => {},
                }
            },
            None => {},
        }
    }

    fn tool_use(&self) -> (r: ToolUseBlock)
        ensures
            r@ == tool_use_of(self@),
    {
        let id = match &self.id {
            Some(id) => id.clone(),
            None => String::new(),
        };
        let name = match &self.name {
            Some(name) => name.clone(),
            None => String::new(),
        };
        ToolUseBlock { id, name, input: json::parse_object(self.arguments.as_str()) }
    }
}

proof fn lemma_next_waiting(calls: Map<usize, AccView>, from: int, at: int, k: int)
    requires
        0 <= from <= at <= k,
        waits(calls, k),
        forall|j: int| from <= j < k ==> !waits(calls_sent(calls, from), j),
    ensures
        waiting_from(calls, at) == seq![k as usize] + waiting_from(calls, k + 1),
    decreases k - at,
{
    if at < k {
        assert(!waits(calls_sent(calls, from), at));
        assert(!waits(calls, at));
        lemma_next_waiting(calls, from, at + 1, k);
    }
}

/// Where none waits from `from` up to `to`, both leave the same calls.
proof fn lemma_sent_up_to(calls: Map<usize, AccView>, from: int, to: int)
    requires
        0 <= from <= to <= usize::MAX + 1,
        forall|j: int| from <= j < to ==> !waits(calls_sent(calls, from), j),
    ensures
        calls_sent(calls, from) == calls_sent(calls, to),
{
    let a = calls_sent(calls, from);
    let b = calls_sent(calls, to);
    assert forall|i: usize| a.contains_key(i) implies #[trigger] a[i] == b[i] by {
        if from <= i < to {
            assert(!waits(a, i as int));
            assert(a[i] =~= b[i]);
        }
    }
    assert(a =~= b);
}

proof fn lemma_none_waiting(calls: Map<usize, AccView>, from: int, at: int)
    requires
        0 <= from <= at,
        forall|j: int| from <= j ==> !waits(calls_sent(calls, from), j),
    ensures
        waiting_from(calls, at) == Seq::<usize>::empty(),
    decreases usize::MAX + 1 - at,
{
    if at <= usize::MAX {
        assert(!waits(calls_sent(calls, from), at));
        assert(!waits(calls, at));
        lemma_none_waiting(calls, from, at + 1);
    }
}

impl OpenAiStream {
    pub fn new() -> (r: Self)
        ensures
            r@ == (OpenAiView {
                text: None,
                reasoning: None,
                calls: Map::empty(),
                active: None,
                blocks: Seq::empty(),
                prompt_tokens: 0,
                completion_tokens: 0,
                finish_reason: FinishView::Stop,
                consecutive_errors: 0,
            }),
    {
        let r = OpenAiStream {
            accumulated_text: None,
            accumulated_reasoning: None,
            tool_calls: HashMap::new(),
            active_tool_call_index: None,
            content_blocks: Vec::new(),
            prompt_tokens: 0,
            completion_tokens: 0,
            finish_reason: FinishReason::Stop,
            consecutive_errors: 0,
        };
        assert(r@.calls =~= Map::empty());
        assert(r@.blocks =~= Seq::empty());
        r
    }

    fn push_block(&mut self, block: ContentBlock)
        ensures
            final(self)@ == (OpenAiView {
                blocks: old(self)@.blocks.push(block@),
                ..old(self)@
            }),
    {
        let ghost before = self@.blocks;
        let ghost b = block@;
        self.content_blocks.push(block);
        assert(self@.blocks =~= before.push(b));
        assert(self@.calls =~= old(self)@.calls);
    }

    fn send_tool_use(&mut self, tc: &ToolCallAcc, events: &mut Vec<ApiEvent>)
        ensures
            final(self)@ == (OpenAiView {
                blocks: old(self)@.blocks.push(BlockView::ToolUse(tool_use_of(tc@))),
                ..old(self)@
            }),
            api::events_view(final(events)@) == api::events_view(old(events)@).push(
                ApiEventView::ToolUse(tool_use_of(tc@)),
            ),
    {
        let tool_use = tc.tool_use();
        self.push_block(ContentBlock::ToolUse(tool_use.clone()));
        api::put_event(events, ApiEvent::ToolUse(tool_use));
    }

    /// The first call from index `from` on that waits.
    fn next_waiting(&self, from: u128) -> (r: Option<usize>)
        ensures
            match r {
                Some(k) => from <= k && waits(self@.calls, k as int) && forall|j: int|
                    from <= j < k ==> !waits(self@.calls, j),
                None => forall|j: int| from <= j ==> !waits(self@.calls, j),
            },
    {
        let mut first: Option<usize> = None;
        let keys = self.tool_calls.keys();
        let ghost all = keys.remaining().unref();
        assert(all.to_set() == self.tool_calls@.dom());
        for k in it: keys
            invariant
                it.seq().unref() == all,
                match first {
                    Some(k) => from <= k && waits(self@.calls, k as int) && forall|i: int|
                        0 <= i < it.index() && from <= #[trigger] all[i] && waits(
                            self@.calls,
                            all[i] as int,
                        ) ==> k <= all[i],
                    None => forall|i: int|
                        0 <= i < it.index() && from <= #[trigger] all[i] ==> !waits(
                            self@.calls,
                            all[i] as int,
                        ),
                },
        {
            let key: usize = *k;
            assert(all[it.index() as int] == key);
            match self.tool_calls.get(&key) {
                Some(tc) => {
                    assert(self@.calls[key] == tc@);
                    if from <= key as u128 && !tc.emitted && tc.id.is_some() {
                        match first {
                            Some(f) => {
                                if key < f {
                                    first = Some(key);
                                }
                            },
                            None => {
                                first = Some(key);
                            },
                        }
                    }
                },
                None => {},
            }
        }
        proof {
            assert forall|j: int| waits(self@.calls, j) implies exists|i: int|
                0 <= i < all.len() && #[trigger] all[i] == j by {
                assert(all.to_set().contains(j as usize));
                let i = choose|i: int| 0 <= i < all.len() && all[i] == j as usize;
                assert(all[i] == j);
            }
        }
        first
    }

    /// Hands on the calls that wait, in the order of their index.
    fn flush_ready_tool_calls(&mut self, events: &mut Vec<ApiEvent>)
        ensures
            (final(self)@, api::events_view(final(events)@)) == flushed(
                old(self)@,
                api::events_view(old(events)@),
            ),
    {
        let ghost s0 = self@;
        let ghost e0 = api::events_view(events@);
        let ghost mut done: Seq<usize> = Seq::empty();
        let mut from: u128 = 0;
        proof {
            assert(calls_sent(s0.calls, 0) =~= s0.calls);
            assert(use_blocks(uses_of(s0.calls, done)) =~= Seq::empty());
            assert(use_events(uses_of(s0.calls, done)) =~= Seq::empty());
            assert(waiting_from(s0.calls, 0) =~= done + waiting_from(s0.calls, 0));
            assert(s0.blocks =~= s0.blocks + Seq::<BlockView>::empty());
            assert(e0 =~= e0 + Seq::<ApiEventView>::empty());
        }
        loop
            invariant
                from <= usize::MAX + 1,
                s0 == old(self)@,
                e0 == api::events_view(old(events)@),
                waiting_from(s0.calls, 0) == done + waiting_from(s0.calls, from as int),
                self@ == (OpenAiView {
                    calls: calls_sent(s0.calls, from as int),
                    blocks: s0.blocks + use_blocks(uses_of(s0.calls, done)),
                    ..s0
                }),
                api::events_view(events@) == e0 + use_events(uses_of(s0.calls, done)),
            decreases usize::MAX + 1 - from,
        {
            let ghost s = self@;
            match self.next_waiting(from) {
                Some(key) => {
                    proof {
                        lemma_next_waiting(s0.calls, from as int, from as int, key as int);
                        lemma_sent_up_to(s0.calls, from as int, key as int);
                    }
                    match self.tool_calls.remove(&key) {
                        Some(tc) => {
                            assert(tc@ == s.calls[key]);
                            assert(tc@ == s0.calls[key]);
                            let mut tc = tc;
                            assert(self@.calls =~= s.calls.remove(key));
                            let ghost e = api::events_view(events@);
                            self.send_tool_use(&tc, events);
                            let ghost m = self.tool_calls@;
                            tc.emitted = true;
                            let ghost sent = tc@;
                            assert(sent =~= AccView { emitted: true, ..s.calls[key] });
                            self.tool_calls.insert(key, tc);
                            assert(self@.calls =~= calls_view(m).insert(key, sent));
                            proof {
                                let order = done.push(key);
                                assert(self@.calls =~= calls_sent(s0.calls, key + 1));
                                assert(use_blocks(uses_of(s0.calls, order)) =~= use_blocks(
                                    uses_of(s0.calls, done),
                                ).push(BlockView::ToolUse(tool_use_of(s0.calls[key]))));
                                assert(use_events(uses_of(s0.calls, order)) =~= use_events(
                                    uses_of(s0.calls, done),
                                ).push(ApiEventView::ToolUse(tool_use_of(s0.calls[key]))));
                                assert(self@.blocks =~= s0.blocks + use_blocks(
                                    uses_of(s0.calls, order),
                                ));
                                assert(api::events_view(events@) =~= e0 + use_events(
                                    uses_of(s0.calls, order),
                                ));
                                assert(done + waiting_from(s0.calls, from as int) =~= order
                                    + waiting_from(s0.calls, key + 1));
                                done = order;
                            }
                            from = key as u128 + 1;
                        },
                        None => {
                            return;
                        },
                    }
                },
                None => {
                    proof {
                        lemma_none_waiting(s0.calls, from as int, from as int);
                        assert(done + Seq::<usize>::empty() =~= done);
                        lemma_sent_up_to(s0.calls, from as int, usize::MAX + 1);
                    }
                    return;
                },
            }
        }
    }

    fn take_in_calls(&mut self, items: &Vec<Json>)
        ensures
            final(self)@ == (OpenAiView {
                calls: calls_grown(
                    old(self)@.calls,
                    json::list_view(items@),
                    items@.len() as int,
                ),
                ..old(self)@
            }),
    {
        let ghost s0 = self@;
        let ghost all = json::list_view(items@);
        let mut i: usize = 0;
        while i < items.len()
            invariant
                i <= items@.len(),
                all == json::list_view(items@),
                s0 == old(self)@,
                self@ == (OpenAiView { calls: calls_grown(s0.calls, all, i as int), ..s0 }),
            decreases items@.len() - i,
        {
            let ghost before = self@.calls;
            assert(all[i as int] == items@[i as int]@);
            let key: usize = read_index(&items[i]);
            let acc = match self.tool_calls.remove(&key) {
                Some(acc) => acc,
                None => ToolCallAcc::new(),
            };
            let mut acc = acc;
            acc.take_in(&items[i]);
            self.tool_calls.insert(key, acc);
            assert(self@.calls =~= calls_grown(s0.calls, all, i + 1));
            i = i + 1;
        }
    }

    fn on_calls(&mut self, items: &Vec<Json>, events: &mut Vec<ApiEvent>)
        ensures
            ({
                let (t, sent) = after_calls(old(self)@, json::list_view(items@));
                final(self)@ == t && api::events_view(final(events)@) == api::events_view(
                    old(events)@,
                ) + sent
            }),
    {
        let ghost all = json::list_view(items@);
        let ghost seen = seen_indices(all);
        self.take_in_calls(items);
        let ghost s1 = self@;
        let mut last: Option<usize> = None;
        let mut active_seen = false;
        let mut i: usize = 0;
        while i < items.len()
            invariant
                i <= items@.len(),
                all == json::list_view(items@),
                seen == seen_indices(all),
                last == (if i > 0 {
                    Some(seen[i - 1])
                } else {
                    None
                }),
                self@ == s1,
                match self.active_tool_call_index {
                    Some(a) => active_seen == exists|k: int| 0 <= k < i && seen[k] == a,
                    None => !active_seen,
                },
            decreases items@.len() - i,
        {
            assert(all[i as int] == items@[i as int]@);
            let key: usize = read_index(&items[i]);
            assert(seen[i as int] == key);
            match self.active_tool_call_index {
                Some(a) => {
                    if a == key {
                        active_seen = true;
                    }
                },
                None => {},
            }
            last = Some(key);
            i = i + 1;
        }
        match self.active_tool_call_index {
            Some(a) => {
                assert(active_seen == seen.contains(a));
                if !active_seen {
                    match self.tool_calls.remove(&a) {
                        Some(tc) => {
                            assert(self@.calls =~= s1.calls.remove(a));
                            assert(tc@ == s1.calls[a]);
                            if tc.id.is_some() {
                                let ghost e0 = api::events_view(events@);
                                self.send_tool_use(&tc, events);
                                assert(api::events_view(events@) =~= e0 + seq![
                                    ApiEventView::ToolUse(tool_use_of(tc@)),
                                ]);
                            }
                        },
                        None => {
                            assert(self@.calls =~= s1.calls);
                        },
                    }
                }
            },
            None => {},
        }
        self.active_tool_call_index = last;
        assert(api::events_view(events@) =~= api::events_view(old(events)@) + after_calls(
            old(self)@,
            all,
        ).1);
        assert(self@ =~= after_calls(old(self)@, all).0);
    }

    fn on_meta(&mut self, data: &Json, choice: &Json)
        ensures
            final(self)@ == after_meta(old(self)@, data@, choice@),
    {
        match nonempty_str(choice.str_at("finish_reason")) {
            Some(r) => {
                self.finish_reason =
                if text::same(r.as_str(), "stop") {
                    FinishReason::Stop
                } else if text::same(r.as_str(), "length") {
                    FinishReason::Length
                } else if text::same(r.as_str(), "tool_calls") {
                    FinishReason::ToolUse
                } else {
                    FinishReason::Error(r)
                };
            },
            None => {},
        }
        match data.get("usage") {
            Some(usage) => {
                self.prompt_tokens = anthropic::read_tokens(usage.get("prompt_tokens"));
                self.completion_tokens = anthropic::read_tokens(usage.get("completion_tokens"));
            },
            None => {},
        }
    }

    fn on_delta(&mut self, delta: &Json, all_called: bool) -> (r: Vec<ApiEvent>)
        ensures
            (final(self)@, api::events_view(r@)) == after_delta(old(self)@, delta@, all_called),
    {
        broadcast use json::lemma_array_view;

        let ghost s0 = self@;
        let mut events: Vec<ApiEvent> = Vec::new();
        assert(api::events_view(events@) =~= Seq::empty());
        match nonempty_str(delta.str_at("content")) {
            Some(t) => {
                let acc = self.accumulated_text.take();
                self.accumulated_text = grow(acc, t.as_str());
                api::put_event(&mut events, ApiEvent::Text(t));
            },
            None => {},
        }
        let ghost a = after_content(s0, delta@);
        assert(api::events_view(events@) =~= a.1);
        assert(self@ == a.0);
        let named = match delta.get("reasoning_content") {
            Some(v) => v.as_str(),
            None => delta.str_at("reasoning"),
        };
        match nonempty_str(named) {
            Some(t) => {
                let acc = self.accumulated_reasoning.take();
                self.accumulated_reasoning = grow(acc, t.as_str());
                api::put_event(&mut events, ApiEvent::Thinking(t));
            },
            None => {},
        }
        let ghost b = after_reasoning(a.0, delta@);
        assert(api::events_view(events@) =~= a.1 + b.1);
        assert(self@ == b.0);
        match delta.get("tool_calls") {
            Some(Json::Array(items)) => {
                self.on_calls(items, &mut events);
            },
            _ => {},
        }
        let ghost c = after_call_delta(b.0, delta@);
        assert(api::events_view(events@) =~= a.1 + b.1 + c.1);
        assert(self@ == c.0);
        if all_called {
            self.flush_ready_tool_calls(&mut events);
        }
        events
    }

    /// Takes in a chunk; gives what is to be handed on.
    pub fn on_data(&mut self, data: &Json) -> (r: Vec<ApiEvent>)
        ensures
            (final(self)@, api::events_view(r@)) == after_data(old(self)@, data@),
    {
        broadcast use json::lemma_array_view;

        let none: Vec<ApiEvent> = Vec::new();
        assert(api::events_view(none@) =~= Seq::empty());
        let choices = match data.get("choices") {
            Some(Json::Array(items)) => items,
            _ => {
                return none;
            },
        };
        if choices.len() == 0 {
            return none;
        }
        let choice = &choices[0];
        assert(json::list_view(choices@)[0] == choice@);
        self.on_meta(data, choice);
        let all_called = match choice.str_at("finish_reason") {
            Some(r) => text::same(r.as_str(), "tool_calls"),
            None => false,
        };
        match choice.get("delta") {
            Some(delta) => self.on_delta(delta, all_called),
            None => none,
        }
    }

    /// Takes in an event; gives what is to be handed on, and whether the stream ends.
    pub fn on_event(&mut self, data: &str) -> (r: (Vec<ApiEvent>, bool))
        ensures
            (final(self)@, api::events_view(r.0@), r.1) == after_event(old(self)@, data@),
    {
        let none: Vec<ApiEvent> = Vec::new();
        assert(api::events_view(none@) =~= Seq::empty());
        self.consecutive_errors = 0;
        if text::same(data, "[DONE]") {
            return (none, true);
        }
        if text::char_count(data) == 0 {
            return (none, false);
        }
        match json::parse_json(data) {
            Some(v) => (self.on_data(&v), false),
            None => (none, false),
        }
    }

    /// Takes in an event that could not be read; says whether the stream ends.
    pub fn on_error(&mut self) -> (r: bool)
        requires
            old(self).consecutive_errors < u32::MAX,
        ensures
            *final(self) == (OpenAiStream {
                consecutive_errors: (old(self).consecutive_errors + 1) as u32,
                ..*old(self)
            }),
            r == (old(self).consecutive_errors + 1 >= MAX_CONSECUTIVE_ERRORS),
    {
        self.consecutive_errors = self.consecutive_errors + 1;
        self.consecutive_errors >= MAX_CONSECUTIVE_ERRORS
    }

    /// Ends the stream; gives what is left to be handed on.
    pub fn finish(&mut self) -> (r: Vec<ApiEvent>)
        ensures
            (final(self)@, api::events_view(r@)) == finished(old(self)@),
    {
        let ghost s0 = self@;
        match self.accumulated_text.take() {
            Some(t) => {
                self.push_block(ContentBlock::from_text(t));
            },
            None => {},
        }
        match self.accumulated_reasoning.take() {
            Some(t) => {
                self.push_block(ContentBlock::from_thinking(t));
            },
            None => {},
        }
        assert(self@ =~= closed(s0));
        let mut events: Vec<ApiEvent> = Vec::new();
        assert(api::events_view(events@) =~= Seq::empty());
        self.flush_ready_tool_calls(&mut events);
        let mut blocks: Vec<ContentBlock> = Vec::new();
        std::mem::swap(&mut blocks, &mut self.content_blocks);
        assert(self@.blocks =~= Seq::empty());
        let completion = ApiCompletion {
            message: Message::new(Role::Assistant, blocks),
            finish_reason: self.finish_reason.clone(),
            usage: Usage {
                prompt_tokens: self.prompt_tokens as usize,
                completion_tokens: self.completion_tokens as usize,
            },
        };
        api::put_event(&mut events, ApiEvent::Done(completion));
        events
    }
}

/// The stream after the first `n` events, and all that was handed on until then.
pub open spec fn received(s: OpenAiView, data: Seq<Seq<char>>, n: int) -> (
    OpenAiView,
    Seq<ApiEventView>,
)
    decreases n,
{
    if n <= 0 {
        (s, Seq::empty())
    } else {
        let (before, sent) = received(s, data, n - 1);
        let (t, more, end) = after_event(before, data[n - 1]);
        (t, sent + more)
    }
}

/// The text of an optional text.
pub open spec fn some_text(t: Option<Seq<char>>) -> Seq<char> {
    match t {
        Some(t) => t,
        None => Seq::empty(),
    }
}

/// Whether `t` is `s` with what `sent` handed on taken in.
pub open spec fn takes_in(s: OpenAiView, sent: Seq<ApiEventView>, t: OpenAiView) -> bool {
    &&& some_text(t.text) == some_text(s.text) + api::text_handed_on(sent)
    &&& some_text(t.reasoning) == some_text(s.reasoning) + api::thinking_handed_on(sent)
    &&& t.blocks == s.blocks + api::calls_handed_on(sent)
}

proof fn lemma_takes_in_both(
    s: OpenAiView,
    a: Seq<ApiEventView>,
    m: OpenAiView,
    b: Seq<ApiEventView>,
    t: OpenAiView,
)
    requires
        takes_in(s, a, m),
        takes_in(m, b, t),
    ensures
        takes_in(s, a + b, t),
{
    api::lemma_handed_on_concat(a, b);
    assert(some_text(t.text) =~= some_text(s.text) + api::text_handed_on(a + b));
    assert(some_text(t.reasoning) =~= some_text(s.reasoning) + api::thinking_handed_on(a + b));
    assert(t.blocks =~= s.blocks + api::calls_handed_on(a + b));
}

proof fn lemma_takes_in_nothing(s: OpenAiView, t: OpenAiView)
    requires
        t.text == s.text,
        t.reasoning == s.reasoning,
        t.blocks == s.blocks,
    ensures
        takes_in(s, Seq::empty(), t),
{
    assert(some_text(s.text) + Seq::<char>::empty() =~= some_text(s.text));
    assert(some_text(s.reasoning) + Seq::<char>::empty() =~= some_text(s.reasoning));
    assert(s.blocks + Seq::<BlockView>::empty() =~= s.blocks);
}

proof fn lemma_uses_handed_on(uses: Seq<ToolUseView>)
    ensures
        api::calls_handed_on(use_events(uses)) == use_blocks(uses),
        api::text_handed_on(use_events(uses)) == Seq::<char>::empty(),
        api::thinking_handed_on(use_events(uses)) == Seq::<char>::empty(),
    decreases uses.len(),
{
    if uses.len() == 0 {
        assert(use_events(uses) =~= Seq::empty());
        assert(use_blocks(uses) =~= Seq::empty());
    } else {
        let rest = uses.drop_last();
        let e = ApiEventView::ToolUse(uses.last());
        lemma_uses_handed_on(rest);
        api::lemma_handed_on_one(e);
        api::lemma_handed_on_concat(use_events(rest), seq![e]);
        assert(use_events(uses) =~= use_events(rest) + seq![e]);
        assert(use_blocks(uses) =~= use_blocks(rest) + seq![BlockView::ToolUse(uses.last())]);
        assert(Seq::<char>::empty() + Seq::<char>::empty() =~= Seq::<char>::empty());
    }
}

proof fn lemma_flushed_takes_in(base: OpenAiView, s: OpenAiView, sent: Seq<ApiEventView>)
    requires
        takes_in(base, sent, s),
    ensures
        takes_in(base, flushed(s, sent).1, flushed(s, sent).0),
{
    let uses = uses_of(s.calls, waiting_from(s.calls, 0));
    lemma_uses_handed_on(uses);
    assert(some_text(s.text) + Seq::<char>::empty() =~= some_text(s.text));
    assert(some_text(s.reasoning) + Seq::<char>::empty() =~= some_text(s.reasoning));
    lemma_takes_in_both(base, sent, s, use_events(uses), flushed(s, sent).0);
}

proof fn lemma_calls_take_in(s: OpenAiView, delta: JsonView)
    ensures
        takes_in(s, after_call_delta(s, delta).1, after_call_delta(s, delta).0),
{
    let (t, sent) = after_call_delta(s, delta);
    if sent.len() == 0 {
        assert(sent =~= Seq::empty());
        lemma_takes_in_nothing(s, t);
    } else {
        api::lemma_handed_on_one(sent[0]);
        assert(sent =~= seq![sent[0]]);
        assert(some_text(s.text) + Seq::<char>::empty() =~= some_text(s.text));
        assert(some_text(s.reasoning) + Seq::<char>::empty() =~= some_text(s.reasoning));
        assert(t.blocks =~= s.blocks + api::calls_handed_on(sent));
    }
}

proof fn lemma_content_taken_in(s: OpenAiView, delta: JsonView)
    ensures
        takes_in(s, after_content(s, delta).1, after_content(s, delta).0),
{
    let (t, sent) = after_content(s, delta);
    match nonempty(delta.at("content"@).str_value()) {
        Some(x) => {
            api::lemma_handed_on_one(ApiEventView::Text(x));
            assert(some_text(t.text) =~= some_text(s.text) + x);
            assert(some_text(s.reasoning) + Seq::<char>::empty() =~= some_text(s.reasoning));
            assert(s.blocks + Seq::<BlockView>::empty() =~= s.blocks);
        },
        None => {
            lemma_takes_in_nothing(s, t);
        },
    }
}

proof fn lemma_reasoning_taken_in(s: OpenAiView, delta: JsonView)
    ensures
        takes_in(s, after_reasoning(s, delta).1, after_reasoning(s, delta).0),
{
    let (t, sent) = after_reasoning(s, delta);
    match reasoning_of(delta) {
        Some(x) => {
            api::lemma_handed_on_one(ApiEventView::Thinking(x));
            assert(some_text(t.reasoning) =~= some_text(s.reasoning) + x);
            assert(some_text(s.text) + Seq::<char>::empty() =~= some_text(s.text));
            assert(s.blocks + Seq::<BlockView>::empty() =~= s.blocks);
        },
        None => {
            lemma_takes_in_nothing(s, t);
        },
    }
}

proof fn lemma_delta_taken_in(s: OpenAiView, delta: JsonView, all_called: bool)
    ensures
        takes_in(
            s,
            after_delta(s, delta, all_called).1,
            after_delta(s, delta, all_called).0,
        ),
{
    let a = after_content(s, delta);
    let b = after_reasoning(a.0, delta);
    let c = after_call_delta(b.0, delta);
    lemma_content_taken_in(s, delta);
    lemma_reasoning_taken_in(a.0, delta);
    lemma_calls_take_in(b.0, delta);
    lemma_takes_in_both(s, a.1, a.0, b.1, b.0);
    lemma_takes_in_both(s, a.1 + b.1, b.0, c.1, c.0);
    if all_called {
        lemma_flushed_takes_in(s, c.0, a.1 + b.1 + c.1);
    }
}

proof fn lemma_event_taken_in(s: OpenAiView, data: Seq<char>)
    ensures
        takes_in(s, after_event(s, data).1, after_event(s, data).0),
{
    let quiet = OpenAiView { consecutive_errors: 0, ..s };
    lemma_takes_in_nothing(s, quiet);
    if data != "[DONE]"@ && data.len() > 0 {
        match json::json_of_text(data) {
            Some(v) => match v.at("choices"@).items() {
                Some(choices) => if choices.len() > 0 {
                    let choice = choices[0];
                    let m = after_meta(quiet, v, choice);
                    lemma_takes_in_nothing(s, m);
                    match choice.member("delta"@) {
                        Some(delta) => {
                            let all_called = choice.at("finish_reason"@).str_value() == Some(
                                "tool_calls"@,
                            );
                            let (t, sent) = after_delta(m, delta, all_called);
                            lemma_delta_taken_in(m, delta, all_called);
                            lemma_takes_in_both(s, Seq::empty(), m, sent, t);
                            assert(Seq::<ApiEventView>::empty() + sent =~= sent);
                        },
                        None => {},
                    }
                },
                None => {},
            },
            None => {},
        }
    }
}

proof fn lemma_all_taken_in(s: OpenAiView, data: Seq<Seq<char>>, n: int)
    requires
        0 <= n <= data.len(),
    ensures
        takes_in(s, received(s, data, n).1, received(s, data, n).0),
    decreases n,
{
    if n <= 0 {
        lemma_takes_in_nothing(s, s);
    } else {
        lemma_all_taken_in(s, data, n - 1);
        let (before, sent) = received(s, data, n - 1);
        let (t, more, end) = after_event(before, data[n - 1]);
        lemma_event_taken_in(before, data[n - 1]);
        lemma_takes_in_both(s, sent, before, more, t);
    }
}

/// What a whole stream hands on piece by piece is what the answer says at the end: the tool uses
/// in their order, the text and the reasoning that came before them, and behind those the tool
/// uses that were handed on last.
pub proof fn law_answer_is_what_was_handed_on(s: OpenAiView, data: Seq<Seq<char>>)
    requires
        s.text is None,
        s.reasoning is None,
        s.blocks.len() == 0,
    ensures
        ({
            let (t, sent) = received(s, data, data.len() as int);
            let (end, last) = finished(t);
            &&& last.len() > 0
            &&& last.last() matches ApiEventView::Done(c) && c.message.content
                == api::calls_handed_on(sent) + (if t.text is Some {
                seq![BlockView::Text(api::text_handed_on(sent))]
            } else {
                Seq::empty()
            }) + (if t.reasoning is Some {
                seq![BlockView::Thinking(api::thinking_handed_on(sent))]
            } else {
                Seq::empty()
            }) + api::calls_handed_on(last)
            &&& t.text is None ==> api::text_handed_on(sent).len() == 0
            &&& t.reasoning is None ==> api::thinking_handed_on(sent).len() == 0
        }),
{
    let (t, sent) = received(s, data, data.len() as int);
    lemma_all_taken_in(s, data, data.len() as int);
    assert(api::text_handed_on(sent) =~= some_text(t.text));
    assert(api::thinking_handed_on(sent) =~= some_text(t.reasoning));
    assert(api::calls_handed_on(sent) =~= t.blocks);
    let c = closed(t);
    let (f, flush) = flushed(c, Seq::empty());
    lemma_takes_in_nothing(c, c);
    lemma_flushed_takes_in(c, c, Seq::empty());
    let (end, last) = finished(t);
    let done = last.last();
    assert(last =~= flush + seq![done]);
    api::lemma_handed_on_concat(flush, seq![done]);
    api::lemma_handed_on_one(done);
    assert(api::calls_handed_on(last) =~= api::calls_handed_on(flush));
    let head = api::calls_handed_on(sent);
    let said = if t.text is Some {
        seq![BlockView::Text(api::text_handed_on(sent))]
    } else {
        Seq::empty()
    };
    let thought = if t.reasoning is Some {
        seq![BlockView::Thinking(api::thinking_handed_on(sent))]
    } else {
        Seq::empty()
    };
    assert(c.blocks =~= head + said + thought);
    assert(f.blocks =~= head + said + thought + api::calls_handed_on(last));
}

proof fn lemma_waiting_in_order(calls: Map<usize, AccView>, k: int)
    requires
        0 <= k,
    ensures
        forall|i: int|
            0 <= i < waiting_from(calls, k).len() ==> k <= #[trigger] waiting_from(calls, k)[i]
                && waits(calls, waiting_from(calls, k)[i] as int),
        forall|i: int, j: int|
            0 <= i < j < waiting_from(calls, k).len() ==> #[trigger] waiting_from(calls, k)[i]
                < #[trigger] waiting_from(calls, k)[j],
        forall|n: usize|
            k <= n && #[trigger] waits(calls, n as int) ==> waiting_from(calls, k).contains(n),
    decreases usize::MAX + 1 - k,
{
    if k <= usize::MAX {
        lemma_waiting_in_order(calls, k + 1);
        let rest = waiting_from(calls, k + 1);
        let all = waiting_from(calls, k);
        if waits(calls, k) {
            assert(all =~= seq![k as usize] + rest);
            assert forall|i: int| 0 <= i < all.len() implies k <= #[trigger] all[i] && waits(
                calls,
                all[i] as int,
            ) by {
                if i > 0 {
                    assert(all[i] == rest[i - 1]);
                }
            }
            assert forall|i: int, j: int| 0 <= i < j < all.len() implies #[trigger] all[i]
                < #[trigger] all[j] by {
                assert(all[j] == rest[j - 1]);
                if i > 0 {
                    assert(all[i] == rest[i - 1]);
                }
            }
            assert forall|n: usize| k <= n && #[trigger] waits(calls, n as int) implies all.contains(
                n,
            ) by {
                if n == k {
                    assert(all[0] == n);
                } else {
                    let i = choose|i: int| 0 <= i < rest.len() && rest[i] == n;
                    assert(all[i + 1] == n);
                }
            }
        }
    }
}

/// The calls that wait are handed on all at once, each of them and nothing else, in the order of
/// their index; none waits after that.
pub proof fn law_waiting_calls_go_in_order(s: OpenAiView)
    ensures
        ({
            let (t, sent) = flushed(s, Seq::empty());
            let order = waiting_from(s.calls, 0);
            &&& sent.len() == order.len()
            &&& forall|j: int|
                0 <= j < sent.len() ==> #[trigger] sent[j] == ApiEventView::ToolUse(
                    tool_use_of(s.calls[order[j]]),
                )
            &&& forall|i: int, j: int|
                0 <= i < j < order.len() ==> #[trigger] order[i] < #[trigger] order[j]
            &&& forall|n: usize| waits(s.calls, n as int) <==> #[trigger] order.contains(n)
            &&& forall|n: int| !(#[trigger] waits(t.calls, n))
        }),
{
    lemma_waiting_in_order(s.calls, 0);
    let order = waiting_from(s.calls, 0);
    assert forall|n: usize| waits(s.calls, n as int) <==> #[trigger] order.contains(n) by {
        if order.contains(n) {
            let i = choose|i: int| 0 <= i < order.len() && order[i] == n;
            assert(waits(s.calls, order[i] as int));
        }
    }
}

/// The delta of a chunk, and whether all calls of the answer have been made.
pub open spec fn told(data: Seq<char>) -> Option<(JsonView, bool)> {
    if data == "[DONE]"@ || data.len() == 0 {
        None
    } else {
        match json::json_of_text(data) {
            Some(v) => match v.at("choices"@).items() {
                Some(choices) => if choices.len() == 0 {
                    None
                } else {
                    match choices[0].member("delta"@) {
                        Some(delta) => Some(
                            (
                                delta,
                                choices[0].at("finish_reason"@).str_value() == Some("tool_calls"@),
                            ),
                        ),
                        None => None,
                    }
                },
                None => None,
            },
            None => None,
        }
    }
}

/// The pieces of tool calls in an event.
pub open spec fn pieces(data: Seq<char>) -> Seq<JsonView> {
    match told(data) {
        Some((delta, all_called)) => match delta.at("tool_calls"@).items() {
            Some(items) => items,
            None => Seq::empty(),
        },
        None => Seq::empty(),
    }
}

/// The calls with the pieces in an event.
pub open spec fn calls_with(s: OpenAiView, data: Seq<char>) -> Map<usize, AccView> {
    calls_grown(s.calls, pieces(data), pieces(data).len() as int)
}

/// Whether an event holds the id by which the call with index `k` comes to be one that waits.
pub open spec fn named_by(s: OpenAiView, data: Seq<char>, k: usize) -> bool {
    waits(calls_with(s, data), k as int) && !waits(s.calls, k as int)
}

/// The indices of the calls that an event hands on.
pub open spec fn handed_by(s: OpenAiView, data: Seq<char>) -> Seq<usize> {
    match told(data) {
        Some((delta, all_called)) => {
            let calls = calls_with(s, data);
            let (first, rest) = match delta.at("tool_calls"@).items() {
                Some(items) => match ended(s, items) {
                    Some(a) => (
                        if calls[a].id is Some {
                            seq![a]
                        } else {
                            Seq::empty()
                        },
                        calls.remove(a),
                    ),
                    None => (Seq::empty(), calls),
                },
                None => (Seq::empty(), calls),
            };
            first + (if all_called {
                waiting_from(rest, 0)
            } else {
                Seq::empty()
            })
        },
        None => Seq::empty(),
    }
}

/// Whether an event ends the call with index `k` after it was handed on with all others: it is
/// then handed on again.
pub open spec fn sent_again_by(s: OpenAiView, data: Seq<char>, k: usize) -> bool {
    let calls = calls_with(s, data);
    match told(data) {
        Some((delta, all_called)) => match delta.at("tool_calls"@).items() {
            Some(items) => ended(s, items) == Some(k) && calls[k].id is Some && calls[k].emitted,
            None => false,
        },
        None => false,
    }
}

/// How often the call with index `k` was handed on again in the first `n` events.
pub open spec fn times_sent_again(s: OpenAiView, data: Seq<Seq<char>>, n: int, k: usize) -> int
    decreases n,
{
    if n <= 0 {
        0
    } else {
        times_sent_again(s, data, n - 1, k) + (if sent_again_by(
            received(s, data, n - 1).0,
            data[n - 1],
            k,
        ) {
            1int
        } else {
            0
        })
    }
}

/// How often the call with index `k` came to be one that waits in the first `n` events.
pub open spec fn times_named(s: OpenAiView, data: Seq<Seq<char>>, n: int, k: usize) -> int
    decreases n,
{
    if n <= 0 {
        0
    } else {
        times_named(s, data, n - 1, k) + (if named_by(
            received(s, data, n - 1).0,
            data[n - 1],
            k,
        ) {
            1int
        } else {
            0
        })
    }
}

/// How often `k` stands in `order`.
pub open spec fn times_in(order: Seq<usize>, k: usize) -> int
    decreases order.len(),
{
    if order.len() == 0 {
        0
    } else {
        times_in(order.drop_last(), k) + (if order.last() == k {
            1int
        } else {
            0
        })
    }
}

/// How often the first `n` events handed on the call with index `k`.
pub open spec fn times_handed(s: OpenAiView, data: Seq<Seq<char>>, n: int, k: usize) -> int
    decreases n,
{
    if n <= 0 {
        0
    } else {
        times_handed(s, data, n - 1, k) + times_in(
            handed_by(received(s, data, n - 1).0, data[n - 1]),
            k,
        )
    }
}

proof fn lemma_growing_keeps_waiting(calls: Map<usize, AccView>, items: Seq<JsonView>, n: int, k: int)
    requires
        0 <= n <= items.len(),
        waits(calls, k),
    ensures
        waits(calls_grown(calls, items, n), k),
    decreases n,
{
    if n > 0 {
        lemma_growing_keeps_waiting(calls, items, n - 1, k);
    }
}

proof fn lemma_times_in_both(a: Seq<usize>, b: Seq<usize>, k: usize)
    ensures
        times_in(a + b, k) == times_in(a, k) + times_in(b, k),
    decreases b.len(),
{
    if b.len() == 0 {
        assert(a + b =~= a);
    } else {
        lemma_times_in_both(a, b.drop_last(), k);
        assert((a + b).drop_last() =~= a + b.drop_last());
    }
}

proof fn lemma_times_in_ascending(order: Seq<usize>, k: usize)
    requires
        forall|i: int, j: int|
            0 <= i < j < order.len() ==> #[trigger] order[i] < #[trigger] order[j],
    ensures
        times_in(order, k) == (if order.contains(k) {
            1int
        } else {
            0
        }),
    decreases order.len(),
{
    if order.len() > 0 {
        let rest = order.drop_last();
        lemma_times_in_ascending(rest, k);
        if order.contains(k) {
            let i = choose|i: int| 0 <= i < order.len() && order[i] == k;
            if i < rest.len() {
                assert(rest[i] == k);
            } else if rest.contains(k) {
                let j = choose|j: int| 0 <= j < rest.len() && rest[j] == k;
                assert(order[j] < order[order.len() - 1]);
            }
        } else if rest.contains(k) {
            let j = choose|j: int| 0 <= j < rest.len() && rest[j] == k;
            assert(order[j] == k);
        }
        assert(order.last() == k ==> order.contains(k));
    }
}

proof fn lemma_times_waiting(calls: Map<usize, AccView>, k: usize)
    ensures
        times_in(waiting_from(calls, 0), k) == (if waits(calls, k as int) {
            1int
        } else {
            0
        }),
{
    let order = waiting_from(calls, 0);
    lemma_waiting_in_order(calls, 0);
    lemma_times_in_ascending(order, k);
    if order.contains(k) {
        let i = choose|i: int| 0 <= i < order.len() && order[i] == k;
        assert(waits(calls, order[i] as int));
    }
}

/// The calls that are left after the pieces in a delta, and those that it ended.
spec fn left_by(s: OpenAiView, delta: JsonView) -> (Map<usize, AccView>, Seq<usize>) {
    match delta.at("tool_calls"@).items() {
        Some(items) => {
            let calls = calls_grown(s.calls, items, items.len() as int);
            match ended(s, items) {
                Some(a) => (
                    calls.remove(a),
                    if calls[a].id is Some {
                        seq![a]
                    } else {
                        Seq::empty()
                    },
                ),
                None => (calls, Seq::empty()),
            }
        },
        None => (s.calls, Seq::empty()),
    }
}

proof fn lemma_delta_calls(s: OpenAiView, delta: JsonView, all_called: bool)
    ensures
        ({
            let (rest, first) = left_by(s, delta);
            let (t, sent) = after_delta(s, delta, all_called);
            let calls = match delta.at("tool_calls"@).items() {
                Some(items) => calls_grown(s.calls, items, items.len() as int),
                None => s.calls,
            };
            let order = first + (if all_called {
                waiting_from(rest, 0)
            } else {
                Seq::empty()
            });
            &&& t.calls == (if all_called {
                calls_sent(rest, usize::MAX + 1)
            } else {
                rest
            })
            &&& api::calls_handed_on(sent) == use_blocks(uses_of(calls, order))
        }),
{
    let (rest, first) = left_by(s, delta);
    let a = after_content(s, delta);
    let b = after_reasoning(a.0, delta);
    let c = after_call_delta(b.0, delta);
    let calls = match delta.at("tool_calls"@).items() {
        Some(items) => calls_grown(s.calls, items, items.len() as int),
        None => s.calls,
    };
    assert(b.0.calls == s.calls && b.0.active == s.active);
    assert(c.0.calls == rest);
    assert(a.1 =~= Seq::empty() || a.1.len() == 1);
    if a.1.len() == 1 {
        api::lemma_handed_on_one(a.1[0]);
        assert(a.1 =~= seq![a.1[0]]);
    }
    if b.1.len() == 1 {
        api::lemma_handed_on_one(b.1[0]);
        assert(b.1 =~= seq![b.1[0]]);
    }
    assert(api::calls_handed_on(a.1) =~= Seq::empty());
    assert(api::calls_handed_on(b.1) =~= Seq::empty());
    assert(c.1 =~= use_events(uses_of(calls, first)));
    lemma_uses_handed_on(uses_of(calls, first));
    api::lemma_handed_on_concat(a.1, b.1);
    api::lemma_handed_on_concat(a.1 + b.1, c.1);
    let sent = a.1 + b.1 + c.1;
    assert(api::calls_handed_on(sent) =~= use_blocks(uses_of(calls, first)));
    if all_called {
        let order = waiting_from(rest, 0);
        lemma_waiting_in_order(rest, 0);
        assert(uses_of(rest, order) =~= uses_of(calls, order)) by {
            assert forall|i: int| 0 <= i < order.len() implies rest[#[trigger] order[i]]
                == calls[order[i]] by {
                assert(waits(rest, order[i] as int));
            }
        }
        lemma_uses_handed_on(uses_of(rest, order));
        api::lemma_handed_on_concat(sent, use_events(uses_of(rest, order)));
        assert(use_blocks(uses_of(calls, first + order)) =~= use_blocks(uses_of(calls, first))
            + use_blocks(uses_of(calls, order)));
    } else {
        assert(first + Seq::<usize>::empty() =~= first);
    }
}

proof fn lemma_event_calls(s: OpenAiView, data: Seq<char>)
    ensures
        match told(data) {
            Some((delta, all_called)) => {
                let (t, sent, end) = after_event(s, data);
                let (rest, first) = left_by(s, delta);
                &&& t.calls == (if all_called {
                    calls_sent(rest, usize::MAX + 1)
                } else {
                    rest
                })
                &&& handed_by(s, data) == first + (if all_called {
                    waiting_from(rest, 0)
                } else {
                    Seq::empty()
                })
                &&& api::calls_handed_on(sent) == use_blocks(
                    uses_of(calls_with(s, data), handed_by(s, data)),
                )
            },
            None => after_event(s, data).0.calls == s.calls && after_event(s, data).1
                == Seq::<ApiEventView>::empty(),
        },
{
    match told(data) {
        Some((delta, all_called)) => {
            let v = json::json_of_text(data)->0;
            let choice = v.at("choices"@).items()->0[0];
            let quiet = OpenAiView { consecutive_errors: 0, ..s };
            let m = after_meta(quiet, v, choice);
            assert(m.calls == s.calls && m.active == s.active);
            lemma_delta_calls(m, delta, all_called);
            assert(left_by(m, delta) == left_by(s, delta));
        },
        None => {},
    }
}

/// The tool uses that an event hands on are those of the calls that `handed_by` names, as they
/// stand with the pieces of that event.
pub proof fn law_event_hands_on_calls(s: OpenAiView, data: Seq<char>)
    ensures
        api::calls_handed_on(after_event(s, data).1) == use_blocks(
            uses_of(calls_with(s, data), handed_by(s, data)),
        ),
{
    lemma_event_calls(s, data);
    if told(data) is None {
        assert(use_blocks(uses_of(calls_with(s, data), handed_by(s, data))) =~= Seq::empty());
    }
}

proof fn lemma_event_keeps_count(s: OpenAiView, data: Seq<char>, k: usize)
    ensures
        times_in(handed_by(s, data), k) + (if waits(after_event(s, data).0.calls, k as int) {
            1int
        } else {
            0
        }) == (if waits(s.calls, k as int) {
            1int
        } else {
            0
        }) + (if named_by(s, data, k) {
            1int
        } else {
            0
        }) + (if sent_again_by(s, data, k) {
            1int
        } else {
            0
        }),
{
    lemma_event_calls(s, data);
    if waits(s.calls, k as int) {
        lemma_growing_keeps_waiting(s.calls, pieces(data), pieces(data).len() as int, k as int);
    }
    match told(data) {
        Some((delta, all_called)) => {
            let (rest, first) = left_by(s, delta);
            let order = if all_called {
                waiting_from(rest, 0)
            } else {
                Seq::empty()
            };
            let calls = calls_with(s, data);
            lemma_times_in_both(first, order, k);
            lemma_times_waiting(rest, k);
            assert(first.drop_last().len() == 0 || first.len() == 0);
            reveal_with_fuel(times_in, 2);
            assert(times_in(first, k) + (if waits(rest, k as int) {
                1int
            } else {
                0
            }) == (if waits(calls, k as int) {
                1int
            } else {
                0
            }) + (if sent_again_by(s, data, k) {
                1int
            } else {
                0
            }));
            if all_called {
                assert(!waits(calls_sent(rest, usize::MAX + 1), k as int));
            }
        },
        None => {},
    }
}

proof fn lemma_stream_keeps_count(s: OpenAiView, data: Seq<Seq<char>>, n: int, k: usize)
    requires
        0 <= n <= data.len(),
        !waits(s.calls, k as int),
    ensures
        times_handed(s, data, n, k) + (if waits(received(s, data, n).0.calls, k as int) {
            1int
        } else {
            0
        }) == times_named(s, data, n, k) + times_sent_again(s, data, n, k),
    decreases n,
{
    if n > 0 {
        lemma_stream_keeps_count(s, data, n - 1, k);
        lemma_event_keeps_count(received(s, data, n - 1).0, data[n - 1], k);
    }
}

proof fn lemma_none_sent_again(s: OpenAiView, data: Seq<Seq<char>>, n: int, k: usize)
    requires
        forall|i: int|
            0 <= i < n ==> !sent_again_by(#[trigger] received(s, data, i).0, data[i], k),
    ensures
        times_sent_again(s, data, n, k) == 0,
    decreases n,
{
    if n > 0 {
        assert(!sent_again_by(received(s, data, n - 1).0, data[n - 1], k));
        lemma_none_sent_again(s, data, n - 1, k);
    }
}

/// Every call that got an id is handed on by the end of the stream, and exactly once unless it
/// ends after all calls were handed on together: as often as a call with index `k` came to have
/// an id, or ended so, as often one with that index is handed on, by the events or at the end. At
/// the end those that are left go in the order of their index.
pub proof fn law_each_call_is_handed_on_once(s: OpenAiView, data: Seq<Seq<char>>, k: usize)
    requires
        !waits(s.calls, k as int),
    ensures
        ({
            let n = data.len() as int;
            let (t, sent) = received(s, data, n);
            let (end, last) = finished(t);
            let order = waiting_from(t.calls, 0);
            &&& times_handed(s, data, n, k) + times_in(order, k) == times_named(s, data, n, k)
                + times_sent_again(s, data, n, k)
            &&& (forall|i: int|
                0 <= i < n ==> !sent_again_by(#[trigger] received(s, data, i).0, data[i], k))
                ==> times_handed(s, data, n, k) + times_in(order, k) == times_named(s, data, n, k)
            &&& api::calls_handed_on(last) == use_blocks(uses_of(t.calls, order))
            &&& !waits(end.calls, k as int)
        }),
{
    let n = data.len() as int;
    let (t, sent) = received(s, data, n);
    lemma_stream_keeps_count(s, data, n, k);
    if forall|i: int|
        0 <= i < n ==> !sent_again_by(#[trigger] received(s, data, i).0, data[i], k) {
        lemma_none_sent_again(s, data, n, k);
    }
    lemma_times_waiting(t.calls, k);
    let c = closed(t);
    let (end, last) = finished(t);
    let uses = uses_of(t.calls, waiting_from(t.calls, 0));
    let done = last.last();
    assert(last =~= use_events(uses) + seq![done]);
    lemma_uses_handed_on(uses);
    api::lemma_handed_on_concat(use_events(uses), seq![done]);
    api::lemma_handed_on_one(done);
    assert(api::calls_handed_on(last) =~= use_blocks(uses));
}

} // verus!
