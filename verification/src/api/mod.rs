//! Talking to the providers of models.
pub mod anthropic;
pub mod openai;
pub mod openai_request;
pub mod request_laws;
pub mod retry;
pub mod sse;
pub mod stream_laws;

use crate::types::message::BlockView;
use crate::types::message::Message;
use crate::types::message::MessageView;
use crate::types::message::ToolUseBlock;
use crate::types::message::ToolUseView;
use vstd::prelude::*;

verus! {

/// How many broken events in a row end a stream.
pub const MAX_CONSECUTIVE_ERRORS: u32 = 10;

/// Why the model stopped.
#[derive(Debug, PartialEq, Eq)]
pub enum FinishReason {
    Stop,
    Length,
    ToolUse,
    Error(String),
}

#[verifier::ext_equal]
pub enum FinishView {
    Stop,
    Length,
    ToolUse,
    Error(Seq<char>),
}

impl View for FinishReason {
    type V = FinishView;

    open spec fn view(&self) -> FinishView {
        match *self {
            FinishReason::Stop => FinishView::Stop,
            FinishReason::Length => FinishView::Length,
            FinishReason::ToolUse => FinishView::ToolUse,
            FinishReason::Error(e) => FinishView::Error(e@),
        }
    }
}

impl Clone for FinishReason {
    fn clone(&self) -> (r: Self)
        ensures
            r == *self,
    {
        match self {
            FinishReason::Stop => FinishReason::Stop,
            FinishReason::Length => FinishReason::Length,
            FinishReason::ToolUse => FinishReason::ToolUse,
            FinishReason::Error(e) => FinishReason::Error(e.clone()),
        }
    }
}

#[derive(Debug, Clone, Copy, PartialEq, Eq, Structural)]
pub struct Usage {
    pub prompt_tokens: usize,
    pub completion_tokens: usize,
}

/// A finished answer of the model.
#[derive(Debug, PartialEq, Eq)]
pub struct ApiCompletion {
    pub message: Message,
    pub finish_reason: FinishReason,
    pub usage: Usage,
}

/// What a stream hands on as the answer comes in.
#[derive(Debug, PartialEq, Eq)]
pub enum ApiEvent {
    Text(String),
    Thinking(String),
    ToolUse(ToolUseBlock),
    Done(ApiCompletion),
}

#[verifier::ext_equal]
pub struct CompletionView {
    pub message: MessageView,
    pub finish_reason: FinishView,
    pub usage: Usage,
}

#[verifier::ext_equal]
pub enum ApiEventView {
    Text(Seq<char>),
    Thinking(Seq<char>),
    ToolUse(ToolUseView),
    Done(CompletionView),
}

impl View for ApiCompletion {
    type V = CompletionView;

    open spec fn view(&self) -> CompletionView {
        CompletionView {
            message: self.message@,
            finish_reason: self.finish_reason@,
            usage: self.usage,
        }
    }
}

impl View for ApiEvent {
    type V = ApiEventView;

    open spec fn view(&self) -> ApiEventView {
        match *self {
            ApiEvent::Text(t) => ApiEventView::Text(t@),
            ApiEvent::Thinking(t) => ApiEventView::Thinking(t@),
            ApiEvent::ToolUse(t) => ApiEventView::ToolUse(t@),
            ApiEvent::Done(c) => ApiEventView::Done(c@),
        }
    }
}

pub open spec fn events_view(events: Seq<ApiEvent>) -> Seq<ApiEventView> {
    Seq::new(events.len(), |i: int| events[i]@)
}

/// Adds an event behind the others.
pub(crate) fn put_event(events: &mut Vec<ApiEvent>, event: ApiEvent)
    ensures
        events_view(final(events)@) == events_view(old(events)@).push(event@),
{
    let ghost before = events_view(events@);
    let ghost e = event@;
    events.push(event);
    assert(events_view(events@) =~= before.push(e));
}

/// All the text that was handed on.
pub open spec fn text_handed_on(events: Seq<ApiEventView>) -> Seq<char>
    decreases events.len(),
{
    if events.len() == 0 {
        Seq::empty()
    } else {
        let before = text_handed_on(events.drop_last());
        match events.last() {
            ApiEventView::Text(t) => before + t,
            _ => before,
        }
    }
}

/// All the thinking that was handed on.
pub open spec fn thinking_handed_on(events: Seq<ApiEventView>) -> Seq<char>
    decreases events.len(),
{
    if events.len() == 0 {
        Seq::empty()
    } else {
        let before = thinking_handed_on(events.drop_last());
        match events.last() {
            ApiEventView::Thinking(t) => before + t,
            _ => before,
        }
    }
}

/// The tool uses that were handed on, as blocks.
pub open spec fn calls_handed_on(events: Seq<ApiEventView>) -> Seq<BlockView>
    decreases events.len(),
{
    if events.len() == 0 {
        Seq::empty()
    } else {
        let before = calls_handed_on(events.drop_last());
        match events.last() {
            ApiEventView::ToolUse(t) => before.push(BlockView::ToolUse(t)),
            _ => before,
        }
    }
}

pub proof fn lemma_handed_on_concat(a: Seq<ApiEventView>, b: Seq<ApiEventView>)
    ensures
        text_handed_on(a + b) == text_handed_on(a) + text_handed_on(b),
        thinking_handed_on(a + b) == thinking_handed_on(a) + thinking_handed_on(b),
        calls_handed_on(a + b) == calls_handed_on(a) + calls_handed_on(b),
    decreases b.len(),
{
    if b.len() == 0 {
        assert(a + b =~= a);
    } else {
        assert((a + b).drop_last() =~= a + b.drop_last());
        lemma_handed_on_concat(a, b.drop_last());
        assert(text_handed_on(a + b) =~= text_handed_on(a) + text_handed_on(b));
        assert(thinking_handed_on(a + b) =~= thinking_handed_on(a) + thinking_handed_on(b));
        assert(calls_handed_on(a + b) =~= calls_handed_on(a) + calls_handed_on(b));
    }
}

pub proof fn lemma_handed_on_one(e: ApiEventView)
    ensures
        text_handed_on(seq![e]) == (match e {
            ApiEventView::Text(t) => t,
            _ => Seq::empty(),
        }),
        thinking_handed_on(seq![e]) == (match e {
            ApiEventView::Thinking(t) => t,
            _ => Seq::empty(),
        }),
        calls_handed_on(seq![e]) == (match e {
            ApiEventView::ToolUse(t) => seq![BlockView::ToolUse(t)],
            _ => Seq::empty(),
        }),
{
    reveal_with_fuel(text_handed_on, 2);
    reveal_with_fuel(thinking_handed_on, 2);
    reveal_with_fuel(calls_handed_on, 2);
    assert(seq![e].drop_last() =~= Seq::empty());
    assert(text_handed_on(seq![e]) =~= (match e {
        ApiEventView::Text(t) => t,
        _ => Seq::empty(),
    }));
    assert(thinking_handed_on(seq![e]) =~= (match e {
        ApiEventView::Thinking(t) => t,
        _ => Seq::empty(),
    }));
    assert(calls_handed_on(seq![e]) =~= (match e {
        ApiEventView::ToolUse(t) => seq![BlockView::ToolUse(t)],
        _ => Seq::empty(),
    }));
}

} // verus!
