//! What is handed on of a stream is what the model sent.
use crate::api::anthropic;
use crate::api::anthropic::BlockStateView;
use crate::api::anthropic::StreamView;
use crate::api::openai;
use crate::api::openai::AccView;
use crate::api::openai::OpenAiView;
use crate::api::ApiEventView;
use crate::api::FinishView;
use crate::json;
use crate::json::JsonView;
use crate::types::message::BlockView;
use crate::types::message::Role;
use crate::types::message::ToolUseView;
use vstd::prelude::*;

verus! {

proof fn lemma_delta_kinds()
    ensures
        "text_delta"@ != "thinking_delta"@,
        "text_delta"@ != "input_json_delta"@,
        "thinking_delta"@ != "input_json_delta"@,
        "text"@ != "thinking"@,
        "text"@ != "tool_use"@,
        "thinking"@ != "tool_use"@,
{
    reveal_strlit("text_delta");
    reveal_strlit("thinking_delta");
    reveal_strlit("input_json_delta");
    reveal_strlit("text");
    reveal_strlit("thinking");
    reveal_strlit("tool_use");
    assert("text_delta"@.len() == 10 && "thinking_delta"@.len() == 14 && "input_json_delta"@.len()
        == 16);
    assert("text"@.len() == 4 && "thinking"@[1] == 'h' && "tool_use"@[1] == 'o');
}

/// A piece of text is handed on as text and a piece of thinking as thinking, each as it came,
/// and grows the block that is being received by just that.
pub proof fn law_piece_is_handed_on_as_it_came(
    s: StreamView,
    data: JsonView,
    piece: Seq<char>,
    so_far: Seq<char>,
)
    ensures
        ({
            let delta = data.at("delta"@);
            let (t, sent) = anthropic::after_block_delta(s, data);
            &&& delta.at("type"@).str_value() == Some("text_delta"@) && delta.at(
                "text"@,
            ).str_value() == Some(piece) ==> sent == Some(ApiEventView::Text(piece)) && (
            s.current_block == Some(BlockStateView::Text(so_far)) ==> t.current_block == Some(
                BlockStateView::Text(so_far + piece),
            ))
            &&& delta.at("type"@).str_value() == Some("thinking_delta"@) && delta.at(
                "thinking"@,
            ).str_value() == Some(piece) ==> sent == Some(ApiEventView::Thinking(piece)) && (
            s.current_block == Some(BlockStateView::Thinking(so_far)) ==> t.current_block == Some(
                BlockStateView::Thinking(so_far + piece),
            ))
            &&& t.content_blocks == s.content_blocks
        }),
{
    lemma_delta_kinds();
}

/// The pieces of an input, joined.
pub open spec fn pieces_joined(pieces: Seq<Seq<char>>) -> Seq<char>
    decreases pieces.len(),
{
    if pieces.len() == 0 {
        Seq::empty()
    } else {
        pieces_joined(pieces.drop_last()) + pieces.last()
    }
}

/// Whether `deltas` bring the pieces of an input.
pub open spec fn input_pieces(deltas: Seq<JsonView>, pieces: Seq<Seq<char>>) -> bool {
    &&& deltas.len() == pieces.len()
    &&& forall|i: int|
        0 <= i < deltas.len() ==> (#[trigger] deltas[i]).at("delta"@).at("type"@).str_value()
            == Some("input_json_delta"@) && deltas[i].at("delta"@).at("partial_json"@).str_value()
            == Some(pieces[i])
}

proof fn lemma_input_grows(
    s: StreamView,
    id: Seq<char>,
    name: Seq<char>,
    deltas: Seq<JsonView>,
    pieces: Seq<Seq<char>>,
    n: int,
)
    requires
        s.current_block == Some(BlockStateView::ToolUse(id, name, Seq::empty())),
        input_pieces(deltas, pieces),
        0 <= n <= deltas.len(),
    ensures
        anthropic::after_deltas(s, deltas, n) == (
            StreamView {
                current_block: Some(
                    BlockStateView::ToolUse(id, name, pieces_joined(pieces.take(n))),
                ),
                ..s
            },
            Seq::<ApiEventView>::empty(),
        ),
    decreases n,
{
    lemma_delta_kinds();
    if n > 0 {
        lemma_input_grows(s, id, name, deltas, pieces, n - 1);
        assert(deltas[n - 1].at("delta"@).at("type"@).str_value() == Some("input_json_delta"@));
        assert(pieces.take(n).drop_last() =~= pieces.take(n - 1));
    } else {
        assert(pieces.take(0) =~= Seq::empty());
    }
}

/// A call is handed on under the id and the name that its block began with, with the input that
/// all its pieces joined spell; the same call joins the answer.
pub proof fn law_call_is_made_of_its_pieces(
    s: StreamView,
    start: JsonView,
    id: Seq<char>,
    name: Seq<char>,
    deltas: Seq<JsonView>,
    pieces: Seq<Seq<char>>,
)
    requires
        start.at("content_block"@).at("type"@).str_value() == Some("tool_use"@),
        start.at("content_block"@).at("id"@).str_value() == Some(id),
        start.at("content_block"@).at("name"@).str_value() == Some(name),
        input_pieces(deltas, pieces),
    ensures
        ({
            let begun = anthropic::after_block_start(s, start);
            let (all, sent) = anthropic::after_deltas(begun, deltas, deltas.len() as int);
            let (end, event) = anthropic::after_block_stop(all);
            let call = ToolUseView {
                id,
                name,
                input: json::object_of_text(pieces_joined(pieces)),
            };
            &&& sent.len() == 0
            &&& event == Some(ApiEventView::ToolUse(call))
            &&& end.content_blocks == s.content_blocks.push(BlockView::ToolUse(call))
            &&& end.current_block is None
        }),
{
    lemma_delta_kinds();
    let begun = anthropic::after_block_start(s, start);
    lemma_input_grows(begun, id, name, deltas, pieces, deltas.len() as int);
    assert(pieces.take(pieces.len() as int) =~= pieces);
}

/// A block begins as what it says it is.
pub proof fn law_block_begins_as_what_it_is(s: StreamView, start: JsonView)
    ensures
        ({
            let kind = start.at("content_block"@).at("type"@).str_value();
            let t = anthropic::after_block_start(s, start);
            &&& kind == Some("text"@) ==> t.current_block == Some(
                BlockStateView::Text(Seq::empty()),
            )
            &&& kind == Some("thinking"@) ==> t.current_block == Some(
                BlockStateView::Thinking(Seq::empty()),
            )
            &&& t.content_blocks == s.content_blocks
        }),
{
    lemma_delta_kinds();
}

/// The answer that is handed on at the end is the assistant's, with all blocks that came, the
/// reason that was given, and the tokens that were counted for the prompt and for the answer.
pub proof fn law_answer_says_how_it_ended(
    s: StreamView,
    start: JsonView,
    end: JsonView,
    input: u64,
    output: u64,
    reason: Seq<char>,
)
    requires
        start.at("message"@).member("usage"@) matches Some(u) && u.at("input_tokens"@).u64_value()
            == Some(input),
        end.member("usage"@) matches Some(u) && u.at("output_tokens"@).u64_value() == Some(output),
        end.member("delta"@) matches Some(d) && d.at("stop_reason"@).str_value() == Some(reason),
        input <= u32::MAX,
        output <= u32::MAX,
    ensures
        ({
            let t = anthropic::after_message_delta(anthropic::after_message_start(s, start), end);
            anthropic::after_message_stop(t).1 matches Some(ApiEventView::Done(c)) && {
                &&& c.message.role == Role::Assistant
                &&& c.message.content == s.content_blocks
                &&& c.usage.prompt_tokens == input
                &&& c.usage.completion_tokens == output
                &&& c.finish_reason == anthropic::stop_reason(Some(reason))
            }
        }),
{
}

/// The reasons to stop are told apart, on both interfaces; one that is not known is an error that
/// names it.
pub proof fn law_reasons_to_stop(reason: Seq<char>)
    ensures
        anthropic::stop_reason(Some("end_turn"@)) == FinishView::Stop,
        anthropic::stop_reason(Some("stop_sequence"@)) == FinishView::Stop,
        anthropic::stop_reason(Some("max_tokens"@)) == FinishView::Length,
        anthropic::stop_reason(Some("tool_use"@)) == FinishView::ToolUse,
        anthropic::stop_reason(Some(reason)) is ToolUse <==> reason == "tool_use"@,
        anthropic::stop_reason(None) == FinishView::Stop,
        openai::finish_of("stop"@) == FinishView::Stop,
        openai::finish_of("length"@) == FinishView::Length,
        openai::finish_of("tool_calls"@) == FinishView::ToolUse,
        openai::finish_of(reason) is ToolUse <==> reason == "tool_calls"@,
        openai::finish_of(reason) matches FinishView::Error(r) ==> r == reason,
{
    reveal_strlit("end_turn");
    reveal_strlit("stop_sequence");
    reveal_strlit("max_tokens");
    reveal_strlit("tool_use");
    reveal_strlit("stop");
    reveal_strlit("length");
    reveal_strlit("tool_calls");
    assert("end_turn"@[0] == 'e' && "stop_sequence"@[0] == 's' && "max_tokens"@[0] == 'm'
        && "tool_use"@[0] == 't');
    assert("stop"@[0] == 's' && "length"@[0] == 'l' && "tool_calls"@[0] == 't');
}

/// A chunk of the other interface hands on its text as text and its reasoning as thinking, each
/// as it came, and an empty one hands on nothing.
pub proof fn law_chunk_is_handed_on_as_it_came(s: OpenAiView, delta: JsonView, t: Seq<char>)
    ensures
        delta.at("content"@).str_value() == Some(t) && t.len() > 0 ==> openai::after_content(
            s,
            delta,
        ).1 == seq![ApiEventView::Text(t)] && openai::after_content(s, delta).0.text == Some(
            match s.text {
                Some(before) => before + t,
                None => t,
            },
        ),
        delta.at("content"@).str_value() == Some(Seq::<char>::empty()) || delta.at(
            "content"@,
        ).str_value() is None ==> openai::after_content(s, delta) == (s, Seq::<ApiEventView>::empty()),
        delta.member("reasoning_content"@) == Some(JsonView::Str(t)) && t.len() > 0
            ==> openai::after_reasoning(s, delta).1 == seq![ApiEventView::Thinking(t)],
        delta.member("reasoning_content"@) is None && delta.at("reasoning"@).str_value() == Some(t)
            && t.len() > 0 ==> openai::after_reasoning(s, delta).1 == seq![
            ApiEventView::Thinking(t),
        ],
{
}

/// A piece of a call is joined to the call with its index and to no other: its arguments are put
/// behind those that came before, and an id or a name that it brings is the call's.
pub proof fn law_piece_joins_its_call(
    calls: Map<usize, AccView>,
    items: Seq<JsonView>,
    n: int,
    other: usize,
)
    requires
        0 <= n < items.len(),
    ensures
        ({
            let before = openai::calls_grown(calls, items, n);
            let after = openai::calls_grown(calls, items, n + 1);
            let piece = items[n];
            let k = openai::call_index(piece);
            let f = piece.at("function"@);
            let so_far = if before.contains_key(k) {
                before[k].arguments
            } else {
                Seq::empty()
            };
            &&& after.contains_key(k)
            &&& f.at("arguments"@).str_value() matches Some(a) ==> after[k].arguments == so_far + a
            &&& f.at("arguments"@).str_value() is None ==> after[k].arguments == so_far
            &&& piece.at("id"@).str_value() is Some ==> after[k].id == piece.at("id"@).str_value()
            &&& piece.at("id"@).str_value() is None && before.contains_key(k) ==> after[k].id
                == before[k].id
            &&& f.at("name"@).str_value() is Some ==> after[k].name == f.at("name"@).str_value()
            &&& f.at("name"@).str_value() is None && before.contains_key(k) ==> after[k].name
                == before[k].name
            &&& other != k ==> after.contains_key(other) == before.contains_key(other)
            &&& other != k && before.contains_key(other) ==> after[other] == before[other]
        }),
        items[n].at("index"@).u64_value() matches Some(i) ==> i <= usize::MAX
            ==> openai::call_index(items[n]) == i,
{
}

/// A call is handed on under its id and its name, with the input that its arguments spell.
pub proof fn law_call_is_what_its_pieces_say(acc: AccView, id: Seq<char>, name: Seq<char>)
    requires
        acc.id == Some(id),
        acc.name == Some(name),
    ensures
        openai::tool_use_of(acc).id == id,
        openai::tool_use_of(acc).name == name,
        openai::tool_use_of(acc).input == json::object_of_text(acc.arguments),
{
}

/// The end of the stream hands on the answer with the reason and the tokens that came last.
pub proof fn law_stream_says_how_it_ended(
    s: OpenAiView,
    data: JsonView,
    choice: JsonView,
    prompt: u64,
    answer: u64,
    reason: Seq<char>,
)
    requires
        data.member("usage"@) matches Some(u) && u.at("prompt_tokens"@).u64_value() == Some(prompt)
            && u.at("completion_tokens"@).u64_value() == Some(answer),
        choice.at("finish_reason"@).str_value() == Some(reason),
        reason.len() > 0,
        prompt <= u32::MAX,
        answer <= u32::MAX,
    ensures
        ({
            let t = openai::after_meta(s, data, choice);
            let last = openai::finished(t).1.last();
            last matches ApiEventView::Done(c) && {
                &&& c.message.role == Role::Assistant
                &&& c.finish_reason == openai::finish_of(reason)
                &&& c.usage.prompt_tokens == prompt
                &&& c.usage.completion_tokens == answer
            }
        }),
{
}

/// A stream ends with its last event and with nothing before it, and an event that came puts an
/// end to a run of failures.
pub proof fn law_stream_ends_at_its_end(s: OpenAiView, data: Seq<char>)
    ensures
        openai::after_event(s, data).2 <==> data == "[DONE]"@,
        openai::after_event(s, data).0.consecutive_errors == 0,
{
    if data != "[DONE]"@ && data.len() > 0 {
        match json::json_of_text(data) {
            Some(v) => {},
            None => {},
        }
    }
}

} // verus!
