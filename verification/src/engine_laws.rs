//! What holds of every query, whatever the model says and the tools do.
use crate::api;
use crate::api::ApiEvent;
use crate::api::ApiEventView;
use crate::api::CompletionView;
use crate::engine;
use crate::engine::run;
use crate::engine::stepped;
use crate::engine::ActionView;
use crate::engine::QueryEvent;
use crate::engine::QueryEventView;
use crate::engine::QueryPhase;
use crate::engine::QueryView;
use crate::engine::ToldView;
use crate::types::events::EngineToRuntimeEvent;
use crate::types::message::BlockView;
use crate::types::message::MessageView;
use crate::types::message::ToolResultView;
use vstd::prelude::*;

verus! {

/// What is told is of the kind that it is told as, and says what the event holds.
pub proof fn law_told_as_what_it_is(e: EngineToRuntimeEvent)
    ensures
        engine::told_view(e) is Text <==> e is TextDelta,
        engine::told_view(e) is Thinking <==> e is ThinkingDelta,
        engine::told_view(e) is ToolUse <==> e is ToolUse,
        engine::told_view(e) is User <==> e is UserMessageProduced,
        engine::told_view(e) is Answer <==> e is MessageProduced,
        engine::told_view(e) is Results <==> e is ToolResultsProduced,
        engine::told_view(e) is Error <==> e is Error,
        engine::told_view(e) is TurnStarted <==> e is TurnStarted,
        engine::told_view(e) is TurnEnded <==> e is TurnEnded,
        e matches EngineToRuntimeEvent::TextDelta(t) ==> engine::told_view(e)->Text_0 == t@,
        e matches EngineToRuntimeEvent::ThinkingDelta(t) ==> engine::told_view(e)->Thinking_0
            == t@,
        e matches EngineToRuntimeEvent::ToolUse(u) ==> engine::told_view(e)->ToolUse_0 == u@,
        e matches EngineToRuntimeEvent::UserMessageProduced(m) ==> engine::told_view(e)->User_0
            == m@,
        e matches EngineToRuntimeEvent::MessageProduced(m) ==> engine::told_view(e)->Answer_0 == m@,
        e matches EngineToRuntimeEvent::ToolResultsProduced(m) ==> engine::told_view(e)->Results_0
            == m@,
        e matches EngineToRuntimeEvent::Error(t) ==> engine::told_view(e)->Error_0 == t@,
{
}

/// What is streamed is of the kind that it is taken as, and says what the event holds.
pub proof fn law_streamed_as_what_it_is(e: ApiEvent)
    ensures
        e@ is Text <==> e is Text,
        e@ is Thinking <==> e is Thinking,
        e@ is ToolUse <==> e is ToolUse,
        e@ is Done <==> e is Done,
        e matches ApiEvent::Text(t) ==> e@->Text_0 == t@,
        e matches ApiEvent::Thinking(t) ==> e@->Thinking_0 == t@,
        e matches ApiEvent::ToolUse(u) ==> e@->ToolUse_0 == u@,
        e matches ApiEvent::Done(c) ==> e@->Done_0 == c@,
        QueryEvent::Streamed(e)@ == QueryEventView::Streamed(e@),
{
}

/// The texts among what was told, joined.
pub open spec fn text_told(told: Seq<ToldView>) -> Seq<char>
    decreases told.len(),
{
    if told.len() == 0 {
        Seq::empty()
    } else {
        let before = text_told(told.drop_last());
        match told.last() {
            ToldView::Text(t) => before + t,
            _ => before,
        }
    }
}

/// The thinking among what was told, joined.
pub open spec fn thinking_told(told: Seq<ToldView>) -> Seq<char>
    decreases told.len(),
{
    if told.len() == 0 {
        Seq::empty()
    } else {
        let before = thinking_told(told.drop_last());
        match told.last() {
            ToldView::Thinking(t) => before + t,
            _ => before,
        }
    }
}

/// The calls among what was told.
pub open spec fn calls_told(told: Seq<ToldView>) -> Seq<BlockView>
    decreases told.len(),
{
    if told.len() == 0 {
        Seq::empty()
    } else {
        let before = calls_told(told.drop_last());
        match told.last() {
            ToldView::ToolUse(u) => before.push(BlockView::ToolUse(u)),
            _ => before,
        }
    }
}

/// What the model streamed in the first `n` events: all that came while its answer was read and
/// the run was not cancelled.
pub open spec fn heard(
    q: QueryView,
    messages: Seq<MessageView>,
    events: Seq<(bool, QueryEventView)>,
    n: int,
) -> Seq<ApiEventView>
    decreases n,
{
    if n <= 0 {
        Seq::empty()
    } else {
        let before = heard(q, messages, events, n - 1);
        if run(q, messages, events, n - 1).0.phase == QueryPhase::Reading && !events[n - 1].0 {
            match events[n - 1].1 {
                QueryEventView::Streamed(e) => before.push(e),
                _ => before,
            }
        } else {
            before
        }
    }
}

/// The tools that were started in the first `n` events.
pub open spec fn started_tools(
    q: QueryView,
    messages: Seq<MessageView>,
    events: Seq<(bool, QueryEventView)>,
    n: int,
) -> Seq<BlockView>
    decreases n,
{
    if n <= 0 {
        Seq::empty()
    } else {
        let before = started_tools(q, messages, events, n - 1);
        let (now, added, told) = run(q, messages, events, n - 1);
        match stepped(now, messages + added, events[n - 1].0, events[n - 1].1).action {
            ActionView::Start(u) => before.push(BlockView::ToolUse(u)),
            _ => before,
        }
    }
}

proof fn lemma_told_joins(a: Seq<ToldView>, b: Seq<ToldView>)
    ensures
        text_told(a + b) == text_told(a) + text_told(b),
        thinking_told(a + b) == thinking_told(a) + thinking_told(b),
        calls_told(a + b) == calls_told(a) + calls_told(b),
    decreases b.len(),
{
    if b.len() == 0 {
        assert(a + b =~= a);
        assert(text_told(a) + text_told(b) =~= text_told(a));
        assert(thinking_told(a) + thinking_told(b) =~= thinking_told(a));
        assert(calls_told(a) + calls_told(b) =~= calls_told(a));
    } else {
        lemma_told_joins(a, b.drop_last());
        assert((a + b).drop_last() =~= a + b.drop_last());
        assert(text_told(a + b) =~= text_told(a) + text_told(b));
        assert(thinking_told(a + b) =~= thinking_told(a) + thinking_told(b));
        assert(calls_told(a + b) =~= calls_told(a) + calls_told(b));
    }
}

proof fn lemma_no_stream_told(told: Seq<ToldView>)
    requires
        forall|i: int|
            0 <= i < told.len() ==> !(#[trigger] told[i] is Text) && !(told[i] is Thinking) && !(
            told[i] is ToolUse),
    ensures
        text_told(told) == Seq::<char>::empty(),
        thinking_told(told) == Seq::<char>::empty(),
        calls_told(told) == Seq::<BlockView>::empty(),
    decreases told.len(),
{
    if told.len() > 0 {
        lemma_no_stream_told(told.drop_last());
    }
}

proof fn lemma_one_told(t: ToldView)
    ensures
        text_told(seq![t]) == (match t {
            ToldView::Text(s) => s,
            _ => Seq::empty(),
        }),
        thinking_told(seq![t]) == (match t {
            ToldView::Thinking(s) => s,
            _ => Seq::empty(),
        }),
        calls_told(seq![t]) == (match t {
            ToldView::ToolUse(u) => seq![BlockView::ToolUse(u)],
            _ => Seq::empty(),
        }),
{
    reveal_with_fuel(text_told, 2);
    reveal_with_fuel(thinking_told, 2);
    reveal_with_fuel(calls_told, 2);
    assert(seq![t].drop_last() =~= Seq::<ToldView>::empty());
    match t {
        ToldView::Text(s) => {
            assert(Seq::<char>::empty() + s =~= s);
        },
        ToldView::Thinking(s) => {
            assert(Seq::<char>::empty() + s =~= s);
        },
        ToldView::ToolUse(u) => {
            assert(Seq::<BlockView>::empty().push(BlockView::ToolUse(u)) =~= seq![
                BlockView::ToolUse(u),
            ]);
        },
        _ => {},
    }
}

/// What one step tells of the stream is what was streamed.
proof fn lemma_step_tells(
    q: QueryView,
    messages: Seq<MessageView>,
    cancelled: bool,
    event: QueryEventView,
)
    ensures
        ({
            let step = stepped(q, messages, cancelled, event);
            let came = match event {
                QueryEventView::Streamed(e) => if q.phase == QueryPhase::Reading && !cancelled {
                    seq![e]
                } else {
                    Seq::empty()
                },
                _ => Seq::empty(),
            };
            &&& text_told(step.told) == api::text_handed_on(came)
            &&& thinking_told(step.told) == api::thinking_handed_on(came)
            &&& calls_told(step.told) == api::calls_handed_on(came)
            &&& (match step.action {
                ActionView::Start(u) => seq![BlockView::ToolUse(u)],
                _ => Seq::empty(),
            }) == api::calls_handed_on(came)
        }),
{
    let step = stepped(q, messages, cancelled, event);
    match (q.phase, event) {
        (QueryPhase::Reading, QueryEventView::Streamed(e)) => {
            if cancelled {
                lemma_no_stream_told(step.told);
            } else {
                api::lemma_handed_on_one(e);
                if step.told.len() == 1 {
                    lemma_one_told(step.told[0]);
                    assert(step.told =~= seq![step.told[0]]);
                } else {
                    lemma_no_stream_told(step.told);
                }
            }
        },
        _ => {
            lemma_no_stream_told(step.told);
        },
    }
}

/// Over a whole query the texts that are told, joined, are the texts that the model streamed,
/// joined, and the thinking that is told is the thinking that it streamed; the calls that are
/// told are the calls that it streamed, and just these are started, each once and in their
/// order. What comes after the run was cancelled is neither told nor started.
pub proof fn law_told_is_what_was_streamed(
    q: QueryView,
    messages: Seq<MessageView>,
    events: Seq<(bool, QueryEventView)>,
    n: int,
)
    requires
        0 <= n <= events.len(),
    ensures
        ({
            let (now, added, told) = run(q, messages, events, n);
            let came = heard(q, messages, events, n);
            &&& text_told(told) == api::text_handed_on(came)
            &&& thinking_told(told) == api::thinking_handed_on(came)
            &&& calls_told(told) == api::calls_handed_on(came)
            &&& started_tools(q, messages, events, n) == api::calls_handed_on(came)
        }),
    decreases n,
{
    if n > 0 {
        law_told_is_what_was_streamed(q, messages, events, n - 1);
        let (now, added, told) = run(q, messages, events, n - 1);
        let (cancelled, event) = events[n - 1];
        let step = stepped(now, messages + added, cancelled, event);
        let before = heard(q, messages, events, n - 1);
        let after = heard(q, messages, events, n);
        let came = match event {
            QueryEventView::Streamed(e) => if now.phase == QueryPhase::Reading && !cancelled {
                seq![e]
            } else {
                Seq::empty()
            },
            _ => Seq::empty(),
        };
        assert(after =~= before + came);
        lemma_step_tells(now, messages + added, cancelled, event);
        lemma_told_joins(told, step.told);
        api::lemma_handed_on_concat(before, came);
        assert(started_tools(q, messages, events, n) =~= started_tools(q, messages, events, n - 1)
            + api::calls_handed_on(came));
    } else {
        assert(text_told(Seq::<ToldView>::empty()) =~= Seq::empty());
    }
}

/// The events that are not cancelled.
pub open spec fn live(events: Seq<QueryEventView>) -> Seq<(bool, QueryEventView)> {
    events.map_values(|e: QueryEventView| (false, e))
}

pub open spec fn streamed(stream: Seq<ApiEventView>) -> Seq<QueryEventView> {
    stream.map_values(|e: ApiEventView| QueryEventView::Streamed(e))
}

pub open spec fn ended(results: Seq<ToolResultView>) -> Seq<QueryEventView> {
    results.map_values(|r: ToolResultView| QueryEventView::ToolEnded(r))
}

/// What happens in a whole turn: the user's messages are taken up, the model streams its answer,
/// complete with `c`, and the tools end with `results`.
pub open spec fn turn_events(
    gathered: Seq<MessageView>,
    stream: Seq<ApiEventView>,
    c: CompletionView,
    results: Seq<ToolResultView>,
) -> Seq<QueryEventView> {
    seq![QueryEventView::Turn, QueryEventView::Gathered(gathered), QueryEventView::Asked]
        + streamed(stream) + seq![
        QueryEventView::Streamed(ApiEventView::Done(c)),
        QueryEventView::StreamEnded,
    ] + ended(results) + seq![QueryEventView::ToolsEnded]
}

proof fn lemma_run_first(
    q: QueryView,
    messages: Seq<MessageView>,
    a: Seq<(bool, QueryEventView)>,
    b: Seq<(bool, QueryEventView)>,
    n: int,
)
    requires
        0 <= n <= a.len(),
    ensures
        run(q, messages, a + b, n) == run(q, messages, a, n),
    decreases n,
{
    if n > 0 {
        lemma_run_first(q, messages, a, b, n - 1);
        assert((a + b)[n - 1] == a[n - 1]);
    }
}

proof fn lemma_run_both(
    q: QueryView,
    messages: Seq<MessageView>,
    a: Seq<(bool, QueryEventView)>,
    b: Seq<(bool, QueryEventView)>,
    n: int,
)
    requires
        0 <= n <= b.len(),
    ensures
        ({
            let (mid, first, heard) = run(q, messages, a, a.len() as int);
            let (end, more, told) = run(mid, messages + first, b, n);
            run(q, messages, a + b, a.len() + n) == (end, first + more, heard + told)
        }),
    decreases n,
{
    let (mid, first, heard) = run(q, messages, a, a.len() as int);
    if n > 0 {
        lemma_run_both(q, messages, a, b, n - 1);
        assert((a + b)[a.len() + n - 1] == b[n - 1]);
        let (end, more, told) = run(mid, messages + first, b, n - 1);
        let step = stepped(end, messages + first + more, b[n - 1].0, b[n - 1].1);
        assert(messages + (first + more) =~= messages + first + more);
        assert(first + more + step.added =~= first + (more + step.added));
        assert(heard + told + step.told =~= heard + (told + step.told));
    } else {
        lemma_run_first(q, messages, a, b, a.len() as int);
        assert(first + Seq::<MessageView>::empty() =~= first);
        assert(heard + Seq::<ToldView>::empty() =~= heard);
    }
}

proof fn lemma_run_one(q: QueryView, messages: Seq<MessageView>, e: QueryEventView)
    ensures
        ({
            let step = stepped(q, messages, false, e);
            run(q, messages, live(seq![e]), 1) == (step.next, step.added, step.told)
        }),
{
    let step = stepped(q, messages, false, e);
    reveal_with_fuel(run, 2);
    assert(live(seq![e])[0] == (false, e));
    assert(messages + Seq::<MessageView>::empty() =~= messages);
    assert(Seq::<MessageView>::empty() + step.added =~= step.added);
    assert(Seq::<ToldView>::empty() + step.told =~= step.told);
}

proof fn lemma_run_stream(q: QueryView, messages: Seq<MessageView>, stream: Seq<ApiEventView>, n: int)
    requires
        q.phase == QueryPhase::Reading,
        0 <= n <= stream.len(),
    ensures
        ({
            let (end, added, told) = run(q, messages, live(streamed(stream)), n);
            end == (QueryView { completion: end.completion, ..q }) && added.len() == 0
        }),
    decreases n,
{
    if n > 0 {
        lemma_run_stream(q, messages, stream, n - 1);
        assert(live(streamed(stream))[n - 1] == (false, QueryEventView::Streamed(stream[n - 1])));
    }
}

proof fn lemma_run_tools(q: QueryView, messages: Seq<MessageView>, results: Seq<ToolResultView>, n: int)
    requires
        q.phase == QueryPhase::Collecting,
        0 <= n <= results.len(),
    ensures
        run(q, messages, live(ended(results)), n) == (
            QueryView { results: q.results + results.take(n), ..q },
            Seq::<MessageView>::empty(),
            Seq::<ToldView>::empty(),
        ),
    decreases n,
{
    if n > 0 {
        lemma_run_tools(q, messages, results, n - 1);
        assert(live(ended(results))[n - 1] == (false, QueryEventView::ToolEnded(results[n - 1])));
        assert(q.results + results.take(n) =~= (q.results + results.take(n - 1)).push(
            results[n - 1],
        ));
        assert(Seq::<MessageView>::empty() + Seq::<MessageView>::empty() =~= Seq::empty());
        assert(Seq::<ToldView>::empty() + Seq::<ToldView>::empty() =~= Seq::empty());
    } else {
        assert(q.results + results.take(0) =~= q.results);
    }
}

/// A turn adds to the conversation the messages that the user sent meanwhile, then the model's
/// answer, then the results of the tools where there are any: the last result of each call, in
/// the order of the calls. The query goes on where the model stopped to have tools run, and is
/// over else. The turn counts, and tools have been run where there are results.
pub proof fn law_turn(
    q: QueryView,
    messages: Seq<MessageView>,
    gathered: Seq<MessageView>,
    stream: Seq<ApiEventView>,
    c: CompletionView,
    results: Seq<ToolResultView>,
)
    requires
        q.phase == QueryPhase::Between,
        q.started < q.max_turns,
    ensures
        ({
            let events = live(turn_events(gathered, stream, c, results));
            let (end, added, told) = run(q, messages, events, events.len() as int);
            &&& end.turns == q.turns + 1
            &&& end.started == q.started + 1
            &&& end.finish_reason == c.finish_reason
            &&& end.had_tool_use == (q.had_tool_use || results.len() > 0)
            &&& end.phase == (if c.finish_reason is ToolUse {
                QueryPhase::Between
            } else {
                QueryPhase::Over
            })
            &&& added == gathered.push(c.message) + (if results.len() > 0 {
                seq![engine::results_message(c.message, results)]
            } else {
                Seq::empty()
            })
        }),
{
    let a = seq![QueryEventView::Turn, QueryEventView::Gathered(gathered), QueryEventView::Asked];
    let b = streamed(stream);
    let d = seq![QueryEventView::Streamed(ApiEventView::Done(c)), QueryEventView::StreamEnded];
    let e = ended(results);
    let f = seq![QueryEventView::ToolsEnded];
    let q1 = QueryView {
        started: q.started + 1,
        completion: None,
        results: Seq::empty(),
        phase: QueryPhase::Reading,
        ..q
    };
    lemma_begins(q, messages, gathered);
    let (r1, add1, told1) = run(q, messages, live(a), 3);
    lemma_run_stream(q1, messages + add1, stream, stream.len() as int);
    lemma_run_both(q, messages, live(a), live(b), stream.len() as int);
    assert(live(a) + live(b) =~= live(a + b));
    let (q2, add2, told2) = run(q, messages, live(a + b), live(a + b).len() as int);
    assert(add2 =~= gathered);
    lemma_answers(q2, messages + add2, c);
    lemma_run_both(q, messages, live(a + b), live(d), 2);
    assert(live(a + b) + live(d) =~= live(a + b + d));
    let (q3, add3, told3) = run(q, messages, live(a + b + d), live(a + b + d).len() as int);
    assert(add3 =~= gathered.push(c.message));
    lemma_run_tools(q3, messages + add3, results, results.len() as int);
    lemma_run_both(q, messages, live(a + b + d), live(e), results.len() as int);
    assert(live(a + b + d) + live(e) =~= live(a + b + d + e));
    let (q4, add4, told4) = run(
        q,
        messages,
        live(a + b + d + e),
        live(a + b + d + e).len() as int,
    );
    assert(add4 =~= gathered.push(c.message));
    assert(q4.results =~= results);
    assert((messages + add4).last() == c.message);
    lemma_run_one(q4, messages + add4, QueryEventView::ToolsEnded);
    lemma_run_both(q, messages, live(a + b + d + e), live(f), 1);
    assert(live(a + b + d + e) + live(f) =~= live(turn_events(gathered, stream, c, results)));
}

proof fn lemma_begins(q: QueryView, messages: Seq<MessageView>, gathered: Seq<MessageView>)
    requires
        q.phase == QueryPhase::Between,
        q.started < q.max_turns,
    ensures
        ({
            let a = seq![
                QueryEventView::Turn,
                QueryEventView::Gathered(gathered),
                QueryEventView::Asked,
            ];
            let (end, added, told) = run(q, messages, live(a), 3);
            &&& end == (QueryView {
                started: q.started + 1,
                completion: None,
                results: Seq::empty(),
                phase: QueryPhase::Reading,
                ..q
            })
            &&& added == gathered
        }),
{
    let a = seq![QueryEventView::Turn, QueryEventView::Gathered(gathered), QueryEventView::Asked];
    reveal_with_fuel(run, 4);
    assert(live(a)[0] == (false, a[0]) && live(a)[1] == (false, a[1]) && live(a)[2] == (
        false,
        a[2],
    ));
    let (end, added, told) = run(q, messages, live(a), 3);
    assert(added =~= gathered);
}

proof fn lemma_answers(q: QueryView, messages: Seq<MessageView>, c: CompletionView)
    requires
        q.phase == QueryPhase::Reading,
    ensures
        ({
            let d = seq![
                QueryEventView::Streamed(ApiEventView::Done(c)),
                QueryEventView::StreamEnded,
            ];
            let (end, added, told) = run(q, messages, live(d), 2);
            &&& end == (QueryView {
                finish_reason: c.finish_reason,
                completion: None,
                phase: QueryPhase::Collecting,
                ..q
            })
            &&& added == seq![c.message]
        }),
{
    let d = seq![QueryEventView::Streamed(ApiEventView::Done(c)), QueryEventView::StreamEnded];
    reveal_with_fuel(run, 3);
    assert(live(d)[0] == (false, d[0]) && live(d)[1] == (false, d[1]));
    let (end, added, told) = run(q, messages, live(d), 2);
    assert(added =~= seq![c.message]);
}

/// A query never asks for more turns than there may be, and asks for none once it was cancelled
/// or is over.
pub proof fn law_no_turn_too_many(
    q: QueryView,
    messages: Seq<MessageView>,
    cancelled: bool,
    event: QueryEventView,
)
    requires
        q.wf(),
    ensures
        ({
            let step = stepped(q, messages, cancelled, event);
            &&& step.action is Gather ==> q.started < q.max_turns && !cancelled
            &&& q.phase == QueryPhase::Between && event is Turn && (cancelled || q.started
                == q.max_turns) ==> step.action is End
            &&& q.phase == QueryPhase::Over ==> step.action is Nothing && step.next == q
                && step.added.len() == 0 && step.told.len() == 0
            &&& step.action is Ask ==> event is Gathered
            &&& step.action is Start ==> !cancelled
        }),
{
}

} // verus!
