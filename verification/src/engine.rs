//! Running a query: asking the model, running the tools it calls, and asking again.
use crate::api::ApiCompletion;
use crate::api::ApiEvent;
use crate::api::ApiEventView;
use crate::api::CompletionView;
use crate::api::FinishReason;
use crate::api::FinishView;
use crate::text;
use crate::tools::ResultView;
use crate::tools::ToolResult;
use crate::types::events::EngineToRuntimeEvent;
use crate::types::message;
use crate::types::message::BlockView;
use crate::types::message::ContentBlock;
use crate::types::message::Message;
use crate::types::message::MessageView;
use crate::types::message::Role;
use crate::types::message::ToolResultBlock;
use crate::types::message::ToolResultView;
use crate::types::message::ToolUseBlock;
use crate::types::message::ToolUseView;
use vstd::prelude::*;

verus! {

/// How many turns a query has where the settings name no number.
pub const DEFAULT_MAX_TURNS: usize = 200;

/// What a query came to.
#[derive(Debug, PartialEq, Eq)]
pub struct QueryResult {
    /// How many answers of the model were added to the conversation, one in each turn.
    pub turns: usize,
    /// Why the model stopped in the last of them.
    pub finish_reason: FinishReason,
    /// Whether any tool was run.
    pub had_tool_use: bool,
}

#[verifier::ext_equal]
pub struct ResultsView {
    pub turns: int,
    pub finish_reason: FinishView,
    pub had_tool_use: bool,
}

impl View for QueryResult {
    type V = ResultsView;

    open spec fn view(&self) -> ResultsView {
        ResultsView {
            turns: self.turns as int,
            finish_reason: self.finish_reason@,
            had_tool_use: self.had_tool_use,
        }
    }
}

/// Where a query stands.
#[derive(Debug, Clone, Copy, PartialEq, Eq, Structural)]
pub enum QueryPhase {
    /// Between two turns.
    Between,
    /// A turn has begun: the messages that the user sent meanwhile are taken up.
    Gathering,
    /// The model is being asked.
    Asking,
    /// The answer is being read.
    Reading,
    /// The answer is there; the tools that it called are running.
    Collecting,
    Over,
}

/// A query as it runs: `started` turns were begun and `turns` of them finished.
#[derive(Debug)]
pub struct QueryEngine {
    pub max_turns: usize,
    pub started: usize,
    pub turns: usize,
    pub finish_reason: FinishReason,
    pub had_tool_use: bool,
    /// The answer of the model in the turn that runs, once it is complete.
    pub completion: Option<ApiCompletion>,
    /// The results of the tools in the turn that runs, in the order in which they came in.
    pub results: Vec<ToolResultBlock>,
    pub phase: QueryPhase,
}

#[verifier::ext_equal]
pub struct QueryView {
    pub max_turns: int,
    pub started: int,
    pub turns: int,
    pub finish_reason: FinishView,
    pub had_tool_use: bool,
    pub completion: Option<CompletionView>,
    pub results: Seq<ToolResultView>,
    pub phase: QueryPhase,
}

impl View for QueryEngine {
    type V = QueryView;

    open spec fn view(&self) -> QueryView {
        QueryView {
            max_turns: self.max_turns as int,
            started: self.started as int,
            turns: self.turns as int,
            finish_reason: self.finish_reason@,
            had_tool_use: self.had_tool_use,
            completion: match self.completion {
                Some(c) => Some(c@),
                None => None,
            },
            results: results_view(self.results@),
            phase: self.phase,
        }
    }
}

/// What happens to a query.
#[derive(Debug)]
pub enum QueryEvent {
    /// Another turn is due.
    Turn,
    /// The messages that the user sent meanwhile.
    Gathered(Vec<Message>),
    /// The model takes the request.
    Asked,
    /// The request could not be made.
    AskFailed(String),
    Streamed(ApiEvent),
    StreamFailed(String),
    StreamEnded,
    ToolEnded(ToolResultBlock),
    /// A tool broke off without a result.
    ToolFailed(String),
    /// No tool is running any more.
    ToolsEnded,
}

#[verifier::ext_equal]
pub enum QueryEventView {
    Turn,
    Gathered(Seq<MessageView>),
    Asked,
    AskFailed(Seq<char>),
    Streamed(ApiEventView),
    StreamFailed(Seq<char>),
    StreamEnded,
    ToolEnded(ToolResultView),
    ToolFailed(Seq<char>),
    ToolsEnded,
}

impl View for QueryEvent {
    type V = QueryEventView;

    open spec fn view(&self) -> QueryEventView {
        match self {
            QueryEvent::Turn => QueryEventView::Turn,
            QueryEvent::Gathered(m) => QueryEventView::Gathered(message::messages_view(m@)),
            QueryEvent::Asked => QueryEventView::Asked,
            QueryEvent::AskFailed(e) => QueryEventView::AskFailed(e@),
            QueryEvent::Streamed(e) => QueryEventView::Streamed(e@),
            QueryEvent::StreamFailed(e) => QueryEventView::StreamFailed(e@),
            QueryEvent::StreamEnded => QueryEventView::StreamEnded,
            QueryEvent::ToolEnded(r) => QueryEventView::ToolEnded(r@),
            QueryEvent::ToolFailed(e) => QueryEventView::ToolFailed(e@),
            QueryEvent::ToolsEnded => QueryEventView::ToolsEnded,
        }
    }
}

/// What is to be done next for a query.
#[derive(Debug)]
pub enum QueryAction {
    /// Let another turn come.
    Turn,
    /// Take up what the user sent.
    Gather,
    Ask,
    /// Read the next event of the stream.
    Read,
    /// Start a tool and read on.
    Start(ToolUseBlock),
    /// Read no further: the stream ends.
    Close,
    /// Wait for the next tool to end.
    Collect,
    End(QueryResult),
    /// The event has no place here; nothing was done.
    Nothing,
}

#[verifier::ext_equal]
pub enum ActionView {
    Turn,
    Gather,
    Ask,
    Read,
    Start(ToolUseView),
    Close,
    Collect,
    End(ResultsView),
    Nothing,
}

impl View for QueryAction {
    type V = ActionView;

    open spec fn view(&self) -> ActionView {
        match self {
            QueryAction::Turn => ActionView::Turn,
            QueryAction::Gather => ActionView::Gather,
            QueryAction::Ask => ActionView::Ask,
            QueryAction::Read => ActionView::Read,
            QueryAction::Start(u) => ActionView::Start(u@),
            QueryAction::Close => ActionView::Close,
            QueryAction::Collect => ActionView::Collect,
            QueryAction::End(r) => ActionView::End(r@),
            QueryAction::Nothing => ActionView::Nothing,
        }
    }
}

/// What a query tells of.
#[verifier::ext_equal]
pub enum ToldView {
    TurnStarted,
    TurnEnded,
    Text(Seq<char>),
    Thinking(Seq<char>),
    ToolUse(ToolUseView),
    /// A message of the user was added to the conversation.
    User(MessageView),
    /// An answer of the model was added.
    Answer(MessageView),
    /// The results of the tools were added.
    Results(MessageView),
    Error(Seq<char>),
    Other,
}

pub open spec fn told_view(e: EngineToRuntimeEvent) -> ToldView {
    match e {
        EngineToRuntimeEvent::TurnStarted => ToldView::TurnStarted,
        EngineToRuntimeEvent::TurnEnded => ToldView::TurnEnded,
        EngineToRuntimeEvent::TextDelta(t) => ToldView::Text(t@),
        EngineToRuntimeEvent::ThinkingDelta(t) => ToldView::Thinking(t@),
        EngineToRuntimeEvent::ToolUse(u) => ToldView::ToolUse(u@),
        EngineToRuntimeEvent::UserMessageProduced(m) => ToldView::User(m@),
        EngineToRuntimeEvent::MessageProduced(m) => ToldView::Answer(m@),
        EngineToRuntimeEvent::ToolResultsProduced(m) => ToldView::Results(m@),
        EngineToRuntimeEvent::Error(e) => ToldView::Error(e@),
        _ => ToldView::Other,
    }
}

pub open spec fn tells_view(events: Seq<EngineToRuntimeEvent>) -> Seq<ToldView> {
    Seq::new(events.len(), |i: int| told_view(events[i]))
}

/// A step of a query: how it stands then, what is added to the conversation, what is told, and
/// what is to be done.
pub struct QueryStep {
    pub next: QueryView,
    pub added: Seq<MessageView>,
    pub told: Seq<ToldView>,
    pub action: ActionView,
}

/// A step that adds nothing to the conversation.
pub open spec fn step_to(next: QueryView, told: Seq<ToldView>, action: ActionView) -> QueryStep {
    QueryStep { next, added: Seq::empty(), told, action }
}

pub open spec fn result_of(q: QueryView) -> ResultsView {
    ResultsView {
        turns: q.turns,
        finish_reason: q.finish_reason,
        had_tool_use: q.had_tool_use,
    }
}

/// The end of a query.
pub open spec fn ending(q: QueryView, told: Seq<ToldView>) -> QueryStep {
    step_to(QueryView { phase: QueryPhase::Over, ..q }, told, ActionView::End(result_of(q)))
}

/// Another turn begins where there may be one and the run was not cancelled.
pub open spec fn after_turn(q: QueryView, cancelled: bool) -> QueryStep {
    if q.started < q.max_turns && !cancelled {
        step_to(
            QueryView {
                started: q.started + 1,
                completion: None,
                results: Seq::empty(),
                phase: QueryPhase::Gathering,
                ..q
            },
            Seq::empty(),
            ActionView::Gather,
        )
    } else {
        ending(q, Seq::empty())
    }
}

pub open spec fn after_gathered(q: QueryView, messages: Seq<MessageView>) -> QueryStep {
    QueryStep {
        next: QueryView { phase: QueryPhase::Asking, ..q },
        added: messages,
        told: messages.map_values(|m: MessageView| ToldView::User(m)).push(ToldView::TurnStarted),
        action: ActionView::Ask,
    }
}

/// What an event of the stream does. A cancelled run reads no further.
pub open spec fn after_streamed(q: QueryView, cancelled: bool, event: ApiEventView) -> QueryStep {
    if cancelled {
        step_to(q, Seq::empty(), ActionView::Close)
    } else {
        match event {
            ApiEventView::Text(t) => step_to(q, seq![ToldView::Text(t)], ActionView::Read),
            ApiEventView::Thinking(t) => step_to(q, seq![ToldView::Thinking(t)], ActionView::Read),
            ApiEventView::ToolUse(u) => step_to(
                q,
                seq![ToldView::ToolUse(u)],
                ActionView::Start(u),
            ),
            ApiEventView::Done(c) => step_to(
                QueryView { completion: Some(c), ..q },
                Seq::empty(),
                ActionView::Read,
            ),
        }
    }
}

/// What the end of the stream does: the answer is added where it is complete. Without one the
/// query ends, with an error unless the run was cancelled.
pub open spec fn after_stream(q: QueryView, cancelled: bool) -> QueryStep {
    match q.completion {
        Some(c) => QueryStep {
            next: QueryView {
                finish_reason: c.finish_reason,
                completion: None,
                phase: QueryPhase::Collecting,
                ..q
            },
            added: seq![c.message],
            told: seq![ToldView::Answer(c.message)],
            action: ActionView::Collect,
        },
        None => ending(
            q,
            if cancelled {
                Seq::empty()
            } else {
                seq![ToldView::Error("Stream ended unexpectedly"@)]
            },
        ),
    }
}

/// What the end of the last tool does: the results are added in the order of the calls in
/// `answer`, where there are any, and the turn ends. The query goes on where the model stopped to
/// have tools run.
pub open spec fn after_tools(q: QueryView, answer: MessageView) -> QueryStep {
    let m = results_message(answer, q.results);
    let any = q.results.len() > 0;
    let ended = QueryView {
        turns: q.turns + 1,
        had_tool_use: q.had_tool_use || any,
        results: Seq::empty(),
        ..q
    };
    let more = q.finish_reason is ToolUse;
    QueryStep {
        next: QueryView {
            phase: if more {
                QueryPhase::Between
            } else {
                QueryPhase::Over
            },
            ..ended
        },
        added: if any {
            seq![m]
        } else {
            Seq::empty()
        },
        told: if any {
            seq![ToldView::Results(m), ToldView::TurnEnded]
        } else {
            seq![ToldView::TurnEnded]
        },
        action: if more {
            ActionView::Turn
        } else {
            ActionView::End(result_of(ended))
        },
    }
}

/// What an event does to a query. An event that has no place in the phase does nothing.
pub open spec fn stepped(
    q: QueryView,
    messages: Seq<MessageView>,
    cancelled: bool,
    event: QueryEventView,
) -> QueryStep {
    match (q.phase, event) {
        (QueryPhase::Between, QueryEventView::Turn) => after_turn(q, cancelled),
        (QueryPhase::Gathering, QueryEventView::Gathered(m)) => after_gathered(q, m),
        (QueryPhase::Asking, QueryEventView::Asked) => step_to(
            QueryView { phase: QueryPhase::Reading, ..q },
            Seq::empty(),
            ActionView::Read,
        ),
        (QueryPhase::Asking, QueryEventView::AskFailed(e)) => ending(
            q,
            seq![ToldView::Error("LLM request failed: "@ + e)],
        ),
        (QueryPhase::Reading, QueryEventView::Streamed(e)) => after_streamed(q, cancelled, e),
        (QueryPhase::Reading, QueryEventView::StreamFailed(e)) => step_to(
            q,
            if cancelled {
                Seq::empty()
            } else {
                seq![ToldView::Error("Stream error: "@ + e)]
            },
            ActionView::Close,
        ),
        (QueryPhase::Reading, QueryEventView::StreamEnded) => after_stream(q, cancelled),
        (QueryPhase::Collecting, QueryEventView::ToolEnded(r)) => step_to(
            QueryView { results: q.results.push(r), ..q },
            Seq::empty(),
            ActionView::Collect,
        ),
        (QueryPhase::Collecting, QueryEventView::ToolFailed(e)) => step_to(
            q,
            seq![ToldView::Error("Tool task panicked: "@ + e)],
            ActionView::Collect,
        ),
        (QueryPhase::Collecting, QueryEventView::ToolsEnded) => after_tools(q, messages.last()),
        (_, _) => step_to(q, Seq::empty(), ActionView::Nothing),
    }
}

/// Where the last of the results that answers the call `id` stands among the first `n`.
pub open spec fn answer_place(results: Seq<ToolResultView>, id: Seq<char>, n: int) -> Option<int>
    decreases n,
{
    if n <= 0 {
        None
    } else if results[n - 1].tool_use_id == id {
        Some(n - 1)
    } else {
        answer_place(results, id, n - 1)
    }
}

/// The result that answers the call `id`: the last one to come in for it.
pub open spec fn answer_to(results: Seq<ToolResultView>, id: Seq<char>) -> Option<ToolResultView> {
    match answer_place(results, id, results.len() as int) {
        Some(i) => Some(results[i]),
        None => None,
    }
}

/// Whether one of the first `n` blocks is a call with the given id.
pub open spec fn called_before(blocks: Seq<BlockView>, n: int, id: Seq<char>) -> bool {
    exists|k: int|
        0 <= k < n && (#[trigger] blocks[k] matches BlockView::ToolUse(u) && u.id == id)
}

/// The answers to the calls among the first `n` blocks, in the order of the calls. A call whose
/// id was seen before gets none.
pub open spec fn answers(blocks: Seq<BlockView>, results: Seq<ToolResultView>, n: int) -> Seq<
    BlockView,
>
    decreases n,
{
    if n <= 0 {
        Seq::empty()
    } else {
        let done = answers(blocks, results, n - 1);
        match blocks[n - 1] {
            BlockView::ToolUse(u) => if called_before(blocks, n - 1, u.id) {
                done
            } else {
                match answer_to(results, u.id) {
                    Some(a) => done.push(BlockView::ToolResult(a)),
                    None => done,
                }
            },
            _ => done,
        }
    }
}

/// The message that hands the results of the calls in `answer` back to the model.
pub open spec fn results_message(answer: MessageView, results: Seq<ToolResultView>) -> MessageView {
    MessageView {
        role: Role::User,
        content: answers(answer.content, results, answer.content.len() as int),
    }
}

pub open spec fn results_view(results: Seq<ToolResultBlock>) -> Seq<ToolResultView> {
    Seq::new(results.len(), |i: int| results[i]@)
}

fn find_answer(results: &Vec<ToolResultBlock>, id: &str) -> (r: Option<usize>)
    ensures
        match r {
            Some(i) => i < results@.len() && answer_to(results_view(results@), id@) == Some(
                results@[i as int]@,
            ),
            None => answer_to(results_view(results@), id@) is None,
        },
{
    let ghost all = results_view(results@);
    let mut n: usize = results.len();
    while n > 0
        invariant
            n <= results@.len(),
            all == results_view(results@),
            answer_place(all, id@, all.len() as int) == answer_place(all, id@, n as int),
        decreases n,
    {
        assert(all[n - 1] == results@[n - 1]@);
        if text::same(results[n - 1].tool_use_id.as_str(), id) {
            return Some(n - 1);
        }
        n = n - 1;
    }
    None
}

fn seen_before(blocks: &Vec<ContentBlock>, n: usize, id: &str) -> (r: bool)
    requires
        n <= blocks@.len(),
    ensures
        r == called_before(message::blocks_view(blocks@), n as int, id@),
{
    let ghost all = message::blocks_view(blocks@);
    let mut i: usize = 0;
    while i < n
        invariant
            i <= n <= blocks@.len(),
            all == message::blocks_view(blocks@),
            !called_before(all, i as int, id@),
        decreases n - i,
    {
        assert(all[i as int] == blocks@[i as int]@);
        match &blocks[i] {
            ContentBlock::ToolUse(u) => {
                if text::same(u.id.as_str(), id) {
                    assert(all[i as int] matches BlockView::ToolUse(v) && v.id == id@);
                    return true;
                }
            },
            _ => {},
        }
        i = i + 1;
    }
    false
}

/// The results put in the order of the calls that they answer.
pub fn order_results(answer: &Message, results: &Vec<ToolResultBlock>) -> (r: Message)
    ensures
        r@ == results_message(answer@, results_view(results@)),
{
    let ghost all = message::blocks_view(answer.content@);
    let ghost given = results_view(results@);
    let mut out: Vec<ContentBlock> = Vec::new();
    let mut i: usize = 0;
    assert(message::blocks_view(out@) =~= Seq::empty());
    while i < answer.content.len()
        invariant
            i <= answer.content@.len(),
            all == message::blocks_view(answer.content@),
            given == results_view(results@),
            message::blocks_view(out@) == answers(all, given, i as int),
        decreases answer.content@.len() - i,
    {
        let ghost before = message::blocks_view(out@);
        assert(all[i as int] == answer.content@[i as int]@);
        match &answer.content[i] {
            ContentBlock::ToolUse(u) => {
                if !seen_before(&answer.content, i, u.id.as_str()) {
                    match find_answer(results, u.id.as_str()) {
                        Some(k) => {
                            let block = results[k].clone();
                            let ghost b = block@;
                            out.push(ContentBlock::ToolResult(block));
                            assert(message::blocks_view(out@) =~= before.push(
                                BlockView::ToolResult(b),
                            ));
                        },
                        None => {},
                    }
                }
            },
            _ => {},
        }
        i = i + 1;
    }
    Message { role: Role::User, content: out }
}

fn tell(told: &mut Vec<EngineToRuntimeEvent>, event: EngineToRuntimeEvent)
    ensures
        tells_view(final(told)@) == tells_view(old(told)@).push(told_view(event)),
{
    let ghost before = tells_view(told@);
    told.push(event);
    assert(tells_view(told@) =~= before.push(told_view(event)));
}

fn tell_error(told: &mut Vec<EngineToRuntimeEvent>, what: &str, error: &str)
    ensures
        tells_view(final(told)@) == tells_view(old(told)@).push(ToldView::Error(what@ + error@)),
{
    tell(told, EngineToRuntimeEvent::Error(text::concat(what, error)));
}

fn append(messages: &mut Vec<Message>, m: Message)
    ensures
        message::messages_view(final(messages)@) == message::messages_view(old(messages)@).push(
            m@,
        ),
{
    let ghost before = message::messages_view(messages@);
    messages.push(m);
    assert(message::messages_view(messages@) =~= before.push(m@));
}

impl QueryEngine {
    /// A query that has not begun.
    pub open spec fn fresh(max_turns: int) -> QueryView {
        QueryView {
            max_turns,
            started: 0,
            turns: 0,
            finish_reason: FinishView::Stop,
            had_tool_use: false,
            completion: None,
            results: Seq::empty(),
            phase: QueryPhase::Between,
        }
    }

    pub fn new(max_turns: Option<usize>) -> (r: Self)
        ensures
            r@ == QueryEngine::fresh(
                match max_turns {
                    Some(n) => n as int,
                    None => DEFAULT_MAX_TURNS as int,
                },
            ),
            r@.wf(),
    {
        let max_turns: usize = match max_turns {
            Some(n) => n,
            None => DEFAULT_MAX_TURNS,
        };
        let r = QueryEngine {
            max_turns,
            started: 0,
            turns: 0,
            finish_reason: FinishReason::Stop,
            had_tool_use: false,
            completion: None,
            results: Vec::new(),
            phase: QueryPhase::Between,
        };
        assert(r@.results =~= Seq::empty());
        r
    }

    fn result(&self) -> (r: QueryResult)
        ensures
            r@ == result_of(self@),
    {
        QueryResult {
            turns: self.turns,
            finish_reason: self.finish_reason.clone(),
            had_tool_use: self.had_tool_use,
        }
    }

    fn end(&mut self) -> (r: QueryAction)
        ensures
            final(self)@ == (QueryView { phase: QueryPhase::Over, ..old(self)@ }),
            r@ == ActionView::End(result_of(old(self)@)),
    {
        self.phase = QueryPhase::Over;
        QueryAction::End(self.result())
    }

    fn on_turn(&mut self, cancelled: bool) -> (r: QueryAction)
        ensures
            final(self)@ == after_turn(old(self)@, cancelled).next,
            r@ == after_turn(old(self)@, cancelled).action,
    {
        if self.started < self.max_turns && !cancelled {
            self.started = self.started + 1;
            self.completion = None;
            self.results = Vec::new();
            self.phase = QueryPhase::Gathering;
            assert(self@.results =~= Seq::empty());
            QueryAction::Gather
        } else {
            self.end()
        }
    }

    fn on_gathered(
        &mut self,
        gathered: Vec<Message>,
        messages: &mut Vec<Message>,
        told: &mut Vec<EngineToRuntimeEvent>,
    ) -> (r: QueryAction)
        requires
            old(told)@.len() == 0,
        ensures
            ({
                let step = after_gathered(old(self)@, message::messages_view(gathered@));
                &&& final(self)@ == step.next
                &&& message::messages_view(final(messages)@) == message::messages_view(
                    old(messages)@,
                ) + step.added
                &&& tells_view(final(told)@) == step.told
                &&& r@ == step.action
            }),
    {
        let ghost all = message::messages_view(gathered@);
        let ghost before = message::messages_view(messages@);
        let ghost heard = all.map_values(|m: MessageView| ToldView::User(m));
        let mut i: usize = 0;
        assert(tells_view(told@) =~= heard.take(0));
        assert(before =~= before + all.take(0));
        while i < gathered.len()
            invariant
                i <= gathered@.len(),
                all == message::messages_view(gathered@),
                heard == all.map_values(|m: MessageView| ToldView::User(m)),
                message::messages_view(messages@) == before + all.take(i as int),
                tells_view(told@) == heard.take(i as int),
            decreases gathered@.len() - i,
        {
            assert(all[i as int] == gathered@[i as int]@);
            append(messages, gathered[i].clone());
            tell(told, EngineToRuntimeEvent::UserMessageProduced(gathered[i].clone()));
            i = i + 1;
            assert(before + all.take(i as int) =~= (before + all.take(i - 1)).push(all[i - 1]));
            assert(heard.take(i as int) =~= heard.take(i - 1).push(heard[i - 1]));
        }
        assert(all.take(all.len() as int) =~= all);
        assert(heard.take(heard.len() as int) =~= heard);
        tell(told, EngineToRuntimeEvent::TurnStarted);
        self.phase = QueryPhase::Asking;
        QueryAction::Ask
    }

    fn on_streamed(
        &mut self,
        cancelled: bool,
        event: ApiEvent,
        told: &mut Vec<EngineToRuntimeEvent>,
    ) -> (r: QueryAction)
        requires
            old(told)@.len() == 0,
        ensures
            ({
                let step = after_streamed(old(self)@, cancelled, event@);
                &&& final(self)@ == step.next
                &&& tells_view(final(told)@) == step.told
                &&& r@ == step.action
            }),
    {
        assert(tells_view(told@) =~= Seq::empty());
        if cancelled {
            return QueryAction::Close;
        }
        match event {
            ApiEvent::Text(t) => {
                tell(told, EngineToRuntimeEvent::TextDelta(t));
                assert(tells_view(told@) =~= seq![ToldView::Text(t@)]);
                QueryAction::Read
            },
            ApiEvent::Thinking(t) => {
                tell(told, EngineToRuntimeEvent::ThinkingDelta(t));
                assert(tells_view(told@) =~= seq![ToldView::Thinking(t@)]);
                QueryAction::Read
            },
            ApiEvent::ToolUse(u) => {
                tell(told, EngineToRuntimeEvent::ToolUse(u.clone()));
                assert(tells_view(told@) =~= seq![ToldView::ToolUse(u@)]);
                QueryAction::Start(u)
            },
            ApiEvent::Done(c) => {
                self.completion = Some(c);
                QueryAction::Read
            },
        }
    }

    fn on_stream_ended(
        &mut self,
        cancelled: bool,
        messages: &mut Vec<Message>,
        told: &mut Vec<EngineToRuntimeEvent>,
    ) -> (r: QueryAction)
        requires
            old(told)@.len() == 0,
        ensures
            ({
                let step = after_stream(old(self)@, cancelled);
                &&& final(self)@ == step.next
                &&& message::messages_view(final(messages)@) == message::messages_view(
                    old(messages)@,
                ) + step.added
                &&& tells_view(final(told)@) == step.told
                &&& r@ == step.action
            }),
    {
        let ghost before = message::messages_view(messages@);
        assert(tells_view(told@) =~= Seq::empty());
        match self.completion.take() {
            Some(c) => {
                let ghost m = c.message@;
                tell(told, EngineToRuntimeEvent::MessageProduced(c.message.clone()));
                self.finish_reason = c.finish_reason;
                append(messages, c.message);
                self.phase = QueryPhase::Collecting;
                assert(message::messages_view(messages@) =~= before + seq![m]);
                assert(tells_view(told@) =~= seq![ToldView::Answer(m)]);
                QueryAction::Collect
            },
            None => {
                assert(before =~= before + Seq::<MessageView>::empty());
                if !cancelled {
                    tell(
                        told,
                        EngineToRuntimeEvent::Error(text::copy("Stream ended unexpectedly")),
                    );
                    assert(tells_view(told@) =~= seq![
                        ToldView::Error("Stream ended unexpectedly"@),
                    ]);
                }
                self.end()
            },
        }
    }

    fn on_tools_ended(
        &mut self,
        messages: &mut Vec<Message>,
        told: &mut Vec<EngineToRuntimeEvent>,
    ) -> (r: QueryAction)
        requires
            old(self).turns < usize::MAX,
            old(messages)@.len() > 0,
            old(told)@.len() == 0,
        ensures
            ({
                let step = after_tools(
                    old(self)@,
                    message::messages_view(old(messages)@).last(),
                );
                &&& final(self)@ == step.next
                &&& message::messages_view(final(messages)@) == message::messages_view(
                    old(messages)@,
                ) + step.added
                &&& tells_view(final(told)@) == step.told
                &&& r@ == step.action
            }),
    {
        let ghost before = message::messages_view(messages@);
        let ghost step = after_tools(self@, before.last());
        assert(tells_view(told@) =~= Seq::empty());
        assert(before =~= before + Seq::<MessageView>::empty());
        if self.results.len() > 0 {
            self.had_tool_use = true;
            let n: usize = messages.len();
            let m = order_results(&messages[n - 1], &self.results);
            let ghost mv = m@;
            tell(told, EngineToRuntimeEvent::ToolResultsProduced(m.clone()));
            append(messages, m);
            assert(message::messages_view(messages@) =~= before + seq![mv]);
        }
        tell(told, EngineToRuntimeEvent::TurnEnded);
        assert(tells_view(told@) =~= step.told);
        self.turns = self.turns + 1;
        self.results = Vec::new();
        assert(self@.results =~= Seq::empty());
        match self.finish_reason {
            FinishReason::ToolUse => {
                self.phase = QueryPhase::Between;
                QueryAction::Turn
            },
            _ => self.end(),
        }
    }

    /// Takes what happened to the query. Gives what is told of it, and what is to be done next.
    pub fn step(&mut self, messages: &mut Vec<Message>, cancelled: bool, event: QueryEvent) -> (r: (
        Vec<EngineToRuntimeEvent>,
        QueryAction,
    ))
        requires
            old(self)@.wf(),
            old(self)@.phase == QueryPhase::Collecting ==> old(messages)@.len() > 0,
        ensures
            final(self)@.wf(),
            ({
                let step = stepped(
                    old(self)@,
                    message::messages_view(old(messages)@),
                    cancelled,
                    event@,
                );
                &&& final(self)@ == step.next
                &&& message::messages_view(final(messages)@) == message::messages_view(
                    old(messages)@,
                ) + step.added
                &&& tells_view(r.0@) == step.told
                &&& r.1@ == step.action
            }),
    {
        let ghost before = message::messages_view(messages@);
        let ghost q = self@;
        let mut told: Vec<EngineToRuntimeEvent> = Vec::new();
        assert(tells_view(told@) =~= Seq::empty());
        assert(before =~= before + Seq::<MessageView>::empty());
        let action = match (self.phase, event) {
            (QueryPhase::Between, QueryEvent::Turn) => self.on_turn(cancelled),
            (QueryPhase::Gathering, QueryEvent::Gathered(gathered)) => {
                self.on_gathered(gathered, messages, &mut told)
            },
            (QueryPhase::Asking, QueryEvent::Asked) => {
                self.phase = QueryPhase::Reading;
                QueryAction::Read
            },
            (QueryPhase::Asking, QueryEvent::AskFailed(e)) => {
                tell_error(&mut told, "LLM request failed: ", e.as_str());
                assert(tells_view(told@) =~= seq![
                    ToldView::Error("LLM request failed: "@ + e@),
                ]);
                self.end()
            },
            (QueryPhase::Reading, QueryEvent::Streamed(e)) => {
                self.on_streamed(cancelled, e, &mut told)
            },
            (QueryPhase::Reading, QueryEvent::StreamFailed(e)) => {
                if !cancelled {
                    tell_error(&mut told, "Stream error: ", e.as_str());
                    assert(tells_view(told@) =~= seq![ToldView::Error("Stream error: "@ + e@)]);
                }
                QueryAction::Close
            },
            (QueryPhase::Reading, QueryEvent::StreamEnded) => {
                self.on_stream_ended(cancelled, messages, &mut told)
            },
            (QueryPhase::Collecting, QueryEvent::ToolEnded(result)) => {
                let ghost results = self@.results;
                self.results.push(result);
                assert(self@.results =~= results.push(result@));
                QueryAction::Collect
            },
            (QueryPhase::Collecting, QueryEvent::ToolFailed(e)) => {
                tell_error(&mut told, "Tool task panicked: ", e.as_str());
                assert(tells_view(told@) =~= seq![
                    ToldView::Error("Tool task panicked: "@ + e@),
                ]);
                QueryAction::Collect
            },
            (QueryPhase::Collecting, QueryEvent::ToolsEnded) => {
                self.on_tools_ended(messages, &mut told)
            },
            (_, _) => QueryAction::Nothing,
        };
        (told, action)
    }
}

impl QueryView {
    /// No turn is finished that was not begun, and no more are begun than there may be. A turn
    /// that runs is not finished.
    pub open spec fn wf(self) -> bool {
        &&& 0 <= self.turns <= self.started <= self.max_turns <= usize::MAX
        &&& self.phase == QueryPhase::Gathering || self.phase == QueryPhase::Asking || self.phase
            == QueryPhase::Reading || self.phase == QueryPhase::Collecting ==> self.turns
            < self.started
    }
}

impl Default for QueryEngine {
    fn default() -> (r: Self)
        ensures
            r@ == QueryEngine::fresh(DEFAULT_MAX_TURNS as int),
            r@.wf(),
    {
        QueryEngine::new(None)
    }
}

/// The answer to a call: nothing is run any more where the run was cancelled, and nothing can
/// be where no tool has the name; `ran` is what running the tool came to.
pub open spec fn answered(
    call: ToolUseView,
    cancelled: bool,
    ran: Option<ResultView>,
) -> ToolResultView {
    if cancelled {
        ToolResultView {
            tool_use_id: call.id,
            is_error: true,
            content: "Execution cancelled"@,
            metadata: None,
        }
    } else {
        match ran {
            Some(r) => ToolResultView {
                tool_use_id: call.id,
                is_error: r.is_error,
                content: r.output,
                metadata: r.metadata,
            },
            None => ToolResultView {
                tool_use_id: call.id,
                is_error: true,
                content: "Unknown tool: "@ + call.name,
                metadata: None,
            },
        }
    }
}

/// The block that answers a call, and what is told of it: nothing of a call that was cancelled
/// before it ran.
pub fn execute_tool(tool_use: &ToolUseBlock, cancelled: bool, ran: Option<ToolResult>) -> (r: (
    ToolResultBlock,
    Option<EngineToRuntimeEvent>,
))
    ensures
        r.0@ == answered(
            tool_use@,
            cancelled,
            match ran {
                Some(x) => Some(x@),
                None => None,
            },
        ),
        if cancelled {
            r.1 is None
        } else {
            r.1 matches Some(EngineToRuntimeEvent::ToolResult(t)) && t@ == r.0@
        },
{
    if cancelled {
        let result = ToolResult::error(text::copy("Execution cancelled"));
        return (result.into_block(tool_use.id.as_str()), None);
    }
    let result = match ran {
        Some(x) => x,
        None => ToolResult::error(text::concat("Unknown tool: ", tool_use.name.as_str())),
    };
    let block = result.into_block(tool_use.id.as_str());
    let told = block.clone();
    (block, Some(EngineToRuntimeEvent::ToolResult(told)))
}

/// The ids of the calls among the first `n` blocks.
pub open spec fn call_ids(blocks: Seq<BlockView>, n: int) -> Seq<Seq<char>>
    decreases n,
{
    if n <= 0 {
        Seq::empty()
    } else {
        match blocks[n - 1] {
            BlockView::ToolUse(u) => call_ids(blocks, n - 1).push(u.id),
            _ => call_ids(blocks, n - 1),
        }
    }
}

/// The ids that the results among `blocks` answer.
pub open spec fn answered_ids(blocks: Seq<BlockView>) -> Seq<Seq<char>> {
    Seq::new(
        blocks.len(),
        |i: int|
            match blocks[i] {
                BlockView::ToolResult(r) => r.tool_use_id,
                _ => Seq::empty(),
            },
    )
}

proof fn lemma_answer_place(results: Seq<ToolResultView>, id: Seq<char>, n: int)
    requires
        n <= results.len(),
    ensures
        match answer_place(results, id, n) {
            Some(i) => 0 <= i < n && results[i].tool_use_id == id,
            None => forall|i: int| 0 <= i < n ==> (#[trigger] results[i]).tool_use_id != id,
        },
    decreases n,
{
    if n > 0 && results[n - 1].tool_use_id != id {
        lemma_answer_place(results, id, n - 1);
    }
}

proof fn lemma_called(blocks: Seq<BlockView>, n: int, id: Seq<char>)
    requires
        0 <= n <= blocks.len(),
    ensures
        called_before(blocks, n, id) == call_ids(blocks, n).contains(id),
    decreases n,
{
    if n > 0 {
        lemma_called(blocks, n - 1, id);
        let ids = call_ids(blocks, n);
        let less = call_ids(blocks, n - 1);
        if called_before(blocks, n, id) {
            let k = choose|k: int|
                0 <= k < n && (#[trigger] blocks[k] matches BlockView::ToolUse(u) && u.id == id);
            if k < n - 1 {
                assert(called_before(blocks, n - 1, id));
                let j = choose|j: int| 0 <= j < less.len() && less[j] == id;
                assert(ids[j] == id);
            } else {
                assert(ids[ids.len() - 1] == id);
            }
        }
        if ids.contains(id) {
            let j = choose|j: int| 0 <= j < ids.len() && ids[j] == id;
            if j < less.len() {
                assert(less[j] == id);
            } else {
                assert(blocks[n - 1] matches BlockView::ToolUse(u) && u.id == id);
            }
        }
    }
}

proof fn lemma_answers(blocks: Seq<BlockView>, results: Seq<ToolResultView>, n: int)
    requires
        0 <= n <= blocks.len(),
        call_ids(blocks, n).no_duplicates(),
        forall|k: int|
            0 <= k < n ==> (#[trigger] blocks[k] matches BlockView::ToolUse(u) ==> answer_to(
                results,
                u.id,
            ) is Some),
    ensures
        answered_ids(answers(blocks, results, n)) == call_ids(blocks, n),
    decreases n,
{
    if n > 0 {
        let less = call_ids(blocks, n - 1);
        let ids = call_ids(blocks, n);
        assert(less.no_duplicates()) by {
            assert forall|i: int, j: int| 0 <= i < j < less.len() implies less[i] != less[j] by {
                assert(ids[i] == less[i] && ids[j] == less[j]);
            }
        }
        lemma_answers(blocks, results, n - 1);
        match blocks[n - 1] {
            BlockView::ToolUse(u) => {
                lemma_called(blocks, n - 1, u.id);
                if less.contains(u.id) {
                    let j = choose|j: int| 0 <= j < less.len() && less[j] == u.id;
                    assert(ids[j] == ids[ids.len() - 1]);
                }
                lemma_answer_place(results, u.id, results.len() as int);
                let done = answers(blocks, results, n - 1);
                let a = answer_to(results, u.id)->0;
                assert(answered_ids(done.push(BlockView::ToolResult(a))) =~= answered_ids(
                    done,
                ).push(a.tool_use_id));
            },
            _ => {},
        }
    } else {
        assert(answered_ids(answers(blocks, results, n)) =~= call_ids(blocks, n));
    }
}

/// Where the calls of an answer have different ids and every call has a result, the message
/// with the results answers just these calls, in their order, whatever the order in which the
/// results came in.
pub proof fn law_results_follow_the_calls(answer: MessageView, results: Seq<ToolResultView>)
    requires
        call_ids(answer.content, answer.content.len() as int).no_duplicates(),
        forall|k: int|
            0 <= k < answer.content.len() ==> (#[trigger] answer.content[k] matches
                BlockView::ToolUse(u) ==> answer_to(results, u.id) is Some),
    ensures
        results_message(answer, results).role == Role::User,
        answered_ids(results_message(answer, results).content) == call_ids(
            answer.content,
            answer.content.len() as int,
        ),
{
    lemma_answers(answer.content, results, answer.content.len() as int);
}

proof fn lemma_answers_are_results(blocks: Seq<BlockView>, results: Seq<ToolResultView>, n: int)
    requires
        0 <= n <= blocks.len(),
    ensures
        forall|i: int|
            0 <= i < answers(blocks, results, n).len() ==> (#[trigger] answers(
                blocks,
                results,
                n,
            )[i] matches BlockView::ToolResult(r) && results.contains(r) && called_before(
                blocks,
                n,
                r.tool_use_id,
            )),
    decreases n,
{
    if n > 0 {
        lemma_answers_are_results(blocks, results, n - 1);
        let done = answers(blocks, results, n - 1);
        let all = answers(blocks, results, n);
        assert forall|i: int| 0 <= i < all.len() implies (#[trigger] all[i] matches
            BlockView::ToolResult(r) && results.contains(r) && called_before(
            blocks,
            n,
            r.tool_use_id,
        )) by {
            if i < done.len() {
                assert(all[i] == done[i]);
                let r = done[i]->ToolResult_0;
                let k = choose|k: int|
                    0 <= k < n - 1 && (#[trigger] blocks[k] matches BlockView::ToolUse(u) && u.id
                        == r.tool_use_id);
                assert(blocks[k] matches BlockView::ToolUse(u) && u.id == r.tool_use_id);
            } else {
                let u = blocks[n - 1]->ToolUse_0;
                lemma_answer_place(results, u.id, results.len() as int);
                assert(blocks[n - 1] matches BlockView::ToolUse(v) && v.id == u.id);
            }
        }
    }
}

/// Nothing is handed back to the model but results of tools, each to a call of its answer.
pub proof fn law_only_results_of_calls_are_sent(
    answer: MessageView,
    results: Seq<ToolResultView>,
    i: int,
)
    requires
        0 <= i < results_message(answer, results).content.len(),
    ensures
        results_message(answer, results).content[i] matches BlockView::ToolResult(r)
            && results.contains(r) && called_before(
            answer.content,
            answer.content.len() as int,
            r.tool_use_id,
        ),
{
    lemma_answers_are_results(answer.content, results, answer.content.len() as int);
    assert(answers(answer.content, results, answer.content.len() as int)[i]
        == results_message(answer, results).content[i]);
}

/// The messages that were added to the conversation by what was told.
pub open spec fn added_by(told: Seq<ToldView>) -> Seq<MessageView>
    decreases told.len(),
{
    if told.len() == 0 {
        Seq::empty()
    } else {
        let before = added_by(told.drop_last());
        match told.last() {
            ToldView::User(m) => before.push(m),
            ToldView::Answer(m) => before.push(m),
            ToldView::Results(m) => before.push(m),
            _ => before,
        }
    }
}

/// The answers of the model among what was told.
pub open spec fn answers_told(told: Seq<ToldView>) -> Seq<MessageView>
    decreases told.len(),
{
    if told.len() == 0 {
        Seq::empty()
    } else {
        let before = answers_told(told.drop_last());
        match told.last() {
            ToldView::Answer(m) => before.push(m),
            _ => before,
        }
    }
}

/// The results of tools among what was told.
pub open spec fn results_told(told: Seq<ToldView>) -> Seq<MessageView>
    decreases told.len(),
{
    if told.len() == 0 {
        Seq::empty()
    } else {
        let before = results_told(told.drop_last());
        match told.last() {
            ToldView::Results(m) => before.push(m),
            _ => before,
        }
    }
}

proof fn lemma_told_both(a: Seq<ToldView>, b: Seq<ToldView>)
    ensures
        added_by(a + b) == added_by(a) + added_by(b),
        answers_told(a + b) == answers_told(a) + answers_told(b),
        results_told(a + b) == results_told(a) + results_told(b),
    decreases b.len(),
{
    if b.len() == 0 {
        assert(a + b =~= a);
        assert(added_by(a) + added_by(b) =~= added_by(a));
        assert(answers_told(a) + answers_told(b) =~= answers_told(a));
        assert(results_told(a) + results_told(b) =~= results_told(a));
    } else {
        lemma_told_both(a, b.drop_last());
        assert((a + b).drop_last() =~= a + b.drop_last());
        assert(added_by(a + b) =~= added_by(a) + added_by(b));
        assert(answers_told(a + b) =~= answers_told(a) + answers_told(b));
        assert(results_told(a + b) =~= results_told(a) + results_told(b));
    }
}

proof fn lemma_users_told(messages: Seq<MessageView>)
    ensures
        ({
            let told = messages.map_values(|m: MessageView| ToldView::User(m));
            &&& added_by(told) == messages
            &&& answers_told(told).len() == 0
            &&& results_told(told).len() == 0
        }),
    decreases messages.len(),
{
    let told = messages.map_values(|m: MessageView| ToldView::User(m));
    if messages.len() > 0 {
        let less = messages.drop_last();
        lemma_users_told(less);
        assert(told.drop_last() =~= less.map_values(|m: MessageView| ToldView::User(m)));
        assert(less.push(messages.last()) =~= messages);
    } else {
        assert(told =~= Seq::empty());
        assert(messages =~= Seq::empty());
    }
}

/// What one step tells is what it adds, and it counts its turns by its answers.
proof fn lemma_step_counts(
    q: QueryView,
    messages: Seq<MessageView>,
    cancelled: bool,
    event: QueryEventView,
)
    requires
        q.wf(),
    ensures
        ({
            let step = stepped(q, messages, cancelled, event);
            &&& step.next.wf()
            &&& step.next.max_turns == q.max_turns
            &&& added_by(step.told) == step.added
            &&& step.next.turns + (if step.next.phase == QueryPhase::Collecting {
                1int
            } else {
                0
            }) == q.turns + (if q.phase == QueryPhase::Collecting {
                1int
            } else {
                0
            }) + answers_told(step.told).len()
            &&& step.next.had_tool_use == (q.had_tool_use || results_told(step.told).len() > 0)
            &&& step.next.phase == QueryPhase::Collecting ==> q.phase == QueryPhase::Collecting
                || step.added.len() > 0
            &&& step.action matches ActionView::End(r) ==> step.next.phase == QueryPhase::Over && r
                == result_of(step.next)
        }),
{
    let step = stepped(q, messages, cancelled, event);
    reveal_with_fuel(added_by, 3);
    reveal_with_fuel(answers_told, 3);
    reveal_with_fuel(results_told, 3);
    match (q.phase, event) {
        (QueryPhase::Gathering, QueryEventView::Gathered(m)) => {
            lemma_users_told(m);
            let users = m.map_values(|m: MessageView| ToldView::User(m));
            assert(step.told.drop_last() =~= users);
        },
        _ => {
            assert(step.told.len() <= 2);
            if step.told.len() == 1 {
                assert(step.told.drop_last() =~= Seq::empty());
            }
            if step.told.len() == 2 {
                assert(step.told.drop_last().drop_last() =~= Seq::empty());
            }
            assert(added_by(step.told) =~= step.added);
        },
    }
}

/// A query after the first `n` events, what was added to the conversation, and what was told.
pub open spec fn run(
    q: QueryView,
    messages: Seq<MessageView>,
    events: Seq<(bool, QueryEventView)>,
    n: int,
) -> (QueryView, Seq<MessageView>, Seq<ToldView>)
    decreases n,
{
    if n <= 0 {
        (q, Seq::empty(), Seq::empty())
    } else {
        let (before, added, told) = run(q, messages, events, n - 1);
        let (cancelled, event) = events[n - 1];
        let step = stepped(before, messages + added, cancelled, event);
        (step.next, added + step.added, told + step.told)
    }
}

/// Over a whole query, however it goes: exactly what is told is added to the conversation, in
/// that order; as many answers of the model are added as turns are counted, and one more while
/// its tools are still running; results are added where the query says that tools were run, and
/// only there; and no more turns are counted than there may be.
pub proof fn law_turns_are_answers(
    max_turns: int,
    messages: Seq<MessageView>,
    events: Seq<(bool, QueryEventView)>,
    n: int,
)
    requires
        0 <= max_turns <= usize::MAX,
        0 <= n <= events.len(),
    ensures
        ({
            let (q, added, told) = run(QueryEngine::fresh(max_turns), messages, events, n);
            &&& q.wf()
            &&& q.turns <= q.max_turns == max_turns
            &&& added == added_by(told)
            &&& answers_told(told).len() == q.turns + (if q.phase == QueryPhase::Collecting {
                1int
            } else {
                0
            })
            &&& q.had_tool_use == (results_told(told).len() > 0)
            &&& q.phase == QueryPhase::Collecting ==> (messages + added).len() > 0
        }),
    decreases n,
{
    let start = QueryEngine::fresh(max_turns);
    if n > 0 {
        law_turns_are_answers(max_turns, messages, events, n - 1);
        let (before, added, told) = run(start, messages, events, n - 1);
        let (cancelled, event) = events[n - 1];
        let step = stepped(before, messages + added, cancelled, event);
        lemma_step_counts(before, messages + added, cancelled, event);
        lemma_told_both(told, step.told);
    } else {
        assert(added_by(Seq::<ToldView>::empty()) =~= Seq::empty());
    }
}

/// What a query that has ended says of itself: as many turns as it added answers of the model.
pub proof fn law_result_counts_the_answers(
    max_turns: int,
    messages: Seq<MessageView>,
    events: Seq<(bool, QueryEventView)>,
    n: int,
)
    requires
        0 <= max_turns <= usize::MAX,
        0 < n <= events.len(),
    ensures
        ({
            let (before, so_far, heard) = run(
                QueryEngine::fresh(max_turns),
                messages,
                events,
                n - 1,
            );
            let step = stepped(before, messages + so_far, events[n - 1].0, events[n - 1].1);
            let (q, added, told) = run(QueryEngine::fresh(max_turns), messages, events, n);
            step.action matches ActionView::End(r) ==> {
                &&& r.turns == answers_told(told).len()
                &&& r.had_tool_use == (results_told(told).len() > 0)
            }
        }),
{
    law_turns_are_answers(max_turns, messages, events, n - 1);
    law_turns_are_answers(max_turns, messages, events, n);
    let (before, so_far, heard) = run(QueryEngine::fresh(max_turns), messages, events, n - 1);
    lemma_step_counts(before, messages + so_far, events[n - 1].0, events[n - 1].1);
}

} // verus!
