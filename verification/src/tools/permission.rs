//! Whether a prepared tool may run.
use crate::text;
use crate::tools;
use crate::tools::ResultView;
use crate::tools::ToolResult;
use crate::types::events::PermissionPreview;
use crate::types::events::ToolPauseKind;
use crate::types::events::ToolPauseRequest;
use crate::types::events::ToolPauseResponse;
use vstd::prelude::*;

verus! {

#[derive(Debug, Clone, Copy, PartialEq, Eq, Structural)]
pub enum PermissionPolicyDecision {
    AutoAllow,
    AskUser,
    AutoDeny,
}

/// Decides which tools run without asking.
pub trait PermissionPolicy {
    /// What `decide` returns.
    spec fn decision(&self, tool_name: Seq<char>, preview: PermissionPreview)
        -> PermissionPolicyDecision;

    fn decide(&self, tool_name: &str, preview: &PermissionPreview)
        -> (r: PermissionPolicyDecision)
        ensures
            r == self.decision(tool_name@, *preview),
    ;
}

/// Reading is allowed; everything else is asked for.
#[derive(Debug)]
pub struct DefaultPermissionPolicy;

impl Default for DefaultPermissionPolicy {
    fn default() -> (r: Self)
        ensures
            r == DefaultPermissionPolicy,
    {
        DefaultPermissionPolicy
    }
}

impl PermissionPolicy for DefaultPermissionPolicy {
    open spec fn decision(&self, tool_name: Seq<char>, preview: PermissionPreview)
        -> PermissionPolicyDecision {
        if tool_name == "read"@ {
            PermissionPolicyDecision::AutoAllow
        } else {
            PermissionPolicyDecision::AskUser
        }
    }

    fn decide(&self, tool_name: &str, preview: &PermissionPreview)
        -> (r: PermissionPolicyDecision) {
        if text::same(tool_name, "read") {
            PermissionPolicyDecision::AutoAllow
        } else {
            PermissionPolicyDecision::AskUser
        }
    }
}

/// What comes after a tool was prepared.
#[derive(Debug)]
pub enum ToolStep {
    Run,
    Ask,
    Refuse(ToolResult),
}

#[verifier::ext_equal]
pub enum StepView {
    Run,
    Ask,
    Refuse(ResultView),
}

impl View for ToolStep {
    type V = StepView;

    open spec fn view(&self) -> StepView {
        match *self {
            ToolStep::Run => StepView::Run,
            ToolStep::Ask => StepView::Ask,
            ToolStep::Refuse(r) => StepView::Refuse(r@),
        }
    }
}

/// The result of a tool whose input could not be read.
pub fn invalid_input(message: &str) -> (r: ToolResult)
    ensures
        r@ == tools::failed("Invalid tool input: "@ + tools::without_position(message@)),
{
    let clean = tools::clean_json_error(message);
    ToolResult::error(text::concat("Invalid tool input: ", clean.as_str()))
}

pub open spec fn denied(tool_name: Seq<char>) -> ResultView {
    tools::failed("Permission denied for tool: "@ + tool_name)
}

/// The step that a policy's decision leads to.
pub open spec fn step_for(tool_name: Seq<char>, decision: PermissionPolicyDecision) -> StepView {
    match decision {
        PermissionPolicyDecision::AutoAllow => StepView::Run,
        PermissionPolicyDecision::AutoDeny => StepView::Refuse(denied(tool_name)),
        PermissionPolicyDecision::AskUser => StepView::Ask,
    }
}

/// What to do with a prepared tool: one without a preview runs, another as the policy decides.
pub fn after_prepare<P: PermissionPolicy>(
    policy: &P,
    tool_name: &str,
    preview: Option<&PermissionPreview>,
) -> (r: ToolStep)
    ensures
        match preview {
            None => r@ == StepView::Run,
            Some(p) => r@ == step_for(tool_name@, policy.decision(tool_name@, *p)),
        },
{
    match preview {
        None => ToolStep::Run,
        Some(p) => match policy.decide(tool_name, p) {
            PermissionPolicyDecision::AutoAllow => ToolStep::Run,
            PermissionPolicyDecision::AutoDeny => ToolStep::Refuse(
                ToolResult::error(text::concat("Permission denied for tool: ", tool_name)),
            ),
            PermissionPolicyDecision::AskUser => ToolStep::Ask,
        },
    }
}

/// The step that the user's answer leads to.
pub open spec fn step_after(tool_name: Seq<char>, response: ToolPauseResponse) -> StepView {
    match response {
        ToolPauseResponse::Permission { approved } => if approved {
            StepView::Run
        } else {
            StepView::Refuse(denied(tool_name))
        },
        ToolPauseResponse::Cancelled => StepView::Refuse(
            tools::failed("Tool execution cancelled"@),
        ),
        ToolPauseResponse::UserInput { .. } => StepView::Refuse(
            tools::failed("Received user input response for permission request"@),
        ),
    }
}

pub fn after_answer(tool_name: &str, response: &ToolPauseResponse) -> (r: ToolStep)
    ensures
        r@ == step_after(tool_name@, *response),
{
    match response {
        ToolPauseResponse::Permission { approved } => if *approved {
            ToolStep::Run
        } else {
            ToolStep::Refuse(
                ToolResult::error(text::concat("Permission denied for tool: ", tool_name)),
            )
        },
        ToolPauseResponse::Cancelled => ToolStep::Refuse(
            ToolResult::error(text::copy("Tool execution cancelled")),
        ),
        ToolPauseResponse::UserInput { .. } => ToolStep::Refuse(
            ToolResult::error(
                text::copy("Received user input response for permission request"),
            ),
        ),
    }
}

/// The tool calls that wait for an answer, each once.
#[derive(Debug)]
pub struct PendingToolPauses {
    ids: Vec<String>,
}

impl View for PendingToolPauses {
    type V = Seq<Seq<char>>;

    closed spec fn view(&self) -> Seq<Seq<char>> {
        text::views(self.ids@)
    }
}

/// `ids` without `id`.
pub open spec fn without_id(ids: Seq<Seq<char>>, id: Seq<char>) -> Seq<Seq<char>>
    decreases ids.len(),
{
    if ids.len() == 0 {
        Seq::empty()
    } else {
        let done = without_id(ids.drop_last(), id);
        if ids.last() == id {
            done
        } else {
            done.push(ids.last())
        }
    }
}

impl PendingToolPauses {
    pub fn new() -> (r: Self)
        ensures
            r@ == Seq::<Seq<char>>::empty(),
    {
        let r = PendingToolPauses { ids: Vec::new() };
        assert(r@ =~= Seq::empty());
        r
    }

    pub fn contains(&self, id: &str) -> (r: bool)
        ensures
            r == self@.contains(id@),
    {
        text::list_contains(&self.ids, id)
    }

    fn insert(&mut self, id: &str)
        ensures
            final(self)@ == old(self)@.push(id@),
    {
        broadcast use text::lemma_views_push;

        self.ids.push(text::copy(id));
    }

    /// Forgets `id`; says whether it was waiting.
    pub fn remove(&mut self, id: &str) -> (r: bool)
        ensures
            final(self)@ == without_id(old(self)@, id@),
            r == old(self)@.contains(id@),
    {
        broadcast use text::lemma_views_push;

        let ghost all = self@;
        let was = self.contains(id);
        let mut kept: Vec<String> = Vec::new();
        let mut i: usize = 0;
        assert(text::views(kept@) =~= Seq::empty());
        while i < self.ids.len()
            invariant
                i <= self.ids@.len(),
                all == text::views(self.ids@),
                text::views(kept@) == without_id(all.take(i as int), id@),
            decreases self.ids@.len() - i,
        {
            broadcast use text::lemma_views_push;

            assert(all.take(i + 1).drop_last() =~= all.take(i as int));
            assert(all.take(i + 1).last() == self.ids@[i as int]@);
            if !text::same(self.ids[i].as_str(), id) {
                kept.push(self.ids[i].clone());
            }
            i = i + 1;
        }
        assert(all.take(all.len() as int) =~= all);
        self.ids = kept;
        was
    }
}

/// How a request for permission goes on: with an answer that is already known, or with a
/// question to the user.
#[derive(Debug)]
pub enum PermissionRequest {
    Answered(ToolPauseResponse),
    Ask(ToolPauseRequest),
}

/// The call of a tool that is about to run.
#[derive(Debug)]
pub struct ToolExecutionContext {
    pub tool_use_id: String,
    pub tool_name: String,
    pub agent_label: Option<String>,
}

/// How asking for permission goes on, by whether the run was cancelled and which calls wait.
pub open spec fn asked(
    ctx: ToolExecutionContext,
    cancelled: bool,
    pending: Seq<Seq<char>>,
    preview: PermissionPreview,
) -> (PermissionRequest, Seq<Seq<char>>) {
    if cancelled {
        (PermissionRequest::Answered(ToolPauseResponse::Cancelled), pending)
    } else if pending.contains(ctx.tool_use_id@) {
        (
            PermissionRequest::Answered(ToolPauseResponse::Permission { approved: false }),
            pending,
        )
    } else {
        (
            PermissionRequest::Ask(
                ToolPauseRequest {
                    tool_use_id: ctx.tool_use_id,
                    tool_name: ctx.tool_name,
                    kind: ToolPauseKind::Permission(preview),
                    source_agent_label: ctx.agent_label,
                    permission_source: None,
                    preview_tool_use_id: None,
                },
            ),
            pending.push(ctx.tool_use_id@),
        )
    }
}

impl ToolExecutionContext {
    /// Asks whether the call may run. A call that already waits is refused.
    pub fn request_permission(
        &self,
        cancelled: bool,
        pending: &mut PendingToolPauses,
        preview: PermissionPreview,
    ) -> (r: PermissionRequest)
        ensures
            (r, final(pending)@) == asked(*self, cancelled, old(pending)@, preview),
    {
        if cancelled {
            return PermissionRequest::Answered(ToolPauseResponse::Cancelled);
        }
        if pending.contains(self.tool_use_id.as_str()) {
            return PermissionRequest::Answered(
                ToolPauseResponse::Permission { approved: false },
            );
        }
        pending.insert(self.tool_use_id.as_str());
        let source_agent_label = match &self.agent_label {
            Some(l) => Some(l.clone()),
            None => None,
        };
        PermissionRequest::Ask(
            ToolPauseRequest {
                tool_use_id: self.tool_use_id.clone(),
                tool_name: self.tool_name.clone(),
                kind: ToolPauseKind::Permission(preview),
                source_agent_label,
                permission_source: None,
                preview_tool_use_id: None,
            },
        )
    }

    /// Forgets that the call waits: its question could not be asked.
    pub fn remove_pending_pause(&self, pending: &mut PendingToolPauses)
        ensures
            final(pending)@ == without_id(old(pending)@, self.tool_use_id@),
    {
        let _was = pending.remove(self.tool_use_id.as_str());
    }
}

proof fn lemma_without_absent(ids: Seq<Seq<char>>, id: Seq<char>)
    requires
        !ids.contains(id),
    ensures
        without_id(ids, id) == ids,
    decreases ids.len(),
{
    if ids.len() > 0 {
        assert(ids[ids.len() - 1] != id);
        assert forall|k: int| 0 <= k < ids.drop_last().len() implies ids.drop_last()[k] != id by {
            assert(ids[k] != id);
        }
        lemma_without_absent(ids.drop_last(), id);
        assert(ids =~= ids.drop_last().push(ids.last()));
    } else {
        assert(ids =~= Seq::empty());
    }
}

/// Taking back a question leaves the calls that wait as they were before it was asked.
pub proof fn law_taking_back_restores(
    ctx: ToolExecutionContext,
    cancelled: bool,
    pending: Seq<Seq<char>>,
    preview: PermissionPreview,
)
    requires
        asked(ctx, cancelled, pending, preview).0 is Ask,
    ensures
        without_id(asked(ctx, cancelled, pending, preview).1, ctx.tool_use_id@) == pending,
{
    lemma_without_absent(pending, ctx.tool_use_id@);
    assert(pending.push(ctx.tool_use_id@).drop_last() =~= pending);
}

/// A call is asked about once: while it waits, asking again is refused and changes nothing.
pub proof fn law_asked_once(
    ctx: ToolExecutionContext,
    pending: Seq<Seq<char>>,
    preview: PermissionPreview,
    again: PermissionPreview,
)
    requires
        asked(ctx, false, pending, preview).0 is Ask,
    ensures
        ({
            let waiting = asked(ctx, false, pending, preview).1;
            asked(ctx, false, waiting, again) == (
                PermissionRequest::Answered(ToolPauseResponse::Permission { approved: false }),
                waiting,
            )
        }),
{
    let waiting = asked(ctx, false, pending, preview).1;
    assert(waiting[pending.len() as int] == ctx.tool_use_id@);
}

/// A tool with a preview runs only where the policy allows it or the user approves.
pub proof fn law_runs_only_when_allowed(
    tool_name: Seq<char>,
    decision: PermissionPolicyDecision,
    response: ToolPauseResponse,
)
    ensures
        step_for(tool_name, decision) is Run <==> decision == PermissionPolicyDecision::AutoAllow,
        step_after(tool_name, response) is Run <==> response == (ToolPauseResponse::Permission {
            approved: true,
        }),
{
}

} // verus!
