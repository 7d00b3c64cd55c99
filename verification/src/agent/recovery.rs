//! What a restarted process owes a session before normal work may go on.

use vstd::prelude::*;

use crate::rows::lemma_two_filtered;
use crate::session::{
    call_of, dispatch_of, lemma_call_of, lemma_dispatch_of, ModelRequested, PendingApproval,
    PendingToolCall, PendingToolDispatch, RecoveryBlock, SessionProjection, StepPosition,
};
use crate::text::{concat2, concat3};
use crate::types::{SideEffectClass, ToolCallId, TurnNo};

verus! {

/// Durable lifecycle position found while bootstrapping an agent.
///
/// It is separate from the live phase: after a restart no driver exists yet,
/// even if the history contains an unfinished turn or step.
#[derive(Clone, Copy, Debug, PartialEq, Eq, Structural)]
pub enum DurableCursor {
    Quiescent,
    OpenTurn { turn: TurnNo },
    OpenStep { position: StepPosition },
}

#[derive(Clone, Copy, Debug, PartialEq, Eq, Structural)]
pub enum ToolRetryRequirement {
    Unconditional,
    ProviderIdempotencyGuarantee,
}

#[derive(Debug, PartialEq)]
pub enum ToolRecoveryAction {
    /// The call is recorded, but it was never handed to a provider. The tool
    /// pipeline may restart from before the dispatch.
    StartUndispatched { call: PendingToolCall },
    /// The call may have reached a provider. A retry is a new attempt of the
    /// same logical call under the same idempotency key.
    RetryDispatched {
        call: PendingToolCall,
        previous_dispatch: PendingToolDispatch,
        next_attempt: u32,
        requirement: ToolRetryRequirement,
    },
}

#[derive(Debug, PartialEq)]
pub struct RecoveryBlockProposal {
    pub position: StepPosition,
    pub call: PendingToolCall,
    pub dispatch: PendingToolDispatch,
}

/// The decision on one projection at process start.
#[derive(Debug, PartialEq)]
pub enum ResumeDecision {
    /// Nothing durable is incomplete. A new turn may start when the inbox asks for it.
    Clean,
    /// A turn is open and no step is.
    ContinueOpenTurn { turn: TurnNo },
    /// A step is open with no unresolved external operation.
    ContinueOpenStep { position: StepPosition },
    /// A tool approval waits for a decision from outside.
    AwaitingApproval { position: StepPosition, approval: PendingApproval },
    /// A model request has neither answer nor failure. The interrupted attempt
    /// must be failed durably before a new one is made.
    RecoverInterruptedModelRequest { position: StepPosition, request: ModelRequested },
    /// Tool calls remain incomplete and may be resumed as each action says.
    RecoverToolBatch { position: StepPosition, actions: Vec<ToolRecoveryAction> },
    /// A dispatch that must not be repeated has no known outcome. The first
    /// recovery action is to make the block durable.
    PersistRecoveryBlock { proposal: RecoveryBlockProposal },
    /// A durable recovery block exists. Normal execution remains gated.
    Blocked { block: RecoveryBlock, cursor: DurableCursor },
}

#[verifier::ext_equal]
pub enum ResumeView {
    Clean,
    ContinueOpenTurn { turn: TurnNo },
    ContinueOpenStep { position: StepPosition },
    AwaitingApproval { position: StepPosition, approval: PendingApproval },
    RecoverInterruptedModelRequest { position: StepPosition, request: ModelRequested },
    RecoverToolBatch { position: StepPosition, actions: Seq<ToolRecoveryAction> },
    PersistRecoveryBlock { proposal: RecoveryBlockProposal },
    Blocked { block: RecoveryBlock, cursor: DurableCursor },
}

impl View for ResumeDecision {
    type V = ResumeView;

    open spec fn view(&self) -> ResumeView {
        match self {
            ResumeDecision::Clean => ResumeView::Clean,
            ResumeDecision::ContinueOpenTurn { turn } => ResumeView::ContinueOpenTurn {
                turn: *turn,
            },
            ResumeDecision::ContinueOpenStep { position } => ResumeView::ContinueOpenStep {
                position: *position,
            },
            ResumeDecision::AwaitingApproval { position, approval } => {
                ResumeView::AwaitingApproval { position: *position, approval: *approval }
            },
            ResumeDecision::RecoverInterruptedModelRequest { position, request } => {
                ResumeView::RecoverInterruptedModelRequest {
                    position: *position,
                    request: *request,
                }
            },
            ResumeDecision::RecoverToolBatch { position, actions } => {
                ResumeView::RecoverToolBatch { position: *position, actions: actions@ }
            },
            ResumeDecision::PersistRecoveryBlock { proposal } => {
                ResumeView::PersistRecoveryBlock { proposal: *proposal }
            },
            ResumeDecision::Blocked { block, cursor } => ResumeView::Blocked {
                block: *block,
                cursor: *cursor,
            },
        }
    }
}

impl ResumeDecision {
    pub fn is_clean(&self) -> (r: bool)
        ensures
            r == (self is Clean),
    {
        matches!(self, ResumeDecision::Clean)
    }

    pub fn blocks_new_turn(&self) -> (r: bool)
        ensures
            r == !(self is Clean),
    {
        !self.is_clean()
    }
}

/// A projection that no history can have.
#[derive(Debug, PartialEq, Eq)]
pub enum RecoveryAnalysisError {
    ModelRequestWithoutOpenStep,
    ModelAndToolWorkOverlap,
    ApprovalWithoutOpenStep,
    ApprovalAndModelOverlap,
    ApprovalAndDispatchOverlap,
    ApprovalOutsideOpenStep,
    ApprovalWithoutTool(ToolCallId),
    ToolWorkWithoutOpenStep,
    DispatchWithoutCall(ToolCallId),
    ToolCallOutsideOpenStep(ToolCallId),
    AttemptOverflow(ToolCallId),
    MultipleUnknownNonIdempotentDispatches,
}

pub open spec fn recovery_error_text(e: RecoveryAnalysisError) -> Seq<char> {
    match e {
        RecoveryAnalysisError::ModelRequestWithoutOpenStep => {
            "pending model request exists without an open step"@
        },
        RecoveryAnalysisError::ModelAndToolWorkOverlap => {
            "pending model request and pending tool calls coexist in one projection"@
        },
        RecoveryAnalysisError::ApprovalWithoutOpenStep => {
            "pending approval exists without an open step"@
        },
        RecoveryAnalysisError::ApprovalAndModelOverlap => {
            "pending approval and pending model request coexist in one projection"@
        },
        RecoveryAnalysisError::ApprovalAndDispatchOverlap => {
            "pending approval and unresolved tool dispatch coexist in one projection"@
        },
        RecoveryAnalysisError::ApprovalOutsideOpenStep => {
            "pending approval does not belong to the open step"@
        },
        RecoveryAnalysisError::ApprovalWithoutTool(id) => {
            "pending approval references missing tool call "@ + id@
        },
        RecoveryAnalysisError::ToolWorkWithoutOpenStep => {
            "pending tool work exists without an open step"@
        },
        RecoveryAnalysisError::DispatchWithoutCall(id) => {
            "pending tool dispatch "@ + id@ + " has no matching pending tool call"@
        },
        RecoveryAnalysisError::ToolCallOutsideOpenStep(id) => {
            "pending tool call "@ + id@ + " does not belong to the open step"@
        },
        RecoveryAnalysisError::AttemptOverflow(id) => {
            "tool call "@ + id@ + " dispatch attempt cannot be incremented"@
        },
        RecoveryAnalysisError::MultipleUnknownNonIdempotentDispatches => {
            "more than one non-idempotent-write dispatch is unresolved; v0.1 permits at most one"@
        },
    }
}

impl RecoveryAnalysisError {
    pub fn message(&self) -> (r: String)
        ensures
            r@ == recovery_error_text(*self),
    {
        match self {
            RecoveryAnalysisError::ModelRequestWithoutOpenStep => {
                "pending model request exists without an open step".to_owned()
            },
            RecoveryAnalysisError::ModelAndToolWorkOverlap => {
                "pending model request and pending tool calls coexist in one projection".to_owned()
            },
            RecoveryAnalysisError::ApprovalWithoutOpenStep => {
                "pending approval exists without an open step".to_owned()
            },
            RecoveryAnalysisError::ApprovalAndModelOverlap => {
                "pending approval and pending model request coexist in one projection".to_owned()
            },
            RecoveryAnalysisError::ApprovalAndDispatchOverlap => {
                "pending approval and unresolved tool dispatch coexist in one projection".to_owned()
            },
            RecoveryAnalysisError::ApprovalOutsideOpenStep => {
                "pending approval does not belong to the open step".to_owned()
            },
            RecoveryAnalysisError::ApprovalWithoutTool(id) => {
                concat2("pending approval references missing tool call ", id.as_str())
            },
            RecoveryAnalysisError::ToolWorkWithoutOpenStep => {
                "pending tool work exists without an open step".to_owned()
            },
            RecoveryAnalysisError::DispatchWithoutCall(id) => {
                concat3(
                    "pending tool dispatch ",
                    id.as_str(),
                    " has no matching pending tool call",
                )
            },
            RecoveryAnalysisError::ToolCallOutsideOpenStep(id) => {
                concat3("pending tool call ", id.as_str(), " does not belong to the open step")
            },
            RecoveryAnalysisError::AttemptOverflow(id) => {
                concat3("tool call ", id.as_str(), " dispatch attempt cannot be incremented")
            },
            RecoveryAnalysisError::MultipleUnknownNonIdempotentDispatches => {
                "more than one non-idempotent-write dispatch is unresolved; v0.1 permits at most one".to_owned()
            },
        }
    }
}

/// Where the history stands.
pub open spec fn cursor_of(p: SessionProjection) -> DurableCursor {
    match (p.lifecycle.open_step, p.lifecycle.open_turn) {
        (Some(position), _) => DurableCursor::OpenStep { position },
        (None, Some(turn)) => DurableCursor::OpenTurn { turn },
        (None, None) => DurableCursor::Quiescent,
    }
}

/// `calls`, which is in order of event sequence, with `c` put behind those that
/// do not come after it.
pub open spec fn insert_call(calls: Seq<PendingToolCall>, c: PendingToolCall) -> Seq<
    PendingToolCall,
>
    decreases calls.len(),
{
    if calls.len() == 0 || calls.last().call_seq@ <= c.call_seq@ {
        calls.push(c)
    } else {
        insert_call(calls.drop_last(), c).push(calls.last())
    }
}

/// The calls in order of event sequence.
pub open spec fn in_call_order(calls: Seq<PendingToolCall>) -> Seq<PendingToolCall>
    decreases calls.len(),
{
    if calls.len() == 0 {
        calls
    } else {
        insert_call(in_call_order(calls.drop_last()), calls.last())
    }
}

/// The first call that is not of the step at `position`.
pub open spec fn first_outside(calls: Seq<PendingToolCall>, position: StepPosition) -> Option<
    PendingToolCall,
>
    decreases calls.len(),
{
    if calls.len() == 0 {
        None
    } else if calls[0].turn != position.turn || calls[0].step != position.step {
        Some(calls[0])
    } else {
        first_outside(calls.drop_first(), position)
    }
}

/// The first dispatch that is of none of the calls.
pub open spec fn first_orphan(
    dispatches: Seq<PendingToolDispatch>,
    calls: Seq<PendingToolCall>,
) -> Option<PendingToolDispatch>
    decreases dispatches.len(),
{
    if dispatches.len() == 0 {
        None
    } else if call_of(calls, dispatches[0].data.call_id@) is None {
        Some(dispatches[0])
    } else {
        first_orphan(dispatches.drop_first(), calls)
    }
}

/// Whether the outcome of a call is unknown and the call must not be repeated.
pub open spec fn unknown_outcome(
    c: PendingToolCall,
    dispatches: Seq<PendingToolDispatch>,
) -> bool {
    c.data.side_effect == SideEffectClass::NonIdempotentWrite && dispatch_of(
        dispatches,
        c.data.call_id@,
    ) is Some
}

/// The calls whose outcome is unknown and that must not be repeated.
pub open spec fn unknown_calls(
    calls: Seq<PendingToolCall>,
    dispatches: Seq<PendingToolDispatch>,
) -> Seq<PendingToolCall> {
    calls.filter(|c: PendingToolCall| unknown_outcome(c, dispatches))
}

/// The first call whose dispatch cannot be numbered again.
pub open spec fn first_exhausted(
    calls: Seq<PendingToolCall>,
    dispatches: Seq<PendingToolDispatch>,
) -> Option<PendingToolCall>
    decreases calls.len(),
{
    if calls.len() == 0 {
        None
    } else if dispatch_of(dispatches, calls[0].data.call_id@) matches Some(d) && d.data.attempt
        == u32::MAX {
        Some(calls[0])
    } else {
        first_exhausted(calls.drop_first(), dispatches)
    }
}

pub open spec fn retry_requirement(side_effect: SideEffectClass) -> ToolRetryRequirement {
    if side_effect == SideEffectClass::ReadOnly {
        ToolRetryRequirement::Unconditional
    } else {
        ToolRetryRequirement::ProviderIdempotencyGuarantee
    }
}

/// How one call is resumed.
pub open spec fn action_for(
    c: PendingToolCall,
    dispatches: Seq<PendingToolDispatch>,
) -> ToolRecoveryAction {
    match dispatch_of(dispatches, c.data.call_id@) {
        None => ToolRecoveryAction::StartUndispatched { call: c },
        Some(d) => ToolRecoveryAction::RetryDispatched {
            call: c,
            previous_dispatch: d,
            next_attempt: (d.data.attempt + 1) as u32,
            requirement: retry_requirement(c.data.side_effect),
        },
    }
}

/// The decision on pending tool calls.
pub open spec fn tool_resume(p: SessionProjection, position: StepPosition) -> Result<
    ResumeView,
    RecoveryAnalysisError,
> {
    let calls = in_call_order(p.pending_tool_calls@);
    let dispatches = p.pending_tool_dispatches@;
    let unknown = unknown_calls(calls, dispatches);
    if let Some(c) = first_outside(calls, position) {
        Err(RecoveryAnalysisError::ToolCallOutsideOpenStep(c.data.call_id))
    } else if unknown.len() > 1 {
        Err(RecoveryAnalysisError::MultipleUnknownNonIdempotentDispatches)
    } else if unknown.len() == 1 {
        Ok(
            ResumeView::PersistRecoveryBlock {
                proposal: RecoveryBlockProposal {
                    position,
                    call: unknown[0],
                    dispatch: dispatch_of(dispatches, unknown[0].data.call_id@)->0,
                },
            },
        )
    } else if let Some(c) = first_exhausted(calls, dispatches) {
        Err(RecoveryAnalysisError::AttemptOverflow(c.data.call_id))
    } else {
        Ok(
            ResumeView::RecoverToolBatch {
                position,
                actions: calls.map_values(|c: PendingToolCall| action_for(c, dispatches)),
            },
        )
    }
}

/// The decision on a pending approval.
pub open spec fn approval_resume(p: SessionProjection, a: PendingApproval) -> Result<
    ResumeView,
    RecoveryAnalysisError,
> {
    if p.pending_model_request is Some {
        Err(RecoveryAnalysisError::ApprovalAndModelOverlap)
    } else if p.pending_tool_dispatches@.len() > 0 {
        Err(RecoveryAnalysisError::ApprovalAndDispatchOverlap)
    } else {
        match p.lifecycle.open_step {
            None => Err(RecoveryAnalysisError::ApprovalWithoutOpenStep),
            Some(position) => if a.turn != position.turn || a.step != position.step {
                Err(RecoveryAnalysisError::ApprovalOutsideOpenStep)
            } else if call_of(p.pending_tool_calls@, a.data.call_id@) is None {
                Err(RecoveryAnalysisError::ApprovalWithoutTool(a.data.call_id))
            } else {
                Ok(ResumeView::AwaitingApproval { position, approval: a })
            },
        }
    }
}

/// The decision on a projection: a durable block first, then a pending
/// approval, then a pending model request, then pending tool calls, then the
/// cursor.
pub open spec fn resume_of(p: SessionProjection) -> Result<ResumeView, RecoveryAnalysisError> {
    if let Some(block) = p.unresolved_recovery {
        Ok(ResumeView::Blocked { block, cursor: cursor_of(p) })
    } else if let Some(a) = p.pending_approval {
        approval_resume(p, a)
    } else if let Some(d) = first_orphan(p.pending_tool_dispatches@, p.pending_tool_calls@) {
        Err(RecoveryAnalysisError::DispatchWithoutCall(d.data.call_id))
    } else if let Some(request) = p.pending_model_request {
        if p.pending_tool_calls@.len() > 0 {
            Err(RecoveryAnalysisError::ModelAndToolWorkOverlap)
        } else {
            match p.lifecycle.open_step {
                None => Err(RecoveryAnalysisError::ModelRequestWithoutOpenStep),
                Some(position) => Ok(
                    ResumeView::RecoverInterruptedModelRequest { position, request },
                ),
            }
        }
    } else if p.pending_tool_calls@.len() > 0 {
        match p.lifecycle.open_step {
            None => Err(RecoveryAnalysisError::ToolWorkWithoutOpenStep),
            Some(position) => tool_resume(p, position),
        }
    } else {
        match cursor_of(p) {
            DurableCursor::Quiescent => Ok(ResumeView::Clean),
            DurableCursor::OpenTurn { turn } => Ok(ResumeView::ContinueOpenTurn { turn }),
            DurableCursor::OpenStep { position } => Ok(ResumeView::ContinueOpenStep { position }),
        }
    }
}

/// The view of an analysis.
pub open spec fn analysis_view(r: Result<ResumeDecision, RecoveryAnalysisError>) -> Result<
    ResumeView,
    RecoveryAnalysisError,
> {
    match r {
        Ok(d) => Ok(d@),
        Err(e) => Err(e),
    }
}

proof fn lemma_insert_call(calls: Seq<PendingToolCall>, c: PendingToolCall, k: int)
    requires
        0 <= k <= calls.len(),
        k > 0 ==> calls[k - 1].call_seq@ <= c.call_seq@,
        forall|j: int| k <= j < calls.len() ==> (#[trigger] calls[j]).call_seq@ > c.call_seq@,
    ensures
        insert_call(calls, c) == calls.insert(k, c),
    decreases calls.len(),
{
    if k == calls.len() {
        assert(calls.insert(k, c) =~= calls.push(c));
    } else {
        lemma_insert_call(calls.drop_last(), c, k);
        assert(calls.insert(k, c) =~= calls.drop_last().insert(k, c).push(calls.last()));
    }
}

/// The pending calls in order of event sequence.
fn sort_calls(calls: &Vec<PendingToolCall>) -> (r: Vec<PendingToolCall>)
    ensures
        r@ == in_call_order(calls@),
{
    let mut sorted: Vec<PendingToolCall> = Vec::new();
    let mut i: usize = 0;
    while i < calls.len()
        invariant
            i <= calls@.len(),
            sorted@ == in_call_order(calls@.take(i as int)),
        decreases calls@.len() - i,
    {
        let call = calls[i].clone();
        let mut k: usize = sorted.len();
        while k > 0 && call.call_seq.before(&sorted[k - 1].call_seq)
            invariant
                k <= sorted@.len(),
                forall|j: int|
                    k <= j < sorted@.len() ==> (#[trigger] sorted@[j]).call_seq@ > call.call_seq@,
            decreases k,
        {
            k = k - 1;
        }
        proof {
            lemma_insert_call(sorted@, call, k as int);
            assert(calls@.take(i + 1).drop_last() =~= calls@.take(i as int));
        }
        sorted.insert(k, call);
        i = i + 1;
    }
    assert(calls@.take(i as int) =~= calls@);
    sorted
}

fn find_outside(calls: &Vec<PendingToolCall>, position: StepPosition) -> (r: Option<ToolCallId>)
    ensures
        match r {
            Some(id) => first_outside(calls@, position) matches Some(c) && c.data.call_id == id,
            None => first_outside(calls@, position) is None,
        },
{
    let mut i: usize = 0;
    assert(calls@.skip(0) =~= calls@);
    while i < calls.len()
        invariant
            i <= calls@.len(),
            first_outside(calls@, position) == first_outside(calls@.skip(i as int), position),
        decreases calls@.len() - i,
    {
        assert(calls@.skip(i as int).drop_first() =~= calls@.skip(i + 1));
        if calls[i].turn != position.turn || calls[i].step != position.step {
            return Some(calls[i].data.call_id.clone());
        }
        i = i + 1;
    }
    None
}

fn find_orphan(p: &SessionProjection) -> (r: Option<ToolCallId>)
    ensures
        match r {
            Some(id) => first_orphan(p.pending_tool_dispatches@, p.pending_tool_calls@) matches Some(
                d,
            ) && d.data.call_id == id,
            None => first_orphan(p.pending_tool_dispatches@, p.pending_tool_calls@) is None,
        },
{
    let dispatches = &p.pending_tool_dispatches;
    let mut i: usize = 0;
    assert(dispatches@.skip(0) =~= dispatches@);
    while i < dispatches.len()
        invariant
            dispatches == p.pending_tool_dispatches,
            i <= dispatches@.len(),
            first_orphan(dispatches@, p.pending_tool_calls@) == first_orphan(
                dispatches@.skip(i as int),
                p.pending_tool_calls@,
            ),
        decreases dispatches@.len() - i,
    {
        assert(dispatches@.skip(i as int).drop_first() =~= dispatches@.skip(i + 1));
        let id = &dispatches[i].data.call_id;
        if p.pending_call(id).is_none() {
            return Some(id.clone());
        }
        i = i + 1;
    }
    None
}

/// The calls of `calls` that must not be repeated and whose outcome is unknown,
/// each with its dispatch.
fn find_unknown(calls: &Vec<PendingToolCall>, p: &SessionProjection) -> (r: Vec<
    (PendingToolCall, PendingToolDispatch),
>)
    ensures
        r@.len() == unknown_calls(calls@, p.pending_tool_dispatches@).len(),
        forall|i: int|
            0 <= i < r@.len() ==> (#[trigger] r@[i]).0 == unknown_calls(
                calls@,
                p.pending_tool_dispatches@,
            )[i] && dispatch_of(p.pending_tool_dispatches@, r@[i].0.data.call_id@) == Some(r@[i].1),
{
    let ghost dispatches = p.pending_tool_dispatches@;
    let mut found: Vec<(PendingToolCall, PendingToolDispatch)> = Vec::new();
    let mut i: usize = 0;
    proof {
        reveal(Seq::filter);
    }
    while i < calls.len()
        invariant
            dispatches == p.pending_tool_dispatches@,
            i <= calls@.len(),
            found@.len() == unknown_calls(calls@.take(i as int), dispatches).len(),
            forall|j: int|
                0 <= j < found@.len() ==> (#[trigger] found@[j]).0 == unknown_calls(
                    calls@.take(i as int),
                    dispatches,
                )[j] && dispatch_of(dispatches, found@[j].0.data.call_id@) == Some(found@[j].1),
        decreases calls@.len() - i,
    {
        proof {
            reveal(Seq::filter);
            assert(calls@.take(i + 1).drop_last() =~= calls@.take(i as int));
            assert(calls@.take(i + 1).last() == calls@[i as int]);
        }
        let call = &calls[i];
        if let Some(dispatch) = p.pending_dispatch(&call.data.call_id) {
            if call.data.side_effect == SideEffectClass::NonIdempotentWrite {
                found.push((call.clone(), dispatch.clone()));
            }
        }
        i = i + 1;
    }
    assert(calls@.take(i as int) =~= calls@);
    found
}

/// The way back from an interruption.
#[derive(Clone, Copy, Debug, Default)]
pub struct RecoveryAnalyzer;

impl RecoveryAnalyzer {
    /// Decides what `projection` calls for, or names what is wrong with it.
    pub fn analyze(&self, projection: &SessionProjection) -> (r: Result<
        ResumeDecision,
        RecoveryAnalysisError,
    >)
        ensures
            analysis_view(r) == resume_of(*projection),
    {
        let cursor = durable_cursor(projection);

        if let Some(block) = &projection.unresolved_recovery {
            return Ok(ResumeDecision::Blocked { block: block.clone(), cursor });
        }
        if let Some(approval) = &projection.pending_approval {
            if projection.pending_model_request.is_some() {
                return Err(RecoveryAnalysisError::ApprovalAndModelOverlap);
            }
            if !projection.pending_tool_dispatches.is_empty() {
                return Err(RecoveryAnalysisError::ApprovalAndDispatchOverlap);
            }
            let position = match projection.lifecycle.open_step {
                Some(position) => position,
                None => {
                    return Err(RecoveryAnalysisError::ApprovalWithoutOpenStep);
                },
            };
            if approval.turn != position.turn || approval.step != position.step {
                return Err(RecoveryAnalysisError::ApprovalOutsideOpenStep);
            }
            if projection.pending_call(&approval.data.call_id).is_none() {
                return Err(
                    RecoveryAnalysisError::ApprovalWithoutTool(approval.data.call_id.clone()),
                );
            }
            return Ok(ResumeDecision::AwaitingApproval { position, approval: approval.clone() });
        }
        if let Some(id) = find_orphan(projection) {
            return Err(RecoveryAnalysisError::DispatchWithoutCall(id));
        }
        if let Some(request) = &projection.pending_model_request {
            if !projection.pending_tool_calls.is_empty() {
                return Err(RecoveryAnalysisError::ModelAndToolWorkOverlap);
            }
            return match projection.lifecycle.open_step {
                Some(position) => Ok(
                    ResumeDecision::RecoverInterruptedModelRequest {
                        position,
                        request: request.clone(),
                    },
                ),
                None => Err(RecoveryAnalysisError::ModelRequestWithoutOpenStep),
            };
        }
        if !projection.pending_tool_calls.is_empty() {
            return match projection.lifecycle.open_step {
                Some(position) => analyze_tools(projection, position),
                None => Err(RecoveryAnalysisError::ToolWorkWithoutOpenStep),
            };
        }
        Ok(
            match cursor {
                DurableCursor::Quiescent => ResumeDecision::Clean,
                DurableCursor::OpenTurn { turn } => ResumeDecision::ContinueOpenTurn { turn },
                DurableCursor::OpenStep { position } => ResumeDecision::ContinueOpenStep {
                    position,
                },
            },
        )
    }
}

/// Decides how pending tool calls are taken up again.
fn analyze_tools(projection: &SessionProjection, position: StepPosition) -> (r: Result<
    ResumeDecision,
    RecoveryAnalysisError,
>)
    ensures
        analysis_view(r) == tool_resume(*projection, position),
{
    let calls = sort_calls(&projection.pending_tool_calls);
    let ghost dispatches = projection.pending_tool_dispatches@;
    if let Some(id) = find_outside(&calls, position) {
        return Err(RecoveryAnalysisError::ToolCallOutsideOpenStep(id));
    }
    let mut unknown = find_unknown(&calls, projection);
    if unknown.len() > 1 {
        return Err(RecoveryAnalysisError::MultipleUnknownNonIdempotentDispatches);
    }
    if let Some((call, dispatch)) = unknown.pop() {
        return Ok(
            ResumeDecision::PersistRecoveryBlock {
                proposal: RecoveryBlockProposal { position, call, dispatch },
            },
        );
    }
    let mut actions: Vec<ToolRecoveryAction> = Vec::new();
    let mut i: usize = 0;
    assert(calls@.skip(0) =~= calls@);
    while i < calls.len()
        invariant
            dispatches == projection.pending_tool_dispatches@,
            i <= calls@.len(),
            unknown_calls(calls@, dispatches).len() == 0,
            first_exhausted(calls@, dispatches) == first_exhausted(
                calls@.skip(i as int),
                dispatches,
            ),
            actions@ =~= calls@.take(i as int).map_values(
                |c: PendingToolCall| action_for(c, dispatches),
            ),
            calls@ == in_call_order(projection.pending_tool_calls@),
            first_outside(calls@, position) is None,
        decreases calls@.len() - i,
    {
        assert(calls@.skip(i as int).drop_first() =~= calls@.skip(i + 1));
        assert(calls@.skip(i as int)[0] == calls@[i as int]);
        proof {
            lemma_no_unknown(calls@, dispatches, i as int);
        }
        let call = calls[i].clone();
        let action = match projection.pending_dispatch(&call.data.call_id) {
            None => ToolRecoveryAction::StartUndispatched { call },
            Some(dispatch) => {
                if dispatch.data.attempt == u32::MAX {
                    return Err(RecoveryAnalysisError::AttemptOverflow(call.data.call_id));
                }
                let requirement = if call.data.side_effect == SideEffectClass::ReadOnly {
                    ToolRetryRequirement::Unconditional
                } else {
                    ToolRetryRequirement::ProviderIdempotencyGuarantee
                };
                ToolRecoveryAction::RetryDispatched {
                    call,
                    previous_dispatch: dispatch.clone(),
                    next_attempt: dispatch.data.attempt + 1,
                    requirement,
                }
            },
        };
        actions.push(action);
        i = i + 1;
    }
    assert(calls@.take(i as int) =~= calls@);
    Ok(ResumeDecision::RecoverToolBatch { position, actions })
}

fn durable_cursor(projection: &SessionProjection) -> (r: DurableCursor)
    ensures
        r == cursor_of(*projection),
{
    if let Some(position) = projection.lifecycle.open_step {
        DurableCursor::OpenStep { position }
    } else if let Some(turn) = projection.lifecycle.open_turn {
        DurableCursor::OpenTurn { turn }
    } else {
        DurableCursor::Quiescent
    }
}

proof fn lemma_no_unknown(
    calls: Seq<PendingToolCall>,
    dispatches: Seq<PendingToolDispatch>,
    i: int,
)
    requires
        unknown_calls(calls, dispatches).len() == 0,
        0 <= i < calls.len(),
    ensures
        !unknown_outcome(calls[i], dispatches),
{
    let unknown = |c: PendingToolCall| unknown_outcome(c, dispatches);
    if unknown(calls[i]) {
        assert(calls.filter(unknown).contains(calls[i]));
    }
}

/// The call that an action resumes.
pub open spec fn action_call(a: ToolRecoveryAction) -> PendingToolCall {
    match a {
        ToolRecoveryAction::StartUndispatched { call } => call,
        ToolRecoveryAction::RetryDispatched { call, .. } => call,
    }
}

/// Whether a row of calls is in order of event sequence.
pub open spec fn ascending(calls: Seq<PendingToolCall>) -> bool {
    forall|i: int, j: int|
        0 <= i <= j < calls.len() ==> (#[trigger] calls[i]).call_seq@ <= (
        #[trigger] calls[j]).call_seq@
}

proof fn lemma_insert_keeps_order(calls: Seq<PendingToolCall>, c: PendingToolCall)
    requires
        ascending(calls),
    ensures
        ascending(insert_call(calls, c)),
        insert_call(calls, c).to_multiset() == calls.to_multiset().insert(c),
        insert_call(calls, c).len() == calls.len() + 1,
        forall|b: int|
            #![trigger below(insert_call(calls, c), b)]
            below(calls, b) && c.call_seq@ <= b ==> below(insert_call(calls, c), b),
    decreases calls.len(),
{
    broadcast use vstd::seq_lib::group_to_multiset_ensures;

    if calls.len() == 0 || calls.last().call_seq@ <= c.call_seq@ {
    } else {
        let rest = calls.drop_last();
        lemma_insert_keeps_order(rest, c);
        assert(below(rest, calls.last().call_seq@));
        assert(below(insert_call(rest, c), calls.last().call_seq@));
        assert(calls =~= rest.push(calls.last()));
        assert(rest.to_multiset().insert(c).insert(calls.last()) =~= rest.to_multiset().insert(
            calls.last(),
        ).insert(c));
        assert forall|b: int|
            #![trigger below(insert_call(calls, c), b)]
            below(calls, b) && c.call_seq@ <= b implies below(insert_call(calls, c), b) by {
            assert(below(rest, b));
            assert(below(insert_call(rest, c), b));
            assert(calls[calls.len() - 1].call_seq@ <= b);
        }
    }
}

spec fn below(calls: Seq<PendingToolCall>, b: int) -> bool {
    forall|i: int| 0 <= i < calls.len() ==> (#[trigger] calls[i]).call_seq@ <= b
}

/// Putting calls in order of event sequence neither loses nor adds one.
pub proof fn law_call_order(calls: Seq<PendingToolCall>)
    ensures
        ascending(in_call_order(calls)),
        in_call_order(calls).to_multiset() == calls.to_multiset(),
        in_call_order(calls).len() == calls.len(),
    decreases calls.len(),
{
    broadcast use vstd::seq_lib::group_to_multiset_ensures;

    if calls.len() > 0 {
        law_call_order(calls.drop_last());
        lemma_insert_keeps_order(in_call_order(calls.drop_last()), calls.last());
        assert(calls =~= calls.drop_last().push(calls.last()));
    }
}

/// Interrupted tool calls are resumed in order of event sequence, whatever their
/// identifiers are, and each pending call is resumed exactly once.
pub proof fn law_recovery_order_is_event_order(
    p: SessionProjection,
    position: StepPosition,
    actions: Seq<ToolRecoveryAction>,
)
    requires
        resume_of(p) == Ok::<ResumeView, RecoveryAnalysisError>(
            ResumeView::RecoverToolBatch { position, actions },
        ),
    ensures
        ascending(actions.map_values(|a: ToolRecoveryAction| action_call(a))),
        actions.map_values(|a: ToolRecoveryAction| action_call(a)).to_multiset()
            == p.pending_tool_calls@.to_multiset(),
{
    law_call_order(p.pending_tool_calls@);
    let calls = in_call_order(p.pending_tool_calls@);
    assert(actions.map_values(|a: ToolRecoveryAction| action_call(a)) =~= calls);
}

/// A call whose repetition could do harm is never retried once it may have
/// reached a provider; a retry is the next attempt of the same logical call.
pub proof fn law_retries_are_safe(
    p: SessionProjection,
    position: StepPosition,
    actions: Seq<ToolRecoveryAction>,
    i: int,
)
    requires
        resume_of(p) == Ok::<ResumeView, RecoveryAnalysisError>(
            ResumeView::RecoverToolBatch { position, actions },
        ),
        0 <= i < actions.len(),
    ensures
        actions[i] matches ToolRecoveryAction::RetryDispatched {
            call,
            previous_dispatch,
            next_attempt,
            requirement,
        } ==> {
            &&& call.data.side_effect != SideEffectClass::NonIdempotentWrite
            &&& previous_dispatch.data.call_id@ == call.data.call_id@
            &&& next_attempt == previous_dispatch.data.attempt + 1
            &&& requirement == retry_requirement(call.data.side_effect)
        },
        actions[i] matches ToolRecoveryAction::StartUndispatched { call } ==> dispatch_of(
            p.pending_tool_dispatches@,
            call.data.call_id@,
        ) is None,
{
    let calls = in_call_order(p.pending_tool_calls@);
    let dispatches = p.pending_tool_dispatches@;
    assert(actions[i] == action_for(calls[i], dispatches));
    lemma_no_unknown(calls, dispatches, i);
    lemma_dispatch_of(dispatches, calls[i].data.call_id@);
    lemma_not_exhausted(calls, dispatches, i);
}

proof fn lemma_not_exhausted(
    calls: Seq<PendingToolCall>,
    dispatches: Seq<PendingToolDispatch>,
    i: int,
)
    requires
        first_exhausted(calls, dispatches) is None,
        0 <= i < calls.len(),
    ensures
        dispatch_of(dispatches, calls[i].data.call_id@) matches Some(d) ==> d.data.attempt
            != u32::MAX,
    decreases calls.len(),
{
    if i > 0 {
        lemma_not_exhausted(calls.drop_first(), dispatches, i - 1);
    }
}

/// A pending call whose repetition could do harm and that may have reached a
/// provider stops normal work: the decision is a recovery block, made durable
/// first where it is not yet, or the projection is refused.
pub proof fn law_unknown_outcome_stops_work(p: SessionProjection, i: int)
    requires
        0 <= i < p.pending_tool_calls@.len(),
        unknown_outcome(p.pending_tool_calls@[i], p.pending_tool_dispatches@),
    ensures
        resume_of(p) matches Ok(d) ==> d is Blocked || d is PersistRecoveryBlock,
{
    let calls = in_call_order(p.pending_tool_calls@);
    let dispatches = p.pending_tool_dispatches@;
    let c = p.pending_tool_calls@[i];
    lemma_dispatch_of(dispatches, c.data.call_id@);
    law_call_order(p.pending_tool_calls@);
    broadcast use vstd::seq_lib::group_to_multiset_ensures;

    assert(p.pending_tool_calls@.contains(c));
    assert(p.pending_tool_calls@.to_multiset().count(c) > 0);
    assert(calls.to_multiset().count(c) > 0);
    let unknown = |x: PendingToolCall| unknown_outcome(x, dispatches);
    let k = choose|k: int| 0 <= k < calls.len() && calls[k] == c;
    assert(unknown(calls[k]));
    assert(calls.filter(unknown).contains(calls[k]));
    assert(unknown_calls(calls, dispatches).len() > 0);
}

/// A new turn may start only when nothing durable is left open: no block, no
/// approval, no model request, no tool work, no turn and no step.
pub proof fn law_clean_means_nothing_open(p: SessionProjection)
    ensures
        (resume_of(p) == Ok::<ResumeView, RecoveryAnalysisError>(ResumeView::Clean)) <==> {
            &&& p.unresolved_recovery is None
            &&& p.pending_approval is None
            &&& p.pending_model_request is None
            &&& p.pending_tool_calls@.len() == 0
            &&& p.pending_tool_dispatches@.len() == 0
            &&& p.lifecycle.open_turn is None
            &&& p.lifecycle.open_step is None
        },
{
    if p.pending_tool_calls@.len() == 0 && p.pending_tool_dispatches@.len() > 0 {
        lemma_call_of(p.pending_tool_calls@, p.pending_tool_dispatches@[0].data.call_id@);
    }
}

/// A durable recovery block overrides everything else that is pending.
pub proof fn law_durable_block_wins(p: SessionProjection, block: RecoveryBlock)
    requires
        p.unresolved_recovery == Some(block),
    ensures
        resume_of(p) == Ok::<ResumeView, RecoveryAnalysisError>(
            ResumeView::Blocked { block, cursor: cursor_of(p) },
        ),
{
}

/// A pending approval of a pending call of the open step is waited for; an approval that
/// contradicts the rest of the history is refused.
pub proof fn law_pending_approval_is_waited_for(p: SessionProjection, a: PendingApproval)
    requires
        p.unresolved_recovery is None,
        p.pending_approval == Some(a),
    ensures
        ({
            let sound = {
                &&& p.pending_model_request is None
                &&& p.pending_tool_dispatches@.len() == 0
                &&& p.lifecycle.open_step matches Some(position) && position.turn == a.turn
                    && position.step == a.step
                &&& exists|i: int|
                    0 <= i < p.pending_tool_calls@.len() && (
                    #[trigger] p.pending_tool_calls@[i]).data.call_id@ == a.data.call_id@
            };
            if sound {
                resume_of(p) == Ok::<ResumeView, RecoveryAnalysisError>(
                    ResumeView::AwaitingApproval {
                        position: p.lifecycle.open_step->0,
                        approval: a,
                    },
                )
            } else {
                resume_of(p) is Err
            }
        }),
{
    lemma_call_of(p.pending_tool_calls@, a.data.call_id@);
}

/// A model request without answer or failure is recovered in its step; together with tool
/// calls, or without a step, it is refused.
pub proof fn law_interrupted_request_is_recovered(p: SessionProjection, request: ModelRequested)
    requires
        p.unresolved_recovery is None,
        p.pending_approval is None,
        p.pending_model_request == Some(request),
    ensures
        if p.pending_tool_calls@.len() == 0 && p.pending_tool_dispatches@.len() == 0
            && p.lifecycle.open_step is Some {
            resume_of(p) == Ok::<ResumeView, RecoveryAnalysisError>(
                ResumeView::RecoverInterruptedModelRequest {
                    position: p.lifecycle.open_step->0,
                    request,
                },
            )
        } else {
            resume_of(p) is Err
        },
{
    if p.pending_tool_dispatches@.len() > 0 && p.pending_tool_calls@.len() == 0 {
        lemma_call_of(p.pending_tool_calls@, p.pending_tool_dispatches@[0].data.call_id@);
    }
}

/// With nothing pending the history goes on where it stands: in the open step, else in the
/// open turn.
pub proof fn law_open_work_goes_on(p: SessionProjection)
    requires
        p.unresolved_recovery is None,
        p.pending_approval is None,
        p.pending_model_request is None,
        p.pending_tool_calls@.len() == 0,
        p.pending_tool_dispatches@.len() == 0,
    ensures
        p.lifecycle.open_step matches Some(position) ==> resume_of(p) == Ok::<
            ResumeView,
            RecoveryAnalysisError,
        >(ResumeView::ContinueOpenStep { position }),
        p.lifecycle.open_step is None ==> (p.lifecycle.open_turn matches Some(turn) ==> resume_of(p)
            == Ok::<ResumeView, RecoveryAnalysisError>(ResumeView::ContinueOpenTurn { turn })),
{
}

/// A durable block is reported with the place where the history stands.
pub proof fn law_block_is_reported_in_place(p: SessionProjection, block: RecoveryBlock)
    requires
        p.unresolved_recovery == Some(block),
    ensures
        resume_of(p) matches Ok(ResumeView::Blocked { block: b, cursor }) && b == block && match (
            p.lifecycle.open_step,
            p.lifecycle.open_turn,
        ) {
            (Some(position), _) => cursor == (DurableCursor::OpenStep { position }),
            (None, Some(turn)) => cursor == (DurableCursor::OpenTurn { turn }),
            (None, None) => cursor == DurableCursor::Quiescent,
        },
{
}

proof fn lemma_first_outside(calls: Seq<PendingToolCall>, position: StepPosition)
    ensures
        first_outside(calls, position) is None <==> forall|i: int|
            0 <= i < calls.len() ==> (#[trigger] calls[i]).turn == position.turn && calls[i].step
                == position.step,
    decreases calls.len(),
{
    if calls.len() > 0 {
        let rest = calls.drop_first();
        lemma_first_outside(rest, position);
        if first_outside(calls, position) is None {
            assert forall|i: int| 0 <= i < calls.len() implies (#[trigger] calls[i]).turn
                == position.turn && calls[i].step == position.step by {
                if i > 0 {
                    assert(rest[i - 1] == calls[i]);
                }
            }
        } else if forall|i: int|
            0 <= i < calls.len() ==> (#[trigger] calls[i]).turn == position.turn && calls[i].step
                == position.step {
            assert(calls[0].turn == position.turn);
            assert forall|i: int| 0 <= i < rest.len() implies (#[trigger] rest[i]).turn
                == position.turn && rest[i].step == position.step by {
                assert(calls[i + 1].turn == position.turn);
            }
        }
    }
}

proof fn lemma_first_orphan(dispatches: Seq<PendingToolDispatch>, calls: Seq<PendingToolCall>)
    ensures
        first_orphan(dispatches, calls) is None <==> forall|i: int|
            0 <= i < dispatches.len() ==> call_of(
                calls,
                (#[trigger] dispatches[i]).data.call_id@,
            ) is Some,
    decreases dispatches.len(),
{
    if dispatches.len() > 0 {
        let rest = dispatches.drop_first();
        lemma_first_orphan(rest, calls);
        if first_orphan(dispatches, calls) is None {
            assert forall|i: int| 0 <= i < dispatches.len() implies call_of(
                calls,
                (#[trigger] dispatches[i]).data.call_id@,
            ) is Some by {
                if i > 0 {
                    assert(rest[i - 1] == dispatches[i]);
                }
            }
        } else if forall|i: int|
            0 <= i < dispatches.len() ==> call_of(
                calls,
                (#[trigger] dispatches[i]).data.call_id@,
            ) is Some {
            assert(call_of(calls, dispatches[0].data.call_id@) is Some);
            assert forall|i: int| 0 <= i < rest.len() implies call_of(
                calls,
                (#[trigger] rest[i]).data.call_id@,
            ) is Some by {
                assert(call_of(calls, dispatches[i + 1].data.call_id@) is Some);
            }
        }
    }
}

proof fn lemma_first_exhausted(calls: Seq<PendingToolCall>, dispatches: Seq<PendingToolDispatch>)
    requires
        forall|i: int|
            0 <= i < calls.len() ==> (dispatch_of(
                dispatches,
                (#[trigger] calls[i]).data.call_id@,
            ) matches Some(d) ==> d.data.attempt < u32::MAX),
    ensures
        first_exhausted(calls, dispatches) is None,
    decreases calls.len(),
{
    if calls.len() > 0 {
        let rest = calls.drop_first();
        assert forall|i: int| 0 <= i < rest.len() implies (dispatch_of(
            dispatches,
            (#[trigger] rest[i]).data.call_id@,
        ) matches Some(d) ==> d.data.attempt < u32::MAX) by {
            assert(rest[i] == calls[i + 1]);
        }
        lemma_first_exhausted(rest, dispatches);
        assert(calls[0] == calls[0]);
    }
}

/// Whether the pending work is tool calls of the step at `position` and nothing else.
pub open spec fn only_tools_pend(p: SessionProjection, position: StepPosition) -> bool {
    &&& p.unresolved_recovery is None
    &&& p.pending_approval is None
    &&& p.pending_model_request is None
    &&& p.lifecycle.open_step == Some(position)
    &&& p.pending_tool_calls@.len() > 0
    &&& forall|i: int|
        0 <= i < p.pending_tool_calls@.len() ==> (#[trigger] p.pending_tool_calls@[i]).turn
            == position.turn && p.pending_tool_calls@[i].step == position.step
    &&& forall|i: int|
        0 <= i < p.pending_tool_dispatches@.len() ==> call_of(
            p.pending_tool_calls@,
            (#[trigger] p.pending_tool_dispatches@[i]).data.call_id@,
        ) is Some
}

proof fn lemma_only_tools_pend(p: SessionProjection, position: StepPosition)
    requires
        only_tools_pend(p, position),
    ensures
        resume_of(p) == tool_resume(p, position),
        first_outside(in_call_order(p.pending_tool_calls@), position) is None,
        forall|c: PendingToolCall|
            in_call_order(p.pending_tool_calls@).contains(c) <==> p.pending_tool_calls@.contains(c),
{
    broadcast use vstd::seq_lib::group_to_multiset_ensures;

    let calls = p.pending_tool_calls@;
    let sorted = in_call_order(calls);
    law_call_order(calls);
    lemma_first_orphan(p.pending_tool_dispatches@, calls);
    assert forall|c: PendingToolCall| sorted.contains(c) <==> calls.contains(c) by {
        assert(sorted.to_multiset().count(c) == calls.to_multiset().count(c));
    }
    assert forall|i: int| 0 <= i < sorted.len() implies (#[trigger] sorted[i]).turn == position.turn
        && sorted[i].step == position.step by {
        assert(sorted.contains(sorted[i]));
        assert(calls.contains(sorted[i]));
        let k = choose|k: int| 0 <= k < calls.len() && calls[k] == sorted[i];
        assert(calls[k].turn == position.turn);
    }
    lemma_first_outside(sorted, position);
}

/// Interrupted tool calls that may all be repeated are resumed. A call that never reached
/// a provider starts anew, and one that may have is tried again under the next number:
/// freely if it only reads, and otherwise only where its provider guarantees that a
/// repetition does nothing.
pub proof fn law_interrupted_calls_are_resumed(p: SessionProjection, position: StepPosition, k: int)
    requires
        only_tools_pend(p, position),
        0 <= k < p.pending_tool_calls@.len(),
        forall|i: int|
            0 <= i < p.pending_tool_calls@.len() ==> (dispatch_of(
                p.pending_tool_dispatches@,
                (#[trigger] p.pending_tool_calls@[i]).data.call_id@,
            ) matches Some(d) ==> d.data.attempt < u32::MAX
                && p.pending_tool_calls@[i].data.side_effect
                != SideEffectClass::NonIdempotentWrite),
    ensures
        ({
            let c = p.pending_tool_calls@[k];
            &&& resume_of(p) matches Ok(ResumeView::RecoverToolBatch { position: at, actions })
            &&& at == position
            &&& actions.len() == p.pending_tool_calls@.len()
            &&& match dispatch_of(p.pending_tool_dispatches@, c.data.call_id@) {
                None => actions.contains(ToolRecoveryAction::StartUndispatched { call: c }),
                Some(d) => actions.contains(
                    ToolRecoveryAction::RetryDispatched {
                        call: c,
                        previous_dispatch: d,
                        next_attempt: (d.data.attempt + 1) as u32,
                        requirement: match c.data.side_effect {
                            SideEffectClass::ReadOnly => ToolRetryRequirement::Unconditional,
                            _ => ToolRetryRequirement::ProviderIdempotencyGuarantee,
                        },
                    },
                ),
            }
        }),
{
    let calls = p.pending_tool_calls@;
    let dispatches = p.pending_tool_dispatches@;
    let sorted = in_call_order(calls);
    law_call_order(calls);
    lemma_only_tools_pend(p, position);
    assert forall|i: int| 0 <= i < sorted.len() implies (dispatch_of(
        dispatches,
        (#[trigger] sorted[i]).data.call_id@,
    ) matches Some(d) ==> d.data.attempt < u32::MAX && sorted[i].data.side_effect
        != SideEffectClass::NonIdempotentWrite) by {
        assert(sorted.contains(sorted[i]));
        assert(calls.contains(sorted[i]));
        let j = choose|j: int| 0 <= j < calls.len() && calls[j] == sorted[i];
        assert(calls[j] == sorted[i]);
    }
    lemma_first_exhausted(sorted, dispatches);
    let unknown = |c: PendingToolCall| unknown_outcome(c, dispatches);
    let rows = sorted.filter(unknown);
    if rows.len() > 0 {
        assert(rows.contains(rows[0]));
        sorted.lemma_filter_contains_rev(unknown, rows[0]);
        assert(unknown(rows[0]));
        let j = choose|j: int| 0 <= j < sorted.len() && sorted[j] == rows[0];
        assert(sorted[j] == rows[0]);
    }
    assert(calls.contains(calls[k]));
    assert(sorted.contains(calls[k]));
    let j = choose|j: int| 0 <= j < sorted.len() && sorted[j] == calls[k];
    let actions = sorted.map_values(|c: PendingToolCall| action_for(c, dispatches));
    assert(actions[j] == action_for(calls[k], dispatches));
    assert(resume_of(p) == Ok::<ResumeView, RecoveryAnalysisError>(
        ResumeView::RecoverToolBatch { position, actions },
    ));
}

proof fn lemma_insert_filtered(
    calls: Seq<PendingToolCall>,
    c: PendingToolCall,
    f: spec_fn(PendingToolCall) -> bool,
)
    ensures
        insert_call(calls, c).filter(f).len() == calls.filter(f).len() + (if f(c) {
            1int
        } else {
            0
        }),
    decreases calls.len(),
{
    reveal(Seq::filter);
    if calls.len() == 0 || calls.last().call_seq@ <= c.call_seq@ {
        assert(calls.push(c).drop_last() =~= calls);
    } else {
        lemma_insert_filtered(calls.drop_last(), c, f);
        let before = insert_call(calls.drop_last(), c);
        assert(before.push(calls.last()).drop_last() =~= before);
    }
}

proof fn lemma_order_filtered(calls: Seq<PendingToolCall>, f: spec_fn(PendingToolCall) -> bool)
    ensures
        in_call_order(calls).filter(f).len() == calls.filter(f).len(),
    decreases calls.len(),
{
    reveal(Seq::filter);
    if calls.len() > 0 {
        lemma_order_filtered(calls.drop_last(), f);
        lemma_insert_filtered(in_call_order(calls.drop_last()), calls.last(), f);
    }
}

/// A call that may have reached a provider and must not be repeated, if it is the only such
/// call, leads to a block that names exactly this call, its dispatch and its step. With two
/// such calls the history is refused.
pub proof fn law_unknown_outcome_is_blocked(
    p: SessionProjection,
    position: StepPosition,
    k: int,
    other: int,
)
    requires
        only_tools_pend(p, position),
        0 <= k < p.pending_tool_calls@.len(),
        0 <= other < p.pending_tool_calls@.len(),
        p.pending_tool_calls@[k].data.side_effect == SideEffectClass::NonIdempotentWrite,
        dispatch_of(
            p.pending_tool_dispatches@,
            p.pending_tool_calls@[k].data.call_id@,
        ) is Some,
        other == k ==> forall|i: int|
            0 <= i < p.pending_tool_calls@.len() && i != k ==> (
            #[trigger] p.pending_tool_calls@[i]).data.side_effect
                != SideEffectClass::NonIdempotentWrite || dispatch_of(
                p.pending_tool_dispatches@,
                p.pending_tool_calls@[i].data.call_id@,
            ) is None,
        other != k ==> p.pending_tool_calls@[other].data.side_effect
            == SideEffectClass::NonIdempotentWrite && dispatch_of(
            p.pending_tool_dispatches@,
            p.pending_tool_calls@[other].data.call_id@,
        ) is Some,
    ensures
        other == k ==> {
            let c = p.pending_tool_calls@[k];
            &&& resume_of(p) matches Ok(ResumeView::PersistRecoveryBlock { proposal })
            &&& proposal.position == position
            &&& proposal.call == c
            &&& dispatch_of(p.pending_tool_dispatches@, c.data.call_id@) == Some(proposal.dispatch)
        },
        other != k ==> resume_of(p) is Err,
{
    let calls = p.pending_tool_calls@;
    let dispatches = p.pending_tool_dispatches@;
    let sorted = in_call_order(calls);
    lemma_only_tools_pend(p, position);
    assert(calls.contains(calls[k]));
    assert(sorted.contains(calls[k]));
    let j = choose|j: int| 0 <= j < sorted.len() && sorted[j] == calls[k];
    let unknown = |c: PendingToolCall| unknown_outcome(c, dispatches);
    assert(unknown(sorted[j]));
    assert(sorted.filter(unknown).contains(sorted[j]));
    let rows = unknown_calls(sorted, dispatches);
    lemma_order_filtered(calls, unknown);
    if other == k {
        if rows.len() > 1 {
            let at = lemma_two_filtered(calls, unknown);
            assert(unknown(calls[at.0]) && unknown(calls[at.1]));
        }
        assert(rows.len() == 1);
        assert(rows[0] == calls[k]);
    } else {
        let (low, high) = if other < k {
            (other, k)
        } else {
            (k, other)
        };
        let front = calls.take(high);
        let back = calls.skip(high);
        assert(calls =~= front + back);
        Seq::filter_distributes_over_add(front, back, unknown);
        assert(unknown(front[low]) && unknown(back[0]));
        assert(front.filter(unknown).contains(front[low]));
        assert(back.filter(unknown).contains(back[0]));
        assert(calls.filter(unknown).len() > 1);
    }
}

/// Tool work is refused where a dispatch has no call, where no step is open, or where a
/// call is of another step.
pub proof fn law_stray_tool_work_is_refused(p: SessionProjection, position: StepPosition)
    requires
        p.unresolved_recovery is None,
        p.pending_approval is None,
        p.pending_model_request is None,
        p.pending_tool_calls@.len() > 0 || p.pending_tool_dispatches@.len() > 0,
        resume_of(p) is Ok,
        p.lifecycle.open_step == Some(position) || p.lifecycle.open_step is None,
    ensures
        only_tools_pend(p, position),
{
    broadcast use vstd::seq_lib::group_to_multiset_ensures;

    let calls = p.pending_tool_calls@;
    lemma_first_orphan(p.pending_tool_dispatches@, calls);
    if calls.len() == 0 {
        lemma_call_of(calls, p.pending_tool_dispatches@[0].data.call_id@);
    }
    let sorted = in_call_order(calls);
    law_call_order(calls);
    lemma_first_outside(sorted, position);
    assert forall|i: int| 0 <= i < calls.len() implies (#[trigger] calls[i]).turn == position.turn
        && calls[i].step == position.step by {
        assert(calls.contains(calls[i]));
        assert(sorted.to_multiset().count(calls[i]) == calls.to_multiset().count(calls[i]));
        assert(sorted.contains(calls[i]));
        let k = choose|k: int| 0 <= k < sorted.len() && sorted[k] == calls[i];
        assert(sorted[k].turn == position.turn);
    }
}

} // verus!
