//! The tool driver: what happens next to the tool calls of the open step.

use vstd::prelude::*;

use crate::agent::error::{tool_runtime, AgentError, AgentErrorView};
use crate::agent::state::AgentState;
use crate::agent::tool_runtime::AgentToolRuntime;
use crate::message::{plain_error, ToolOutcome, ToolOutcomeView};
use crate::session::{
    approval_of, call_of, dispatch_of, has_id, holds_id, lemma_call_of, ApprovalResolved, OpenStepToolCall,
    PendingToolCall, PendingToolDispatch, StepPosition, ToolCallRecorded,
};
use crate::text::{concat3, concat5, decimal, decimal_text, opt_text};
use crate::tools::{
    registration_of, IdempotencySupport, PolicyDecision, ToolRegistration, ToolReview,
};
use crate::types::{
    ApprovalDecision, IdempotencyKey, InvocationId, SideEffectClass, ToolCallId,
};

verus! {

#[derive(Debug, PartialEq)]
pub enum ToolDriverPlan {
    /// Take on the announced calls that are not recorded yet.
    RecordCalls { position: StepPosition, calls: Vec<ToolCallRecorded> },
    /// End a call that never reached a provider.
    CompleteWithoutDispatch { position: StepPosition, call_id: ToolCallId, outcome: ToolOutcome },
    /// End a call whose attempts are used up.
    CompleteAfterDispatch {
        position: StepPosition,
        call_id: ToolCallId,
        invocation_id: InvocationId,
        outcome: ToolOutcome,
    },
    /// Ask for approval of a call.
    RequestApproval {
        position: StepPosition,
        call_id: ToolCallId,
        reason: String,
        risk: String,
    },
    /// Hand a call to its provider. A first attempt has no key yet.
    Dispatch {
        position: StepPosition,
        call: PendingToolCall,
        registration: ToolRegistration,
        attempt: u32,
        idempotency_key: Option<IdempotencyKey>,
    },
    EndStep { position: StepPosition },
    Deferred,
}

#[verifier::ext_equal]
pub enum ToolPlanView {
    RecordCalls { position: StepPosition, calls: Seq<ToolCallRecorded> },
    CompleteWithoutDispatch {
        position: StepPosition,
        call_id: ToolCallId,
        outcome: ToolOutcomeView,
    },
    CompleteAfterDispatch {
        position: StepPosition,
        call_id: ToolCallId,
        invocation_id: InvocationId,
        outcome: ToolOutcomeView,
    },
    RequestApproval {
        position: StepPosition,
        call_id: ToolCallId,
        reason: Seq<char>,
        risk: Seq<char>,
    },
    Dispatch {
        position: StepPosition,
        call: PendingToolCall,
        registration: ToolRegistration,
        attempt: u32,
        idempotency_key: Option<IdempotencyKey>,
    },
    EndStep { position: StepPosition },
    Deferred,
}

impl View for ToolDriverPlan {
    type V = ToolPlanView;

    open spec fn view(&self) -> ToolPlanView {
        match self {
            ToolDriverPlan::RecordCalls { position, calls } => ToolPlanView::RecordCalls {
                position: *position,
                calls: calls@,
            },
            ToolDriverPlan::CompleteWithoutDispatch { position, call_id, outcome } => {
                ToolPlanView::CompleteWithoutDispatch {
                    position: *position,
                    call_id: *call_id,
                    outcome: outcome@,
                }
            },
            ToolDriverPlan::CompleteAfterDispatch { position, call_id, invocation_id, outcome } => {
                ToolPlanView::CompleteAfterDispatch {
                    position: *position,
                    call_id: *call_id,
                    invocation_id: *invocation_id,
                    outcome: outcome@,
                }
            },
            ToolDriverPlan::RequestApproval { position, call_id, reason, risk } => {
                ToolPlanView::RequestApproval {
                    position: *position,
                    call_id: *call_id,
                    reason: reason@,
                    risk: risk@,
                }
            },
            ToolDriverPlan::Dispatch { position, call, registration, attempt, idempotency_key } => {
                ToolPlanView::Dispatch {
                    position: *position,
                    call: *call,
                    registration: *registration,
                    attempt: *attempt,
                    idempotency_key: *idempotency_key,
                }
            },
            ToolDriverPlan::EndStep { position } => ToolPlanView::EndStep { position: *position },
            ToolDriverPlan::Deferred => ToolPlanView::Deferred,
        }
    }
}

/// How an announced call is taken on. A tool that is not registered counts as
/// one that must not be repeated.
pub open spec fn recorded_call(
    call: OpenStepToolCall,
    tools: Seq<ToolRegistration>,
) -> ToolCallRecorded {
    ToolCallRecorded {
        call_id: call.call_id,
        tool: call.name,
        arguments_json: call.arguments_json,
        side_effect: side_effect_of(call, tools),
    }
}

/// The class of an announced call.
pub open spec fn side_effect_of(
    call: OpenStepToolCall,
    tools: Seq<ToolRegistration>,
) -> SideEffectClass {
    match registration_of(tools, call.name@) {
        Some(t) => t.definition.side_effect,
        None => SideEffectClass::NonIdempotentWrite,
    }
}

/// The announced calls that are not recorded yet, as they are taken on.
pub open spec fn unrecorded(
    announced: Seq<OpenStepToolCall>,
    recorded: Seq<ToolCallId>,
    tools: Seq<ToolRegistration>,
) -> Seq<ToolCallRecorded> {
    announced.filter(|c: OpenStepToolCall| !has_id(recorded, c.call_id@)).map_values(
        |c: OpenStepToolCall| recorded_call(c, tools),
    )
}

/// The first announced call that has not ended.
pub open spec fn first_open(
    announced: Seq<OpenStepToolCall>,
    completed: Seq<ToolCallId>,
) -> Option<OpenStepToolCall>
    decreases announced.len(),
{
    if announced.len() == 0 {
        None
    } else if !has_id(completed, announced[0].call_id@) {
        Some(announced[0])
    } else {
        first_open(announced.drop_first(), completed)
    }
}

/// What a review and a decided approval amount to.
pub enum Verdict {
    Invalid { message: Seq<char> },
    Allow,
    Deny { reason: Seq<char> },
    Ask { reason: Seq<char>, risk: Seq<char> },
}

/// The reason that is recorded for a denied approval: its note, where it has one.
pub open spec fn denial_reason(a: ApprovalResolved) -> Seq<char> {
    match opt_text(a.note) {
        Some(note) => note,
        None => "tool approval was denied"@,
    }
}

/// What a review amounts to where `approval` has been decided: a decided
/// approval answers the question that the policy asks.
pub open spec fn verdict(review: ToolReview, approval: Option<ApprovalResolved>) -> Verdict {
    match review {
        ToolReview::InvalidArguments { message } => Verdict::Invalid { message: message@ },
        ToolReview::Decided(PolicyDecision::Allow) => Verdict::Allow,
        ToolReview::Decided(PolicyDecision::Deny { reason }) => Verdict::Deny { reason: reason@ },
        ToolReview::Decided(PolicyDecision::Ask { reason, risk }) => match approval {
            None => Verdict::Ask { reason: reason@, risk: risk@ },
            Some(a) => if a.decision == ApprovalDecision::Allow {
                Verdict::Allow
            } else {
                Verdict::Deny { reason: denial_reason(a) }
            },
        },
    }
}

pub open spec fn exhausted_text(attempt: u32) -> Seq<char> {
    "automatic retry budget exhausted after "@ + decimal(attempt as nat)
        + " durable dispatch attempt(s)"@
}

/// What happens to a call that was dispatched before.
pub open spec fn retry_plan(
    position: StepPosition,
    c: PendingToolCall,
    t: ToolRegistration,
    d: PendingToolDispatch,
    attempts: u32,
    v: Verdict,
) -> Result<ToolPlanView, AgentErrorView> {
    let class = c.data.side_effect;
    if d.data.attempt >= attempts {
        if class == SideEffectClass::NonIdempotentWrite {
            Err(
                tool_runtime(
                    "dispatched non-idempotent ToolCall reached retry exhaustion instead of recovery blocking"@,
                ),
            )
        } else {
            Ok(
                ToolPlanView::CompleteAfterDispatch {
                    position,
                    call_id: c.data.call_id,
                    invocation_id: d.data.invocation_id,
                    outcome: if class == SideEffectClass::ReadOnly {
                        plain_error("TOOL_RETRY_EXHAUSTED"@, exhausted_text(d.data.attempt))
                    } else {
                        ToolOutcomeView::Unknown { reason: exhausted_text(d.data.attempt) }
                    },
                },
            )
        }
    } else if t.provider_id@ != d.data.provider_id@ {
        Err(
            tool_runtime(
                "provider binding for tool "@ + c.data.tool@ + " changed from "@
                    + d.data.provider_id@ + " to "@ + t.provider_id@ + " while call "@
                    + c.data.call_id@ + " is pending"@,
            ),
        )
    } else if class == SideEffectClass::NonIdempotentWrite {
        Err(
            tool_runtime(
                "dispatched non-idempotent ToolCall reached retry planning instead of recovery blocking"@,
            ),
        )
    } else if class == SideEffectClass::IdempotentWrite && t.idempotency_support
        != IdempotencySupport::Keyed {
        Err(
            tool_runtime(
                "idempotent-write tool "@ + c.data.tool@
                    + " no longer has keyed idempotency support"@,
            ),
        )
    } else if v is Allow {
        Ok(
            ToolPlanView::Dispatch {
                position,
                call: c,
                registration: t,
                attempt: (d.data.attempt + 1) as u32,
                idempotency_key: Some(d.data.idempotency_key),
            },
        )
    } else {
        Ok(ToolPlanView::Deferred)
    }
}

/// What happens to a call that was never dispatched.
pub open spec fn first_plan(
    position: StepPosition,
    c: PendingToolCall,
    t: ToolRegistration,
    v: Verdict,
) -> ToolPlanView {
    match v {
        Verdict::Invalid { message } => ToolPlanView::CompleteWithoutDispatch {
            position,
            call_id: c.data.call_id,
            outcome: plain_error("INVALID_ARGUMENT"@, message),
        },
        Verdict::Allow => ToolPlanView::Dispatch {
            position,
            call: c,
            registration: t,
            attempt: 1,
            idempotency_key: None,
        },
        Verdict::Deny { reason } => ToolPlanView::CompleteWithoutDispatch {
            position,
            call_id: c.data.call_id,
            outcome: ToolOutcomeView::Denied { reason },
        },
        Verdict::Ask { reason, risk } => ToolPlanView::RequestApproval {
            position,
            call_id: c.data.call_id,
            reason,
            risk,
        },
    }
}

/// What happens to the pending call `c`.
pub open spec fn call_plan(
    s: AgentState,
    runtime: AgentToolRuntime,
    position: StepPosition,
    c: PendingToolCall,
    review: ToolReview,
) -> Result<ToolPlanView, AgentErrorView> {
    let dispatch = dispatch_of(s.projection.pending_tool_dispatches@, c.data.call_id@);
    let v = verdict(review, approval_of(s.projection.resolved_approvals@, c.data.call_id@));
    match registration_of(runtime.tools(), c.data.tool@) {
        None => Ok(
            if dispatch is Some {
                ToolPlanView::Deferred
            } else {
                ToolPlanView::CompleteWithoutDispatch {
                    position,
                    call_id: c.data.call_id,
                    outcome: plain_error(
                        "NOT_FOUND"@,
                        "tool "@ + c.data.tool@ + " is not registered"@,
                    ),
                }
            },
        ),
        Some(t) => if t.definition.side_effect != c.data.side_effect {
            Err(
                tool_runtime(
                    "registered side-effect class for tool "@ + c.data.tool@
                        + " changed while call "@ + c.data.call_id@ + " is pending"@,
                ),
            )
        } else {
            match dispatch {
                Some(d) => retry_plan(position, c, t, d, runtime.attempts(), v),
                None => Ok(first_plan(position, c, t, v)),
            }
        },
    }
}

/// What happens next at the tool boundary: calls are taken on first, then
/// worked off one by one in the order of their announcement; when all have
/// ended, the step ends.
pub open spec fn tool_plan(
    s: AgentState,
    runtime: AgentToolRuntime,
    position: StepPosition,
    review: ToolReview,
) -> Result<ToolPlanView, AgentErrorView> {
    let open = s.projection.open_step_tools;
    let missing = unrecorded(open.announced@, open.recorded@, runtime.tools());
    if open.announced@.len() == 0 {
        Err(tool_runtime("ReadyForTools boundary has no announced ToolCall blocks"@))
    } else if missing.len() > 0 {
        Ok(ToolPlanView::RecordCalls { position, calls: missing })
    } else {
        match first_open(open.announced@, open.completed@) {
            None => Ok(ToolPlanView::EndStep { position }),
            Some(next) => match call_of(s.projection.pending_tool_calls@, next.call_id@) {
                None => Err(
                    tool_runtime(
                        "ToolCall "@ + next.call_id@
                            + " is recorded but is neither completed nor pending"@,
                    ),
                ),
                Some(c) => call_plan(s, runtime, position, c, review),
            },
        }
    }
}

/// The view of a tool plan or refusal.
pub open spec fn tool_plan_view(r: Result<ToolDriverPlan, AgentError>) -> Result<
    ToolPlanView,
    AgentErrorView,
> {
    match r {
        Ok(plan) => Ok(plan@),
        Err(e) => Err(e@),
    }
}

/// The class of an announced call, as the attached tools have it.
pub fn announced_side_effect(call: &OpenStepToolCall, runtime: &AgentToolRuntime) -> (r:
    SideEffectClass)
    ensures
        r == side_effect_of(*call, runtime.tools()),
{
    match runtime.resolve(&call.name) {
        Some(registration) => registration.definition.side_effect,
        None => SideEffectClass::NonIdempotentWrite,
    }
}

fn collect_unrecorded(state: &AgentState, runtime: &AgentToolRuntime) -> (r: Vec<ToolCallRecorded>)
    ensures
        r@ == unrecorded(
            state.projection.open_step_tools.announced@,
            state.projection.open_step_tools.recorded@,
            runtime.tools(),
        ),
{
    let announced = &state.projection.open_step_tools.announced;
    let recorded = &state.projection.open_step_tools.recorded;
    let mut calls: Vec<ToolCallRecorded> = Vec::new();
    let mut i: usize = 0;
    proof {
        reveal(Seq::filter);
    }
    while i < announced.len()
        invariant
            i <= announced@.len(),
            calls@ =~= unrecorded(announced@.take(i as int), recorded@, runtime.tools()),
        decreases announced@.len() - i,
    {
        proof {
            reveal(Seq::filter);
            assert(announced@.take(i + 1).drop_last() =~= announced@.take(i as int));
            assert(announced@.take(i + 1).last() == announced@[i as int]);
        }
        let call = &announced[i];
        if !holds_id(recorded, &call.call_id) {
            calls.push(
                ToolCallRecorded {
                    call_id: call.call_id.clone(),
                    tool: call.name.clone(),
                    arguments_json: call.arguments_json.clone(),
                    side_effect: announced_side_effect(call, runtime),
                },
            );
        }
        i = i + 1;
    }
    assert(announced@.take(i as int) =~= announced@);
    calls
}

fn find_open<'a>(announced: &'a Vec<OpenStepToolCall>, completed: &Vec<ToolCallId>) -> (r: Option<
    &'a OpenStepToolCall,
>)
    ensures
        match r {
            Some(c) => first_open(announced@, completed@) == Some(*c),
            None => first_open(announced@, completed@) is None,
        },
{
    let mut i: usize = 0;
    assert(announced@.skip(0) =~= announced@);
    while i < announced.len()
        invariant
            i <= announced@.len(),
            first_open(announced@, completed@) == first_open(
                announced@.skip(i as int),
                completed@,
            ),
        decreases announced@.len() - i,
    {
        assert(announced@.skip(i as int)[0] == announced@[i as int]);
        assert(announced@.skip(i as int).drop_first() =~= announced@.skip(i + 1));
        if !holds_id(completed, &announced[i].call_id) {
            return Some(&announced[i]);
        }
        i = i + 1;
    }
    None
}

/// The pending call that the tool boundary turns to next, where the argument
/// check and the policy have to be asked about it.
pub fn call_under_review(state: &AgentState) -> (r: Option<PendingToolCall>)
    ensures
        r == (match first_open(
            state.projection.open_step_tools.announced@,
            state.projection.open_step_tools.completed@,
        ) {
            Some(next) => call_of(state.projection.pending_tool_calls@, next.call_id@),
            None => None,
        }),
{
    let open = &state.projection.open_step_tools;
    match find_open(&open.announced, &open.completed) {
        None => None,
        Some(next) => match state.projection.pending_call(&next.call_id) {
            Some(call) => Some(call.clone()),
            None => None,
        },
    }
}

/// Plans the next move at the tool boundary. `review` is what the argument
/// check and the policy said of the call under review.
pub fn plan_tool_boundary(
    state: &AgentState,
    runtime: &AgentToolRuntime,
    position: StepPosition,
    review: &ToolReview,
) -> (r: Result<ToolDriverPlan, AgentError>)
    ensures
        tool_plan_view(r) == tool_plan(*state, *runtime, position, *review),
{
    let open = &state.projection.open_step_tools;
    if open.announced.is_empty() {
        return Err(
            AgentError::tool_runtime(
                "ReadyForTools boundary has no announced ToolCall blocks".to_owned(),
            ),
        );
    }
    let calls = collect_unrecorded(state, runtime);
    if !calls.is_empty() {
        return Ok(ToolDriverPlan::RecordCalls { position, calls });
    }
    let next = match find_open(&open.announced, &open.completed) {
        None => {
            return Ok(ToolDriverPlan::EndStep { position });
        },
        Some(next) => next,
    };
    match state.projection.pending_call(&next.call_id) {
        None => Err(
            AgentError::tool_runtime(
                concat3(
                    "ToolCall ",
                    next.call_id.as_str(),
                    " is recorded but is neither completed nor pending",
                ),
            ),
        ),
        Some(pending) => plan_call(state, runtime, position, pending, review),
    }
}

fn plan_call(
    state: &AgentState,
    runtime: &AgentToolRuntime,
    position: StepPosition,
    pending: &PendingToolCall,
    review: &ToolReview,
) -> (r: Result<ToolDriverPlan, AgentError>)
    ensures
        tool_plan_view(r) == call_plan(*state, *runtime, position, *pending, *review),
{
    let dispatch = state.projection.pending_dispatch(&pending.data.call_id);
    let registration = match runtime.resolve(&pending.data.tool) {
        Some(registration) => registration,
        None => {
            if dispatch.is_some() {
                return Ok(ToolDriverPlan::Deferred);
            }
            return Ok(
                ToolDriverPlan::CompleteWithoutDispatch {
                    position,
                    call_id: pending.data.call_id.clone(),
                    outcome: ToolOutcome::plain_error(
                        "NOT_FOUND",
                        concat3("tool ", pending.data.tool.as_str(), " is not registered"),
                    ),
                },
            );
        },
    };
    if registration.definition.side_effect != pending.data.side_effect {
        return Err(
            AgentError::tool_runtime(
                concat5(
                    "registered side-effect class for tool ",
                    pending.data.tool.as_str(),
                    " changed while call ",
                    pending.data.call_id.as_str(),
                    " is pending",
                ),
            ),
        );
    }
    let approval = state.projection.resolved_approval(&pending.data.call_id);
    match dispatch {
        Some(previous) => plan_retry(
            position,
            pending,
            registration,
            previous,
            runtime.max_automatic_attempts(),
            review,
            approval,
        ),
        None => Ok(plan_first(position, pending, registration, review, approval)),
    }
}

fn plan_retry(
    position: StepPosition,
    pending: &PendingToolCall,
    registration: &ToolRegistration,
    previous: &PendingToolDispatch,
    attempts: u32,
    review: &ToolReview,
    approval: Option<&ApprovalResolved>,
) -> (r: Result<ToolDriverPlan, AgentError>)
    ensures
        tool_plan_view(r) == retry_plan(
            position,
            *pending,
            *registration,
            *previous,
            attempts,
            verdict(*review, opt_approval(approval)),
        ),
{
    if previous.data.attempt >= attempts {
        let text = concat3(
            "automatic retry budget exhausted after ",
            decimal_text(previous.data.attempt as u64).as_str(),
            " durable dispatch attempt(s)",
        );
        let outcome = match pending.data.side_effect {
            SideEffectClass::ReadOnly => ToolOutcome::plain_error("TOOL_RETRY_EXHAUSTED", text),
            SideEffectClass::IdempotentWrite => ToolOutcome::Unknown { reason: text },
            SideEffectClass::NonIdempotentWrite => {
                return Err(
                    AgentError::tool_runtime(
                        "dispatched non-idempotent ToolCall reached retry exhaustion instead of recovery blocking".to_owned(),
                    ),
                );
            },
        };
        return Ok(
            ToolDriverPlan::CompleteAfterDispatch {
                position,
                call_id: pending.data.call_id.clone(),
                invocation_id: previous.data.invocation_id.clone(),
                outcome,
            },
        );
    }
    if !registration.provider_id.same(&previous.data.provider_id) {
        let mut text = concat5(
            "provider binding for tool ",
            pending.data.tool.as_str(),
            " changed from ",
            previous.data.provider_id.as_str(),
            " to ",
        );
        text.append(registration.provider_id.as_str());
        text.append(" while call ");
        text.append(pending.data.call_id.as_str());
        text.append(" is pending");
        return Err(AgentError::tool_runtime(text));
    }
    if pending.data.side_effect == SideEffectClass::NonIdempotentWrite {
        return Err(
            AgentError::tool_runtime(
                "dispatched non-idempotent ToolCall reached retry planning instead of recovery blocking".to_owned(),
            ),
        );
    }
    if pending.data.side_effect == SideEffectClass::IdempotentWrite
        && registration.idempotency_support != IdempotencySupport::Keyed {
        return Err(
            AgentError::tool_runtime(
                concat3(
                    "idempotent-write tool ",
                    pending.data.tool.as_str(),
                    " no longer has keyed idempotency support",
                ),
            ),
        );
    }
    let allowed = match review {
        ToolReview::InvalidArguments { .. } => false,
        ToolReview::Decided(PolicyDecision::Allow) => true,
        ToolReview::Decided(PolicyDecision::Deny { .. }) => false,
        ToolReview::Decided(PolicyDecision::Ask { .. }) => match approval {
            Some(resolved) => resolved.decision == ApprovalDecision::Allow,
            None => false,
        },
    };
    if !allowed {
        return Ok(ToolDriverPlan::Deferred);
    }
    Ok(
        ToolDriverPlan::Dispatch {
            position,
            call: pending.clone(),
            registration: registration.clone(),
            attempt: previous.data.attempt + 1,
            idempotency_key: Some(previous.data.idempotency_key.clone()),
        },
    )
}

pub open spec fn opt_approval(a: Option<&ApprovalResolved>) -> Option<ApprovalResolved> {
    match a {
        Some(x) => Some(*x),
        None => None,
    }
}

fn plan_first(
    position: StepPosition,
    pending: &PendingToolCall,
    registration: &ToolRegistration,
    review: &ToolReview,
    approval: Option<&ApprovalResolved>,
) -> (r: ToolDriverPlan)
    ensures
        r@ == first_plan(
            position,
            *pending,
            *registration,
            verdict(*review, opt_approval(approval)),
        ),
{
    let call_id = pending.data.call_id.clone();
    let dispatch = ToolDriverPlan::Dispatch {
        position,
        call: pending.clone(),
        registration: registration.clone(),
        attempt: 1,
        idempotency_key: None,
    };
    match review {
        ToolReview::InvalidArguments { message } => ToolDriverPlan::CompleteWithoutDispatch {
            position,
            call_id,
            outcome: ToolOutcome::plain_error("INVALID_ARGUMENT", message.clone()),
        },
        ToolReview::Decided(PolicyDecision::Allow) => dispatch,
        ToolReview::Decided(PolicyDecision::Deny { reason }) => {
            ToolDriverPlan::CompleteWithoutDispatch {
                position,
                call_id,
                outcome: ToolOutcome::Denied { reason: reason.clone() },
            }
        },
        ToolReview::Decided(PolicyDecision::Ask { reason, risk }) => match approval {
            None => ToolDriverPlan::RequestApproval {
                position,
                call_id,
                reason: reason.clone(),
                risk: risk.clone(),
            },
            Some(resolved) => if resolved.decision == ApprovalDecision::Allow {
                dispatch
            } else {
                let reason = match &resolved.note {
                    Some(note) => note.clone(),
                    None => "tool approval was denied".to_owned(),
                };
                ToolDriverPlan::CompleteWithoutDispatch {
                    position,
                    call_id,
                    outcome: ToolOutcome::Denied { reason },
                }
            },
        },
    }
}

/// A call is handed to a provider only if policy or a decided approval allows
/// it. One that must not be repeated is handed over at most once; a repeated
/// one keeps its key, gets the next number and stays within the allowed number
/// of attempts.
pub proof fn law_dispatches_are_allowed(
    s: AgentState,
    runtime: AgentToolRuntime,
    position: StepPosition,
    review: ToolReview,
    call: PendingToolCall,
    registration: ToolRegistration,
    attempt: u32,
    key: Option<IdempotencyKey>,
)
    requires
        tool_plan(s, runtime, position, review) == Ok::<ToolPlanView, AgentErrorView>(
            ToolPlanView::Dispatch { position, call, registration, attempt, idempotency_key: key },
        ),
    ensures
        verdict(
            review,
            approval_of(s.projection.resolved_approvals@, call.data.call_id@),
        ) is Allow,
        registration_of(runtime.tools(), call.data.tool@) == Some(registration),
        match dispatch_of(s.projection.pending_tool_dispatches@, call.data.call_id@) {
            None => attempt == 1 && key is None,
            Some(d) => {
                &&& call.data.side_effect != SideEffectClass::NonIdempotentWrite
                &&& attempt == d.data.attempt + 1
                &&& attempt <= runtime.attempts()
                &&& key == Some(d.data.idempotency_key)
            },
        },
{
}

/// A decided approval stands: nobody is asked again, an allowed call is handed to
/// its provider, and a denied one ends without reaching it.
pub proof fn law_decided_approvals_stand(
    s: AgentState,
    runtime: AgentToolRuntime,
    position: StepPosition,
    review: ToolReview,
    c: PendingToolCall,
    registration: ToolRegistration,
    approval: ApprovalResolved,
)
    requires
        review matches ToolReview::Decided(PolicyDecision::Ask { .. }),
        approval_of(s.projection.resolved_approvals@, c.data.call_id@) == Some(approval),
        registration_of(runtime.tools(), c.data.tool@) == Some(registration),
        registration.definition.side_effect == c.data.side_effect,
        dispatch_of(s.projection.pending_tool_dispatches@, c.data.call_id@) is None,
    ensures
        call_plan(s, runtime, position, c, review) == Ok::<ToolPlanView, AgentErrorView>(
            if approval.decision == ApprovalDecision::Allow {
                ToolPlanView::Dispatch {
                    position,
                    call: c,
                    registration,
                    attempt: 1,
                    idempotency_key: None,
                }
            } else {
                ToolPlanView::CompleteWithoutDispatch {
                    position,
                    call_id: c.data.call_id,
                    outcome: ToolOutcomeView::Denied { reason: denial_reason(approval) },
                }
            },
        ),
{
}

proof fn lemma_first_open_in_order(
    announced: Seq<OpenStepToolCall>,
    completed: Seq<ToolCallId>,
) -> (i: int)
    requires
        first_open(announced, completed) is Some,
    ensures
        0 <= i < announced.len(),
        first_open(announced, completed) == Some(announced[i]),
        !has_id(completed, announced[i].call_id@),
        forall|j: int| 0 <= j < i ==> has_id(completed, (#[trigger] announced[j]).call_id@),
    decreases announced.len(),
{
    if !has_id(completed, announced[0].call_id@) {
        0
    } else {
        let rest = announced.drop_first();
        let k = lemma_first_open_in_order(rest, completed);
        assert(rest[k] == announced[k + 1]);
        assert forall|j: int| 0 <= j < k + 1 implies has_id(
            completed,
            (#[trigger] announced[j]).call_id@,
        ) by {
            if j > 0 {
                assert(rest[j - 1] == announced[j]);
            }
        }
        k + 1
    }
}

/// Calls are worked off one after the other in the order in which the model made
/// them: a call is handed over only when all calls before it have ended.
pub proof fn law_calls_run_in_order(
    s: AgentState,
    runtime: AgentToolRuntime,
    position: StepPosition,
    review: ToolReview,
    call: PendingToolCall,
    registration: ToolRegistration,
    attempt: u32,
    key: Option<IdempotencyKey>,
)
    requires
        tool_plan(s, runtime, position, review) == Ok::<ToolPlanView, AgentErrorView>(
            ToolPlanView::Dispatch { position, call, registration, attempt, idempotency_key: key },
        ),
    ensures
        ({
            let open = s.projection.open_step_tools;
            exists|i: int|
                #![trigger open.announced@[i]]
                {
                    &&& 0 <= i < open.announced@.len()
                    &&& open.announced@[i].call_id@ == call.data.call_id@
                    &&& !has_id(open.completed@, open.announced@[i].call_id@)
                    &&& forall|j: int|
                        0 <= j < i ==> has_id(
                            open.completed@,
                            (#[trigger] open.announced@[j]).call_id@,
                        )
                }
        }),
{
    let open = s.projection.open_step_tools;
    let i = lemma_first_open_in_order(open.announced@, open.completed@);
    lemma_call_of(s.projection.pending_tool_calls@, open.announced@[i].call_id@);
    assert(open.announced@[i].call_id@ == call.data.call_id@);
}

/// A call of a tool that is not registered is never handed to a provider.
pub proof fn law_unknown_tools_never_run(
    s: AgentState,
    runtime: AgentToolRuntime,
    position: StepPosition,
    review: ToolReview,
    c: PendingToolCall,
)
    requires
        registration_of(runtime.tools(), c.data.tool@) is None,
    ensures
        !(call_plan(s, runtime, position, c, review) matches Ok(ToolPlanView::Dispatch { .. })),
{
}

/// The step ends exactly when every announced call has been taken on and ended.
pub proof fn law_step_ends_when_all_calls_ended(
    s: AgentState,
    runtime: AgentToolRuntime,
    position: StepPosition,
    review: ToolReview,
)
    requires
        s.projection.open_step_tools.announced@.len() > 0,
    ensures
        (tool_plan(s, runtime, position, review) == Ok::<ToolPlanView, AgentErrorView>(
            ToolPlanView::EndStep { position },
        )) <==> forall|i: int|
            0 <= i < s.projection.open_step_tools.announced@.len() ==> {
                let id = (#[trigger] s.projection.open_step_tools.announced@[i]).call_id@;
                &&& has_id(s.projection.open_step_tools.recorded@, id)
                &&& has_id(s.projection.open_step_tools.completed@, id)
            },
{
    let announced = s.projection.open_step_tools.announced@;
    let recorded = s.projection.open_step_tools.recorded@;
    let completed = s.projection.open_step_tools.completed@;
    let missing = |c: OpenStepToolCall| !has_id(recorded, c.call_id@);
    lemma_first_open(announced, completed);
    if unrecorded(announced, recorded, runtime.tools()).len() == 0 {
        assert forall|i: int| 0 <= i < announced.len() implies has_id(
            recorded,
            (#[trigger] announced[i]).call_id@,
        ) by {
            if missing(announced[i]) {
                assert(announced.filter(missing).contains(announced[i]));
            }
        }
    } else {
        let c = announced.filter(missing)[0];
        assert(missing(c));
        assert(announced.filter(missing).contains(c));
        announced.lemma_filter_contains_rev(missing, c);
    }
}

proof fn lemma_first_open(announced: Seq<OpenStepToolCall>, completed: Seq<ToolCallId>)
    ensures
        first_open(announced, completed) is None <==> forall|i: int|
            0 <= i < announced.len() ==> has_id(completed, (#[trigger] announced[i]).call_id@),
    decreases announced.len(),
{
    if announced.len() > 0 {
        lemma_first_open(announced.drop_first(), completed);
        assert forall|i: int| 0 < i < announced.len() implies announced[i]
            == announced.drop_first()[i - 1] by {}
        if has_id(completed, announced[0].call_id@) && first_open(announced, completed) is None {
            assert forall|i: int| 0 <= i < announced.len() implies has_id(
                completed,
                (#[trigger] announced[i]).call_id@,
            ) by {
                if i > 0 {
                    assert(announced[i] == announced.drop_first()[i - 1]);
                }
            }
        }
    }
}

/// Announced calls that the session has not taken on are taken on before anything
/// else happens: each of them once and no other, as the model made it, under the
/// class of its tool. A tool that is not registered counts as one that must not be
/// repeated.
pub proof fn law_calls_are_taken_on_first(
    s: AgentState,
    runtime: AgentToolRuntime,
    position: StepPosition,
    review: ToolReview,
    k: int,
) -> (calls: Seq<ToolCallRecorded>)
    requires
        0 <= k < s.projection.open_step_tools.announced@.len(),
        forall|i: int|
            0 <= i < s.projection.open_step_tools.recorded@.len() ==> (
            #[trigger] s.projection.open_step_tools.recorded@[i])@
                != s.projection.open_step_tools.announced@[k].call_id@,
    ensures
        tool_plan(s, runtime, position, review) == Ok::<ToolPlanView, AgentErrorView>(
            ToolPlanView::RecordCalls { position, calls },
        ),
        exists|i: int|
            0 <= i < calls.len() && (#[trigger] calls[i]).call_id
                == s.projection.open_step_tools.announced@[k].call_id,
        forall|i: int|
            0 <= i < calls.len() ==> takes_on(
                s.projection.open_step_tools.announced@,
                s.projection.open_step_tools.recorded@,
                runtime.tools(),
                #[trigger] calls[i],
            ),
{
    let announced = s.projection.open_step_tools.announced@;
    let recorded = s.projection.open_step_tools.recorded@;
    let tools = runtime.tools();
    let missing = |c: OpenStepToolCall| !has_id(recorded, c.call_id@);
    let rows = announced.filter(missing);
    assert(missing(announced[k]));
    assert(rows.contains(announced[k]));
    let calls = unrecorded(announced, recorded, tools);
    let at = choose|i: int| 0 <= i < rows.len() && rows[i] == announced[k];
    assert(calls[at].call_id == announced[k].call_id);
    assert forall|i: int| 0 <= i < calls.len() implies takes_on(
        announced,
        recorded,
        tools,
        #[trigger] calls[i],
    ) by {
        assert(rows.contains(rows[i]));
        announced.lemma_filter_contains_rev(missing, rows[i]);
        assert(missing(rows[i]));
        let j = choose|j: int| 0 <= j < announced.len() && announced[j] == rows[i];
        assert(announced[j].call_id == calls[i].call_id);
    }
    calls
}

/// Calls are taken on in the order in which they were announced.
pub proof fn law_calls_are_taken_on_in_order(
    s: AgentState,
    runtime: AgentToolRuntime,
    position: StepPosition,
    review: ToolReview,
    j: int,
    k: int,
) -> (r: (Seq<ToolCallRecorded>, int, int))
    requires
        0 <= j < k < s.projection.open_step_tools.announced@.len(),
        !has_id(
            s.projection.open_step_tools.recorded@,
            s.projection.open_step_tools.announced@[j].call_id@,
        ),
        !has_id(
            s.projection.open_step_tools.recorded@,
            s.projection.open_step_tools.announced@[k].call_id@,
        ),
    ensures
        tool_plan(s, runtime, position, review) == Ok::<ToolPlanView, AgentErrorView>(
            ToolPlanView::RecordCalls { position, calls: r.0 },
        ),
        0 <= r.1 < r.2 < r.0.len(),
        r.0[r.1].call_id == s.projection.open_step_tools.announced@[j].call_id,
        r.0[r.2].call_id == s.projection.open_step_tools.announced@[k].call_id,
{
    let announced = s.projection.open_step_tools.announced@;
    let recorded = s.projection.open_step_tools.recorded@;
    let missing = |c: OpenStepToolCall| !has_id(recorded, c.call_id@);
    let front = announced.take(k);
    let back = announced.skip(k);
    assert(announced =~= front + back);
    Seq::filter_distributes_over_add(front, back, missing);
    let rest = back.drop_first();
    assert(back =~= seq![back[0]] + rest);
    Seq::filter_distributes_over_add(seq![back[0]], rest, missing);
    assert(missing(back[0]));
    assert(seq![back[0]].filter(missing) =~= seq![back[0]]) by {
        reveal_with_fuel(Seq::filter, 2);
        assert(seq![back[0]].drop_last() =~= Seq::empty());
    }
    assert(missing(front[j]));
    assert(front.filter(missing).contains(front[j]));
    let at = choose|i: int|
        0 <= i < front.filter(missing).len() && front.filter(missing)[i] == front[j];
    let calls = unrecorded(announced, recorded, runtime.tools());
    let next = front.filter(missing).len() as int;
    assert(announced.filter(missing)[at] == announced[j]);
    assert(announced.filter(missing)[next] == announced[k]);
    assert(calls[at].call_id == announced[j].call_id);
    assert(calls[next].call_id == announced[k].call_id);
    (calls, at, next)
}

/// Whether `r` takes on one of the announced calls that are not recorded.
pub open spec fn takes_on(
    announced: Seq<OpenStepToolCall>,
    recorded: Seq<ToolCallId>,
    tools: Seq<ToolRegistration>,
    r: ToolCallRecorded,
) -> bool {
    &&& !has_id(recorded, r.call_id@)
    &&& exists|j: int|
        #![trigger announced[j]]
        0 <= j < announced.len() && announced[j].call_id == r.call_id && announced[j].name == r.tool
            && announced[j].arguments_json == r.arguments_json
    &&& match registration_of(tools, r.tool@) {
        Some(t) => r.side_effect == t.definition.side_effect,
        None => r.side_effect == SideEffectClass::NonIdempotentWrite,
    }
}

/// Once all calls are taken on, the boundary turns to the first that has not ended:
/// what happens is what happens to that call.
pub proof fn law_boundary_turns_to_the_first_open_call(
    s: AgentState,
    runtime: AgentToolRuntime,
    position: StepPosition,
    review: ToolReview,
    k: int,
    c: PendingToolCall,
)
    requires
        0 <= k < s.projection.open_step_tools.announced@.len(),
        forall|i: int|
            0 <= i < s.projection.open_step_tools.announced@.len() ==> has_id(
                s.projection.open_step_tools.recorded@,
                (#[trigger] s.projection.open_step_tools.announced@[i]).call_id@,
            ),
        forall|i: int|
            0 <= i < k ==> has_id(
                s.projection.open_step_tools.completed@,
                (#[trigger] s.projection.open_step_tools.announced@[i]).call_id@,
            ),
        !has_id(
            s.projection.open_step_tools.completed@,
            s.projection.open_step_tools.announced@[k].call_id@,
        ),
        call_of(
            s.projection.pending_tool_calls@,
            s.projection.open_step_tools.announced@[k].call_id@,
        ) == Some(c),
    ensures
        tool_plan(s, runtime, position, review) == call_plan(s, runtime, position, c, review),
        c.data.call_id@ == s.projection.open_step_tools.announced@[k].call_id@,
{
    let announced = s.projection.open_step_tools.announced@;
    let recorded = s.projection.open_step_tools.recorded@;
    let completed = s.projection.open_step_tools.completed@;
    let missing = |c: OpenStepToolCall| !has_id(recorded, c.call_id@);
    let rows = announced.filter(missing);
    if rows.len() > 0 {
        assert(rows.contains(rows[0]));
        announced.lemma_filter_contains_rev(missing, rows[0]);
        assert(missing(rows[0]));
        let j = choose|j: int| 0 <= j < announced.len() && announced[j] == rows[0];
        assert(has_id(recorded, announced[j].call_id@));
    }
    lemma_first_open(announced, completed);
    let i = lemma_first_open_in_order(announced, completed);
    if i < k {
        assert(has_id(completed, announced[i].call_id@));
    }
    if k < i {
        assert(has_id(completed, announced[k].call_id@));
    }
    lemma_call_of(s.projection.pending_tool_calls@, announced[k].call_id@);
}

/// What the first review of a registered call leads to. Bad arguments end the call
/// with an error that says so, a refusal ends it as denied, a question goes to
/// somebody who may approve, and only a call that policy allows is handed over. An
/// approval that was denied counts as a refusal, with its note as the reason.
pub proof fn law_first_reviews_decide(
    s: AgentState,
    runtime: AgentToolRuntime,
    position: StepPosition,
    review: ToolReview,
    c: PendingToolCall,
    t: ToolRegistration,
)
    requires
        registration_of(runtime.tools(), c.data.tool@) == Some(t),
        t.definition.side_effect == c.data.side_effect,
        dispatch_of(s.projection.pending_tool_dispatches@, c.data.call_id@) is None,
    ensures
        ({
            let plan = call_plan(s, runtime, position, c, review);
            let approval = approval_of(s.projection.resolved_approvals@, c.data.call_id@);
            let run = Ok::<ToolPlanView, AgentErrorView>(
                ToolPlanView::Dispatch {
                    position,
                    call: c,
                    registration: t,
                    attempt: 1,
                    idempotency_key: None,
                },
            );
            let refuse = |reason: Seq<char>|
                Ok::<ToolPlanView, AgentErrorView>(
                    ToolPlanView::CompleteWithoutDispatch {
                        position,
                        call_id: c.data.call_id,
                        outcome: ToolOutcomeView::Denied { reason },
                    },
                );
            match review {
                ToolReview::InvalidArguments { message } => {
                    &&& plan matches Ok(
                        ToolPlanView::CompleteWithoutDispatch { position: at, call_id, outcome },
                    )
                    &&& at == position && call_id == c.data.call_id
                    &&& outcome matches ToolOutcomeView::Error { code, message: said, content }
                    &&& code == "INVALID_ARGUMENT"@ && said == message@ && content.len() == 0
                },
                ToolReview::Decided(PolicyDecision::Allow) => plan == run,
                ToolReview::Decided(PolicyDecision::Deny { reason }) => plan == refuse(reason@),
                ToolReview::Decided(PolicyDecision::Ask { reason, risk }) => match approval {
                    None => plan == Ok::<ToolPlanView, AgentErrorView>(
                        ToolPlanView::RequestApproval {
                            position,
                            call_id: c.data.call_id,
                            reason: reason@,
                            risk: risk@,
                        },
                    ),
                    Some(a) => match (a.decision, a.note) {
                        (ApprovalDecision::Allow, _) => plan == run,
                        (ApprovalDecision::Deny, Some(note)) => plan == refuse(note@),
                        (ApprovalDecision::Deny, None) => plan == refuse(
                            "tool approval was denied"@,
                        ),
                    },
                },
            }
        }),
{
}

/// No outcome is made up: a call that is ended without its provider's word is never
/// said to have succeeded. One that never reached a provider ended in an error or was
/// denied; one that did, and whose attempts are used up, failed if it only reads, and
/// is of unknown outcome if it may have written.
pub proof fn law_no_success_is_made_up(
    s: AgentState,
    runtime: AgentToolRuntime,
    position: StepPosition,
    review: ToolReview,
)
    ensures
        match tool_plan(s, runtime, position, review) {
            Ok(ToolPlanView::CompleteWithoutDispatch { position: at, call_id, outcome }) => {
                &&& at == position
                &&& dispatch_of(s.projection.pending_tool_dispatches@, call_id@) is None
                &&& outcome is Error || outcome is Denied
            },
            Ok(
                ToolPlanView::CompleteAfterDispatch {
                    position: at,
                    call_id,
                    invocation_id,
                    outcome,
                },
            ) => {
                &&& at == position
                &&& dispatch_of(s.projection.pending_tool_dispatches@, call_id@) matches Some(d)
                &&& d.data.invocation_id == invocation_id
                &&& d.data.attempt >= runtime.attempts()
                &&& call_of(s.projection.pending_tool_calls@, call_id@) matches Some(c)
                &&& match c.data.side_effect {
                    SideEffectClass::ReadOnly => outcome is Error,
                    SideEffectClass::IdempotentWrite => outcome is Unknown,
                    SideEffectClass::NonIdempotentWrite => false,
                }
            },
            _ => true,
        },
{
    let open = s.projection.open_step_tools;
    if let Some(next) = first_open(open.announced@, open.completed@) {
        lemma_call_of(s.projection.pending_tool_calls@, next.call_id@);
    }
}

/// A call of a tool that is not registered ends with an error that names the tool; if
/// it was handed over before, it waits.
pub proof fn law_unknown_tools_are_reported(
    s: AgentState,
    runtime: AgentToolRuntime,
    position: StepPosition,
    review: ToolReview,
    c: PendingToolCall,
)
    requires
        forall|i: int|
            0 <= i < runtime.tools().len() ==> (#[trigger] runtime.tools()[i]).definition.name@
                != c.data.tool@,
    ensures
        match dispatch_of(s.projection.pending_tool_dispatches@, c.data.call_id@) {
            Some(_) => call_plan(s, runtime, position, c, review) == Ok::<
                ToolPlanView,
                AgentErrorView,
            >(ToolPlanView::Deferred),
            None => {
                &&& call_plan(s, runtime, position, c, review) matches Ok(
                    ToolPlanView::CompleteWithoutDispatch { position: at, call_id, outcome },
                )
                &&& at == position && call_id == c.data.call_id
                &&& outcome matches ToolOutcomeView::Error { code, message, content }
                &&& code == "NOT_FOUND"@ && message == "tool "@ + c.data.tool@
                    + " is not registered"@ && content.len() == 0
            },
        },
{
    crate::tools::law_registrations_are_found_by_name(runtime.tools(), c.data.tool@);
}

/// A call whose tool has changed its class since it was taken on is an error.
pub proof fn law_classes_must_not_change(
    s: AgentState,
    runtime: AgentToolRuntime,
    position: StepPosition,
    review: ToolReview,
    c: PendingToolCall,
    t: ToolRegistration,
)
    requires
        registration_of(runtime.tools(), c.data.tool@) == Some(t),
        t.definition.side_effect != c.data.side_effect,
    ensures
        call_plan(s, runtime, position, c, review) matches Err(
            AgentErrorView::InvalidToolRuntime { message },
        ) && message == "registered side-effect class for tool "@ + c.data.tool@
            + " changed while call "@ + c.data.call_id@ + " is pending"@,
{
}

/// What happens to a call that was handed over before and has no result. It ends when
/// the allowed attempts are used up. Before that it is handed over again under its key
/// and the next number, if its provider is the same, repeating it is safe, and policy
/// or a decided approval allows it; if that is not allowed, it waits.
pub proof fn law_retries_follow_the_rules(
    s: AgentState,
    runtime: AgentToolRuntime,
    position: StepPosition,
    review: ToolReview,
    c: PendingToolCall,
    t: ToolRegistration,
    d: PendingToolDispatch,
)
    requires
        registration_of(runtime.tools(), c.data.tool@) == Some(t),
        t.definition.side_effect == c.data.side_effect,
        dispatch_of(s.projection.pending_tool_dispatches@, c.data.call_id@) == Some(d),
    ensures
        ({
            let plan = call_plan(s, runtime, position, c, review);
            let safe = c.data.side_effect == SideEffectClass::ReadOnly || (c.data.side_effect
                == SideEffectClass::IdempotentWrite && t.idempotency_support
                == IdempotencySupport::Keyed);
            let said = "automatic retry budget exhausted after "@ + decimal(d.data.attempt as nat)
                + " durable dispatch attempt(s)"@;
            let allowed = match review {
                ToolReview::Decided(PolicyDecision::Allow) => true,
                ToolReview::Decided(PolicyDecision::Ask { .. }) => match approval_of(
                    s.projection.resolved_approvals@,
                    c.data.call_id@,
                ) {
                    Some(a) => a.decision == ApprovalDecision::Allow,
                    None => false,
                },
                _ => false,
            };
            if d.data.attempt >= runtime.attempts() {
                match c.data.side_effect {
                    SideEffectClass::ReadOnly => {
                        &&& plan matches Ok(
                            ToolPlanView::CompleteAfterDispatch {
                                position: at,
                                call_id,
                                invocation_id,
                                outcome,
                            },
                        )
                        &&& at == position && call_id == c.data.call_id && invocation_id
                            == d.data.invocation_id
                        &&& outcome matches ToolOutcomeView::Error { code, message, content }
                        &&& code == "TOOL_RETRY_EXHAUSTED"@ && message == said && content.len()
                            == 0
                    },
                    SideEffectClass::IdempotentWrite => plan == Ok::<ToolPlanView, AgentErrorView>(
                        ToolPlanView::CompleteAfterDispatch {
                            position,
                            call_id: c.data.call_id,
                            invocation_id: d.data.invocation_id,
                            outcome: ToolOutcomeView::Unknown { reason: said },
                        },
                    ),
                    SideEffectClass::NonIdempotentWrite => plan is Err,
                }
            } else if t.provider_id@ != d.data.provider_id@ || !safe {
                plan matches Err(AgentErrorView::InvalidToolRuntime { .. })
            } else if allowed {
                &&& plan matches Ok(
                    ToolPlanView::Dispatch {
                        position: at,
                        call,
                        registration,
                        attempt,
                        idempotency_key,
                    },
                )
                &&& at == position && call == c && registration == t
                &&& attempt == d.data.attempt + 1
                &&& idempotency_key == Some(d.data.idempotency_key)
            } else {
                plan == Ok::<ToolPlanView, AgentErrorView>(ToolPlanView::Deferred)
            }
        }),
{
}

} // verus!
