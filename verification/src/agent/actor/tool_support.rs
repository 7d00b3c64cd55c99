//! Tool calls: carrying out the tool driver's plan, and recording what came of
//! a call.

use vstd::prelude::*;

use crate::agent::actor::append::AgentActor;
use crate::agent::actor::model::{is_completion, lemma_fixed, CompletionView};
use crate::agent::drafts::{
    all_drawn, approval_id_from_event, call_key, drawn, fits, fits_one, fixed,
    idempotency_key_for_call, invocation_id_from_event, invocation_name, named_draft, step_draft,
    step_ended, Template,
};
use crate::agent::error::{tool_runtime, AgentError, AgentErrorView};
use crate::agent::event_source::AgentEventSource;
use crate::agent::state::{ActiveAgentOperation, AgentState};
use crate::agent::tool_driver::{
    plan_tool_boundary, tool_plan, tool_plan_view, ToolDriverPlan, ToolPlanView,
};
use crate::agent::tool_runtime::AgentToolRuntime;
use crate::message::{PortableError, ToolOutcome};
use crate::session::{
    in_step, lemma_shapes_push, shapes, tool_call_view, ApprovalRequested, NewSessionEvent,
    PayloadView, PendingToolCall, SessionEvent, SessionEventPayload, Shape, StepEndReason,
    StepPosition, ToolCallRecorded, ToolDispatched, ToolResultRecorded,
};
use crate::text::{concat5, decimal, decimal_text};
use crate::tools::{ToolInvocation, ToolRegistration, ToolReview};
use crate::types::{IdempotencyKey, InvocationId, ToolCallId};

verus! {

/// A move at the tool boundary.
#[derive(Debug)]
pub enum ToolAdvance {
    /// Write these drafts and move again.
    Progressed { drafts: Vec<NewSessionEvent> },
    /// Write this draft, then make the call and give it up after the time limit.
    Started { draft: NewSessionEvent, invocation: ToolInvocation, timeout_ms: u64 },
    /// Nothing can be done at present.
    Deferred,
}

impl ToolAdvance {
    /// Holds a dispatch to `verdict`, what the check of invocations said of its
    /// invocation. Nothing of a refused one is written.
    pub fn confirmed(self, verdict: Result<(), String>) -> (r: Result<ToolAdvance, AgentError>)
        ensures
            match r {
                Ok(advance) => advance == self && (self is Started ==> verdict is Ok),
                Err(e) => self is Started && (verdict matches Err(message) && e@ == tool_runtime(
                    message@,
                )),
            },
    {
        if let ToolAdvance::Started { .. } = &self {
            if let Err(message) = verdict {
                return Err(AgentError::tool_runtime(message));
            }
        }
        Ok(self)
    }
}

/// What came of a tool call.
#[derive(Debug)]
pub struct ToolCompletion {
    pub position: StepPosition,
    pub call_id: ToolCallId,
    pub invocation_id: InvocationId,
    pub outcome: Result<ToolOutcome, PortableError>,
}

/// What carrying out a plan writes; nothing is written where work is deferred.
pub open spec fn plan_templates(plan: ToolPlanView, session_id: Seq<char>) -> Seq<Template> {
    match plan {
        ToolPlanView::RecordCalls { position, calls } => fixed(record_shapes(calls, position)),
        ToolPlanView::CompleteWithoutDispatch { position, call_id, outcome } => {
            seq![Template::Result { position, call_id: call_id@, outcome }]
        },
        ToolPlanView::CompleteAfterDispatch { position, call_id, invocation_id, outcome } => {
            seq![
                Template::Fixed(
                    in_step(
                        PayloadView::ToolResult {
                            call_id: call_id@,
                            invocation_id: invocation_id@,
                            outcome,
                        },
                        position,
                    ),
                ),
            ]
        },
        ToolPlanView::RequestApproval { position, call_id, reason, risk } => {
            seq![Template::Approval { position, call_id: call_id@, reason, risk }]
        },
        ToolPlanView::Dispatch { position, call, registration, attempt, idempotency_key } => {
            seq![
                Template::Dispatch {
                    position,
                    call_id: call.data.call_id@,
                    provider_id: registration.provider_id@,
                    attempt,
                    idempotency_key: dispatch_key(session_id, call, idempotency_key),
                },
            ]
        },
        ToolPlanView::EndStep { position } => {
            seq![Template::Fixed(step_ended(StepEndReason::ToolContinuation, position))]
        },
        ToolPlanView::Deferred => Seq::empty(),
    }
}

/// The key of a dispatch: the one that the call has, or the one that it gets.
pub open spec fn dispatch_key(
    session_id: Seq<char>,
    call: PendingToolCall,
    key: Option<IdempotencyKey>,
) -> Seq<char> {
    match key {
        Some(k) => k@,
        None => call_key(session_id, call.data.call_id@),
    }
}

/// The records of calls.
pub open spec fn record_shapes(
    calls: Seq<ToolCallRecorded>,
    position: StepPosition,
) -> Seq<Shape> {
    calls.map_values(|c: ToolCallRecorded| in_step(tool_call_view(c), position))
}

/// Whether an invocation is the call that `draft` records as dispatched.
pub open spec fn invokes(
    invocation: ToolInvocation,
    draft: NewSessionEvent,
    session_id: Seq<char>,
    position: StepPosition,
    call: PendingToolCall,
    attempt: u32,
    key: Option<IdempotencyKey>,
) -> bool {
    &&& invocation.invocation_id@ == invocation_name(draft.event_id@)
    &&& invocation.call_id@ == call.data.call_id@
    &&& invocation.session_id@ == session_id
    &&& invocation.turn == position.turn
    &&& invocation.step == position.step
    &&& invocation.tool_name@ == call.data.tool@
    &&& invocation.arguments_json@ == call.data.arguments_json@
    &&& invocation.attempt == attempt
    &&& invocation.idempotency_key@ == dispatch_key(session_id, call, key)
}

/// Whether `r` carries out the tool driver's plan.
pub open spec fn is_tool_advance(
    s: AgentState,
    plan: Result<ToolPlanView, AgentErrorView>,
    r: Result<ToolAdvance, AgentError>,
) -> bool {
    match plan {
        Err(e) => r matches Err(x) && x@ == e,
        Ok(ToolPlanView::Deferred) => r matches Ok(ToolAdvance::Deferred),
        Ok(ToolPlanView::Dispatch { position, call, registration, attempt, idempotency_key }) => {
            &&& r matches Ok(ToolAdvance::Started { draft, invocation, timeout_ms })
            &&& fits_one(draft, plan_templates(plan->Ok_0, s.session_id@)[0])
            &&& invokes(
                invocation,
                draft,
                s.session_id@,
                position,
                call,
                attempt,
                idempotency_key,
            )
            &&& timeout_ms == registration.definition.default_timeout_ms
        },
        Ok(p) => {
            &&& r matches Ok(ToolAdvance::Progressed { drafts })
            &&& fits(drafts@, plan_templates(p, s.session_id@))
        },
    }
}

/// Whether the identifiers and the times of what is drafted came from `source`.
pub open spec fn advance_drawn<E: AgentEventSource>(
    source: &E,
    r: Result<ToolAdvance, AgentError>,
) -> bool {
    match r {
        Ok(ToolAdvance::Progressed { drafts }) => all_drawn(source, drafts@),
        Ok(ToolAdvance::Started { draft, .. }) => drawn(source, draft),
        _ => true,
    }
}

/// Whether an event is the end of a call of the step at `position`: its result,
/// or a recovery block for it.
pub open spec fn ends_call(e: SessionEvent, position: StepPosition, call_id: Seq<char>) -> bool {
    &&& e.draft.turn == Some(position.turn)
    &&& e.draft.step == Some(position.step)
    &&& match e.draft.payload {
        SessionEventPayload::ToolResult(d) => d.call_id@ == call_id,
        SessionEventPayload::RecoveryBlocked(d) => d.call_id@ == call_id,
        _ => false,
    }
}

/// Whether the session already knows the end of a call.
pub open spec fn call_ended(
    history: Seq<SessionEvent>,
    position: StepPosition,
    call_id: Seq<char>,
) -> bool {
    exists|i: int| 0 <= i < history.len() && ends_call(#[trigger] history[i], position, call_id)
}

pub open spec fn unexpected_tool(call_id: Seq<char>, message: Seq<char>) -> AgentErrorView {
    AgentErrorView::UnexpectedToolCompletion { call_id, message }
}

/// What a completed tool call leads to. A known outcome is recorded; of an
/// unknown one nothing is written, and the recorded dispatch decides what
/// recovery makes of it.
pub open spec fn tool_completion(a: AgentActor, completion: ToolCompletion) -> CompletionView {
    let id = completion.call_id@;
    if call_ended(a.history@, completion.position, id) {
        CompletionView::Stale
    } else {
        match a.state.active_operation {
            Some(ActiveAgentOperation::Tool { position, call_id, invocation_id, attempt }) => {
                if position != completion.position || call_id@ != id || invocation_id@
                    != completion.invocation_id@ {
                    CompletionView::Refused(
                        unexpected_tool(
                            id,
                            "active Tool operation is call "@ + call_id@ + ", invocation "@
                                + invocation_id@ + " at turn "@ + decimal(
                                position.turn@ as nat,
                            ) + ", step "@ + decimal(position.step@ as nat),
                        ),
                    )
                } else {
                    CompletionView::Record(
                        match completion.outcome {
                            Ok(outcome) => if outcome is Unknown {
                                Seq::empty()
                            } else {
                                seq![
                                    Template::Fixed(
                                        in_step(
                                            PayloadView::ToolResult {
                                                call_id: id,
                                                invocation_id: invocation_id@,
                                                outcome: outcome@,
                                            },
                                            position,
                                        ),
                                    ),
                                ]
                            },
                            Err(_) => Seq::empty(),
                        },
                    )
                }
            },
            _ => CompletionView::Refused(unexpected_tool(id, "no Tool operation is active"@)),
        }
    }
}

fn single(draft: NewSessionEvent) -> (r: Vec<NewSessionEvent>)
    ensures
        r@ == seq![draft],
{
    let mut drafts: Vec<NewSessionEvent> = Vec::new();
    drafts.push(draft);
    drafts
}

impl AgentActor {
    /// Makes the next move at the tool boundary. `review` is what the argument
    /// check and the policy said of the call under review.
    pub fn advance_tool_boundary<E: AgentEventSource>(
        &self,
        source: &E,
        runtime: &AgentToolRuntime,
        position: StepPosition,
        review: &ToolReview,
    ) -> (r: Result<ToolAdvance, AgentError>)
        ensures
            is_tool_advance(self.state, tool_plan(self.state, *runtime, position, *review), r),
            advance_drawn(source, r),
    {
        let planned = plan_tool_boundary(&self.state, runtime, position, review);
        let ghost view = tool_plan_view(planned);
        let plan = match planned {
            Ok(plan) => plan,
            Err(error) => {
                return Err(error);
            },
        };
        Ok(
            match plan {
                ToolDriverPlan::RecordCalls { position, calls } => ToolAdvance::Progressed {
                    drafts: Self::record_drafts(source, calls, position),
                },
                ToolDriverPlan::CompleteWithoutDispatch { position, call_id, outcome } => {
                    let event_id = source.next_event_id();
                    let invocation_id = invocation_id_from_event(&event_id);
                    let draft = named_draft(
                        event_id,
                        source,
                        SessionEventPayload::ToolResult(
                            ToolResultRecorded { call_id, invocation_id, outcome },
                        ),
                        position,
                    );
                    assert(fits_one(draft, plan_templates(view->Ok_0, self.state.session_id@)[0]));
                    ToolAdvance::Progressed { drafts: single(draft) }
                },
                ToolDriverPlan::CompleteAfterDispatch {
                    position,
                    call_id,
                    invocation_id,
                    outcome,
                } => {
                    let draft = step_draft(
                        source,
                        SessionEventPayload::ToolResult(
                            ToolResultRecorded { call_id, invocation_id, outcome },
                        ),
                        position,
                    );
                    assert(fits_one(draft, plan_templates(view->Ok_0, self.state.session_id@)[0]));
                    ToolAdvance::Progressed { drafts: single(draft) }
                },
                ToolDriverPlan::RequestApproval { position, call_id, reason, risk } => {
                    let event_id = source.next_event_id();
                    let approval_id = approval_id_from_event(&event_id);
                    let draft = named_draft(
                        event_id,
                        source,
                        SessionEventPayload::ApprovalRequested(
                            ApprovalRequested { approval_id, call_id, reason, risk },
                        ),
                        position,
                    );
                    assert(fits_one(draft, plan_templates(view->Ok_0, self.state.session_id@)[0]));
                    ToolAdvance::Progressed { drafts: single(draft) }
                },
                ToolDriverPlan::Dispatch {
                    position,
                    call,
                    registration,
                    attempt,
                    idempotency_key,
                } => {
                    let event_id = source.next_event_id();
                    let invocation_id = invocation_id_from_event(&event_id);
                    let idempotency_key = match idempotency_key {
                        Some(key) => key,
                        None => idempotency_key_for_call(
                            &self.state.session_id,
                            &call.data.call_id,
                        ),
                    };
                    let timeout_ms: u64 = registration.definition.default_timeout_ms;
                    let invocation = ToolInvocation {
                        invocation_id: invocation_id.clone(),
                        call_id: call.data.call_id.clone(),
                        session_id: self.state.session_id.clone(),
                        turn: position.turn,
                        step: position.step,
                        tool_name: call.data.tool.clone(),
                        arguments_json: call.data.arguments_json.clone(),
                        attempt,
                        idempotency_key: idempotency_key.clone(),
                    };
                    let draft = named_draft(
                        event_id,
                        source,
                        SessionEventPayload::ToolDispatched(
                            ToolDispatched {
                                call_id: call.data.call_id,
                                invocation_id,
                                provider_id: registration.provider_id,
                                attempt,
                                idempotency_key,
                            },
                        ),
                        position,
                    );
                    ToolAdvance::Started { draft, invocation, timeout_ms }
                },
                ToolDriverPlan::EndStep { position } => {
                    let draft = step_draft(
                        source,
                        SessionEventPayload::StepEnded { reason: StepEndReason::ToolContinuation },
                        position,
                    );
                    assert(fits_one(draft, plan_templates(view->Ok_0, self.state.session_id@)[0]));
                    ToolAdvance::Progressed { drafts: single(draft) }
                },
                ToolDriverPlan::Deferred => ToolAdvance::Deferred,
            },
        )
    }

    fn record_drafts<E: AgentEventSource>(
        source: &E,
        calls: Vec<ToolCallRecorded>,
        position: StepPosition,
    ) -> (r: Vec<NewSessionEvent>)
        ensures
            fits(r@, fixed(record_shapes(calls@, position))),
            all_drawn(source, r@),
    {
        broadcast use lemma_shapes_push;

        let mut drafts: Vec<NewSessionEvent> = Vec::new();
        let mut i: usize = 0;
        assert(shapes(drafts@) =~= record_shapes(calls@.take(0), position));
        while i < calls.len()
            invariant
                i <= calls@.len(),
                shapes(drafts@) == record_shapes(calls@.take(i as int), position),
                all_drawn(source, drafts@),
            decreases calls@.len() - i,
        {
            drafts.push(
                step_draft(source, SessionEventPayload::ToolCall(calls[i].clone()), position),
            );
            assert(record_shapes(calls@.take(i + 1), position) =~= record_shapes(
                calls@.take(i as int),
                position,
            ).push(in_step(tool_call_view(calls@[i as int]), position)));
            i = i + 1;
        }
        assert(calls@.take(i as int) =~= calls@);
        proof {
            lemma_fixed(drafts@, record_shapes(calls@, position));
        }
        drafts
    }

    /// Marks that the invocation is under way.
    pub fn begin_tool_operation(&mut self, invocation: &ToolInvocation)
        ensures
            *final(self) == (AgentActor {
                state: AgentState {
                    active_operation: Some(
                        ActiveAgentOperation::Tool {
                            position: StepPosition {
                                turn: invocation.turn,
                                step: invocation.step,
                            },
                            call_id: invocation.call_id,
                            invocation_id: invocation.invocation_id,
                            attempt: invocation.attempt,
                        },
                    ),
                    ..old(self).state
                },
                ..*old(self)
            }),
    {
        self.state.active_operation = Some(
            ActiveAgentOperation::Tool {
                position: StepPosition { turn: invocation.turn, step: invocation.step },
                call_id: invocation.call_id.clone(),
                invocation_id: invocation.invocation_id.clone(),
                attempt: invocation.attempt,
            },
        );
    }

    /// Whether the session already knows the end of a call of a step.
    pub fn tool_call_ended(&self, position: StepPosition, call_id: &ToolCallId) -> (r: bool)
        ensures
            r == call_ended(self.history@, position, call_id@),
    {
        let mut i: usize = 0;
        while i < self.history.len()
            invariant
                i <= self.history@.len(),
                forall|j: int|
                    0 <= j < i ==> !ends_call(#[trigger] self.history@[j], position, call_id@),
            decreases self.history@.len() - i,
        {
            let draft = &self.history[i].draft;
            let here = match (draft.turn, draft.step) {
                (Some(turn), Some(step)) => turn == position.turn && step == position.step,
                _ => false,
            };
            let ended = match &draft.payload {
                SessionEventPayload::ToolResult(d) => d.call_id.same(call_id),
                SessionEventPayload::RecoveryBlocked(d) => d.call_id.same(call_id),
                _ => false,
            };
            if here && ended {
                assert(ends_call(self.history@[i as int], position, call_id@));
                return true;
            }
            i = i + 1;
        }
        false
    }

    /// Drafts what a completed tool call writes. `None` means that the completion
    /// comes too late and nothing changes; otherwise the operation is over once
    /// the drafts, if any, are written.
    pub fn tool_completion_drafts<E: AgentEventSource>(
        &self,
        source: &E,
        completion: ToolCompletion,
    ) -> (r: Result<Option<Vec<NewSessionEvent>>, AgentError>)
        ensures
            is_completion(tool_completion(*self, completion), r),
            r matches Ok(Some(drafts)) ==> all_drawn(source, drafts@),
    {
        if self.tool_call_ended(completion.position, &completion.call_id) {
            return Ok(None);
        }
        let (position, call_id, invocation_id) = match &self.state.active_operation {
            Some(ActiveAgentOperation::Tool { position, call_id, invocation_id, .. }) => {
                (*position, call_id, invocation_id)
            },
            _ => {
                return Err(
                    AgentError::UnexpectedToolCompletion {
                        call_id: completion.call_id,
                        message: "no Tool operation is active".to_owned(),
                    },
                );
            },
        };
        if position != completion.position || !call_id.same(&completion.call_id)
            || !invocation_id.same(&completion.invocation_id) {
            let mut text = concat5(
                "active Tool operation is call ",
                call_id.as_str(),
                ", invocation ",
                invocation_id.as_str(),
                " at turn ",
            );
            text.append(decimal_text(position.turn.get()).as_str());
            text.append(", step ");
            text.append(decimal_text(position.step.get()).as_str());
            return Err(
                AgentError::UnexpectedToolCompletion {
                    call_id: completion.call_id,
                    message: text,
                },
            );
        }
        let ghost templates = tool_completion(*self, completion)->Record_0;
        match completion.outcome {
            Ok(outcome) => {
                if matches!(&outcome, ToolOutcome::Unknown { .. }) {
                    return Ok(Some(Vec::new()));
                }
                let draft = step_draft(
                    source,
                    SessionEventPayload::ToolResult(
                        ToolResultRecorded {
                            call_id: completion.call_id,
                            invocation_id: invocation_id.clone(),
                            outcome,
                        },
                    ),
                    position,
                );
                assert(fits_one(draft, templates[0]));
                Ok(Some(single(draft)))
            },
            Err(_) => Ok(Some(Vec::new())),
        }
    }
}

/// A completion that comes after the session knows the end of its call changes
/// nothing, whatever operation is under way.
pub proof fn law_late_tool_completions_are_ignored(a: AgentActor, completion: ToolCompletion)
    requires
        call_ended(a.history@, completion.position, completion.call_id@),
    ensures
        tool_completion(a, completion) is Stale,
{
}

/// No result is made up for a call whose outcome is unknown.
pub proof fn law_unknown_outcomes_are_not_recorded(
    a: AgentActor,
    completion: ToolCompletion,
    templates: Seq<Template>,
)
    requires
        tool_completion(a, completion) == CompletionView::Record(templates),
        completion.outcome is Err || completion.outcome->Ok_0 is Unknown,
    ensures
        templates.len() == 0,
{
}

/// Carrying out a plan writes what the plan says and nothing else. Calls are taken on as
/// they were made; a call ends with its outcome, under its invocation or under one named
/// after the event; an approval is asked for with reason and risk; and the step ends for
/// the model to go on.
pub proof fn law_plans_write_what_they_say(
    s: AgentState,
    plan: ToolPlanView,
    r: Result<ToolAdvance, AgentError>,
    k: int,
)
    requires
        is_tool_advance(s, Ok::<ToolPlanView, AgentErrorView>(plan), r),
    ensures
        match plan {
            ToolPlanView::RecordCalls { position, calls } => {
                &&& r matches Ok(ToolAdvance::Progressed { drafts })
                &&& drafts@.len() == calls.len()
                &&& 0 <= k < calls.len() ==> is_written_at(
                    drafts@[k],
                    position,
                    PayloadView::ToolCall {
                        call_id: calls[k].call_id@,
                        tool: calls[k].tool@,
                        arguments_json: calls[k].arguments_json@,
                        side_effect: calls[k].side_effect,
                    },
                )
            },
            ToolPlanView::CompleteWithoutDispatch { position, call_id, outcome } => {
                &&& r matches Ok(ToolAdvance::Progressed { drafts })
                &&& drafts@.len() == 1
                &&& is_written_at(
                    drafts@[0],
                    position,
                    PayloadView::ToolResult {
                        call_id: call_id@,
                        invocation_id: "inv:tool:"@ + drafts@[0].event_id@,
                        outcome,
                    },
                )
            },
            ToolPlanView::CompleteAfterDispatch { position, call_id, invocation_id, outcome } => {
                &&& r matches Ok(ToolAdvance::Progressed { drafts })
                &&& drafts@.len() == 1
                &&& is_written_at(
                    drafts@[0],
                    position,
                    PayloadView::ToolResult {
                        call_id: call_id@,
                        invocation_id: invocation_id@,
                        outcome,
                    },
                )
            },
            ToolPlanView::RequestApproval { position, call_id, reason, risk } => {
                &&& r matches Ok(ToolAdvance::Progressed { drafts })
                &&& drafts@.len() == 1
                &&& is_written_at(
                    drafts@[0],
                    position,
                    PayloadView::ApprovalRequested {
                        approval_id: "apr:tool:"@ + drafts@[0].event_id@,
                        call_id: call_id@,
                        reason,
                        risk,
                    },
                )
            },
            ToolPlanView::EndStep { position } => {
                &&& r matches Ok(ToolAdvance::Progressed { drafts })
                &&& drafts@.len() == 1
                &&& is_written_at(
                    drafts@[0],
                    position,
                    PayloadView::StepEnded { reason: StepEndReason::ToolContinuation },
                )
            },
            ToolPlanView::Dispatch { .. } => r matches Ok(ToolAdvance::Started { .. }),
            ToolPlanView::Deferred => r matches Ok(ToolAdvance::Deferred),
        },
{
    if let Ok(ToolAdvance::Progressed { drafts }) = r {
        let templates = plan_templates(plan, s.session_id@);
        if drafts@.len() > 0 {
            assert(fits_one(drafts@[0], templates[0]));
        }
        if 0 <= k < drafts@.len() {
            assert(fits_one(drafts@[k], templates[k]));
        }
    }
}

/// Whether `d` says `payload` in the step at `position`.
pub open spec fn is_written_at(
    d: NewSessionEvent,
    position: StepPosition,
    payload: PayloadView,
) -> bool {
    d.payload@ == payload && d.turn == Some(position.turn) && d.step == Some(position.step)
}

/// A dispatch is recorded before the call is made, and the call that is made is the one
/// that is recorded: the same invocation, call, attempt and key, for the tool and with the
/// arguments that the model asked for. The first attempt fixes the key of the call, made of
/// session and call, and every further attempt keeps it.
pub proof fn law_dispatches_are_recorded(
    s: AgentState,
    r: Result<ToolAdvance, AgentError>,
    position: StepPosition,
    call: PendingToolCall,
    registration: ToolRegistration,
    attempt: u32,
    idempotency_key: Option<IdempotencyKey>,
)
    requires
        is_tool_advance(
            s,
            Ok::<ToolPlanView, AgentErrorView>(
                ToolPlanView::Dispatch { position, call, registration, attempt, idempotency_key },
            ),
            r,
        ),
    ensures
        ({
            let key = match idempotency_key {
                Some(k) => k@,
                None => "idem:tool:"@ + s.session_id@ + ":"@ + call.data.call_id@,
            };
            &&& r matches Ok(ToolAdvance::Started { draft, invocation, timeout_ms })
            &&& is_written_at(
                draft,
                position,
                PayloadView::ToolDispatched {
                    call_id: call.data.call_id@,
                    invocation_id: "inv:tool:"@ + draft.event_id@,
                    provider_id: registration.provider_id@,
                    attempt,
                    idempotency_key: key,
                },
            )
            &&& invocation.invocation_id@ == "inv:tool:"@ + draft.event_id@
            &&& invocation.call_id@ == call.data.call_id@
            &&& invocation.session_id@ == s.session_id@
            &&& invocation.turn == position.turn && invocation.step == position.step
            &&& invocation.tool_name@ == call.data.tool@
            &&& invocation.arguments_json@ == call.data.arguments_json@
            &&& invocation.attempt == attempt
            &&& invocation.idempotency_key@ == key
            &&& timeout_ms == registration.definition.default_timeout_ms
        }),
{
}

/// The session knows the end of a call of a step if and only if an event of this step is
/// its result or a block for it.
pub proof fn law_ends_of_calls_are_found(
    history: Seq<SessionEvent>,
    position: StepPosition,
    call_id: Seq<char>,
)
    ensures
        call_ended(history, position, call_id) <==> exists|i: int|
            0 <= i < history.len() && (#[trigger] history[i]).draft.turn == Some(position.turn)
                && history[i].draft.step == Some(position.step) && match history[i].draft.payload@ {
                PayloadView::ToolResult { call_id: id, .. } => id == call_id,
                PayloadView::RecoveryBlocked { call_id: id, .. } => id == call_id,
                _ => false,
            },
{
    if call_ended(history, position, call_id) {
        let i = choose|i: int|
            0 <= i < history.len() && ends_call(#[trigger] history[i], position, call_id);
        assert(history[i].draft.turn == Some(position.turn));
    } else {
        assert forall|i: int| 0 <= i < history.len() implies !((
        #[trigger] history[i]).draft.turn == Some(position.turn) && history[i].draft.step == Some(
            position.step,
        ) && match history[i].draft.payload@ {
            PayloadView::ToolResult { call_id: id, .. } => id == call_id,
            PayloadView::RecoveryBlocked { call_id: id, .. } => id == call_id,
            _ => false,
        }) by {
            assert(!ends_call(history[i], position, call_id));
        }
    }
}

/// The outcome of the invocation that is under way is recorded as it came, unless it is
/// unknown: then nothing is written, and the operation is over all the same. Any other
/// completion is refused.
pub proof fn law_tool_outcomes_are_recorded(
    a: AgentActor,
    completion: ToolCompletion,
    r: Result<Option<Vec<NewSessionEvent>>, AgentError>,
)
    requires
        is_completion(tool_completion(a, completion), r),
        !call_ended(a.history@, completion.position, completion.call_id@),
    ensures
        ({
            let awaited = a.state.active_operation matches Some(
                ActiveAgentOperation::Tool { position, call_id, invocation_id, .. },
            ) && position == completion.position && call_id@ == completion.call_id@
                && invocation_id@ == completion.invocation_id@;
            &&& !awaited ==> (r matches Err(e) && (e@ matches
            AgentErrorView::UnexpectedToolCompletion { call_id, .. } && call_id
                == completion.call_id@))
            &&& awaited ==> (r matches Ok(Some(drafts)) && match completion.outcome {
                Ok(outcome) => if outcome@ is Unknown {
                    drafts@.len() == 0
                } else {
                    &&& drafts@.len() == 1
                    &&& is_written_at(
                        drafts@[0],
                        completion.position,
                        PayloadView::ToolResult {
                            call_id: completion.call_id@,
                            invocation_id: completion.invocation_id@,
                            outcome: outcome@,
                        },
                    )
                },
                Err(_) => drafts@.len() == 0,
            })
        }),
{
    if let CompletionView::Record(templates) = tool_completion(a, completion) {
        let drafts = r->Ok_0->Some_0;
        if drafts@.len() > 0 {
            assert(fits_one(drafts@[0], templates[0]));
        }
    }
}

} // verus!
