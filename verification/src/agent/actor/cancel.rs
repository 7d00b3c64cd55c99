//! Cancellation: what the session records when work is stopped from outside.

use vstd::prelude::*;

use crate::agent::actor::append::AgentActor;
use crate::agent::actor::model::lemma_fixed;
use crate::agent::drafts::{
    all_drawn, filled, fits, fits_one, fixed, free_draft, invocation_id_from_event, lemma_fits_append,
    lemma_fits_push, named_draft, step_draft, step_ended, turn_draft, turn_ended, Template,
};
use crate::agent::error::{mutation, AgentError, AgentErrorView};
use crate::agent::event_source::AgentEventSource;
use crate::agent::state::{
    phase_from_projection, phase_of, ActiveAgentOperation, AgentState,
};
use crate::agent::tool_driver::{announced_side_effect, side_effect_of};
use crate::agent::tool_runtime::AgentToolRuntime;
use crate::message::{plain_failure, PortableError, ToolOutcome, ToolOutcomeView};
use crate::rows::lemma_two_filtered;
use crate::session::{
    call_of, dispatch_of, has_id, holds_id, in_step, lemma_shapes_push, outside_turns, shapes,
    ApprovalResolved, ModelFailed, NewSessionEvent, OpenStepToolCall, PayloadView, PendingApproval,
    PendingInboxItem, PendingToolDispatch, RecoveryBlockKind, RecoveryBlocked, SessionEventPayload,
    SessionProjection, Shape, StepEndReason, StepPosition, ToolCallRecorded, ToolResultRecorded,
    TurnEndReason,
};
use crate::text::{concat2, concat3};
use crate::tools::{registration_of, ToolRegistration};
use crate::types::{
    ApprovalDecision, CancelCause, ErrorCode, InvocationId, RequestId, SideEffectClass, ToolCallId,
};

verus! {

/// The operation outside the core that a cancellation should stop.
#[derive(Debug, PartialEq, Eq)]
pub enum CapabilityCancelTarget {
    Model { request_id: RequestId },
    Tool { tool: String, invocation_id: InvocationId },
}

/// The word for a cause.
pub open spec fn cause_label(cause: CancelCause) -> Seq<char> {
    match cause {
        CancelCause::User => "user"@,
        CancelCause::Parent => "parent"@,
        CancelCause::Timeout => "timeout"@,
        CancelCause::Policy => "policy"@,
        CancelCause::Shutdown => "shutdown"@,
        CancelCause::Disposed => "disposed"@,
    }
}

/// Computes [`cause_label`].
pub fn cancel_cause_label(cause: CancelCause) -> (r: &'static str)
    ensures
        r@ == cause_label(cause),
{
    match cause {
        CancelCause::User => "user",
        CancelCause::Parent => "parent",
        CancelCause::Timeout => "timeout",
        CancelCause::Policy => "policy",
        CancelCause::Shutdown => "shutdown",
        CancelCause::Disposed => "disposed",
    }
}

/// The tools of the attached runtime; none without one.
pub open spec fn attached(runtime: Option<&AgentToolRuntime>) -> Seq<ToolRegistration> {
    match runtime {
        Some(r) => r.tools(),
        None => Seq::empty(),
    }
}

/// The class of an announced call: as it was recorded, or as it would be.
pub open spec fn class_of(
    p: SessionProjection,
    tools: Seq<ToolRegistration>,
    call: OpenStepToolCall,
) -> SideEffectClass {
    match call_of(p.pending_tool_calls@, call.call_id@) {
        Some(pending) => pending.data.side_effect,
        None => side_effect_of(call, tools),
    }
}

pub open spec fn has_ended(p: SessionProjection, call: OpenStepToolCall) -> bool {
    has_id(p.open_step_tools.completed@, call.call_id@)
}

/// Whether stopping an open call leaves an effect behind that is unknown and
/// must not be repeated.
pub open spec fn blocks(
    p: SessionProjection,
    tools: Seq<ToolRegistration>,
    call: OpenStepToolCall,
) -> bool {
    &&& !has_ended(p, call)
    &&& class_of(p, tools, call) == SideEffectClass::NonIdempotentWrite
    &&& dispatch_of(p.pending_tool_dispatches@, call.call_id@) is Some
}

/// The calls that block.
pub open spec fn blocking_calls(
    p: SessionProjection,
    tools: Seq<ToolRegistration>,
    calls: Seq<OpenStepToolCall>,
) -> Seq<OpenStepToolCall> {
    calls.filter(|c: OpenStepToolCall| blocks(p, tools, c))
}

/// How a stopped call ends: with an unknown outcome if it was dispatched and
/// may have changed something, cancelled otherwise.
pub open spec fn stopped_outcome(
    dispatched: bool,
    class: SideEffectClass,
    cause: CancelCause,
) -> ToolOutcomeView {
    if dispatched && class == SideEffectClass::IdempotentWrite {
        ToolOutcomeView::Unknown {
            reason: "idempotent Tool dispatch was interrupted by "@ + cause_label(cause)
                + " cancellation"@,
        }
    } else {
        ToolOutcomeView::Cancelled { cause }
    }
}

/// What stopping one announced call writes: its record where it has none, and
/// its end unless it blocks.
pub open spec fn stop_call(
    p: SessionProjection,
    tools: Seq<ToolRegistration>,
    position: StepPosition,
    cause: CancelCause,
    call: OpenStepToolCall,
) -> Seq<Template> {
    let class = class_of(p, tools, call);
    let record = if call_of(p.pending_tool_calls@, call.call_id@) is None {
        seq![
            Template::Fixed(
                in_step(
                    PayloadView::ToolCall {
                        call_id: call.call_id@,
                        tool: call.name@,
                        arguments_json: call.arguments_json@,
                        side_effect: class,
                    },
                    position,
                ),
            ),
        ]
    } else {
        Seq::empty()
    };
    if has_ended(p, call) {
        Seq::empty()
    } else if blocks(p, tools, call) {
        record
    } else {
        record.push(
            match dispatch_of(p.pending_tool_dispatches@, call.call_id@) {
                Some(d) => Template::Fixed(
                    in_step(
                        PayloadView::ToolResult {
                            call_id: call.call_id@,
                            invocation_id: d.data.invocation_id@,
                            outcome: stopped_outcome(true, class, cause),
                        },
                        position,
                    ),
                ),
                None => Template::Result {
                    position,
                    call_id: call.call_id@,
                    outcome: stopped_outcome(false, class, cause),
                },
            },
        )
    }
}

/// What stopping a row of announced calls writes.
pub open spec fn stop_calls(
    p: SessionProjection,
    tools: Seq<ToolRegistration>,
    position: StepPosition,
    cause: CancelCause,
    calls: Seq<OpenStepToolCall>,
) -> Seq<Template>
    decreases calls.len(),
{
    if calls.len() == 0 {
        Seq::empty()
    } else {
        stop_calls(p, tools, position, cause, calls.drop_last()) + stop_call(
            p,
            tools,
            position,
            cause,
            calls.last(),
        )
    }
}

/// The denial of a pending approval.
pub open spec fn stop_approval(
    p: SessionProjection,
    position: StepPosition,
    cause: CancelCause,
) -> Seq<Template> {
    match p.pending_approval {
        Some(a) => seq![
            Template::Fixed(
                in_step(
                    PayloadView::ApprovalResolved {
                        approval_id: a.data.approval_id@,
                        call_id: a.data.call_id@,
                        decision: ApprovalDecision::Deny,
                        note: Some("approval cancelled by "@ + cause_label(cause)),
                    },
                    position,
                ),
            ),
        ],
        None => Seq::empty(),
    }
}

/// The end of a stopped step and its turn.
pub open spec fn stopped(position: StepPosition) -> Seq<Shape> {
    seq![
        step_ended(StepEndReason::Cancelled, position),
        turn_ended(TurnEndReason::Cancelled, position.turn),
    ]
}

/// A recovery block with the end of its step and turn.
pub open spec fn blocked_by(
    position: StepPosition,
    call_id: Seq<char>,
    invocation_id: Seq<char>,
    cause: CancelCause,
) -> Seq<Shape> {
    seq![
        in_step(
            PayloadView::RecoveryBlocked {
                kind: RecoveryBlockKind::UnknownToolOutcome,
                call_id,
                invocation_id,
                reason: "non-idempotent Tool dispatch was interrupted by "@ + cause_label(cause)
                    + " cancellation; external outcome is unknown"@,
            },
            position,
        ),
        step_ended(StepEndReason::Blocked, position),
        turn_ended(TurnEndReason::Blocked, position.turn),
    ]
}

/// What stopping a step with tool calls writes.
pub open spec fn stop_tool_step(
    p: SessionProjection,
    tools: Seq<ToolRegistration>,
    position: StepPosition,
    cause: CancelCause,
) -> Result<Seq<Template>, AgentErrorView> {
    let calls = p.open_step_tools.announced@;
    let blocking = blocking_calls(p, tools, calls);
    let body = stop_approval(p, position, cause) + stop_calls(p, tools, position, cause, calls);
    if blocking.len() > 1 {
        Err(
            mutation(
                "more than one unresolved non-idempotent Tool dispatch exists during cancellation"@,
            ),
        )
    } else if blocking.len() == 1 {
        let d = dispatch_of(p.pending_tool_dispatches@, blocking[0].call_id@)->0;
        Ok(
            body + fixed(
                blocked_by(position, blocking[0].call_id@, d.data.invocation_id@, cause),
            ),
        )
    } else {
        Ok(body + fixed(stopped(position)))
    }
}

/// What stopping the open work writes.
pub open spec fn stop_activity(
    p: SessionProjection,
    tools: Seq<ToolRegistration>,
    cause: CancelCause,
) -> Result<Seq<Template>, AgentErrorView> {
    match p.lifecycle.open_step {
        None => Ok(
            match p.lifecycle.open_turn {
                Some(turn) => fixed(seq![turn_ended(TurnEndReason::Cancelled, turn)]),
                None => Seq::empty(),
            },
        ),
        Some(position) => if let Some(request) = p.pending_model_request {
            Ok(
                fixed(
                    seq![
                        in_step(
                            PayloadView::ModelFailed {
                                request_id: request.request_id@,
                                failure: plain_failure(
                                    ErrorCode::Cancelled,
                                    "model request cancelled by "@ + cause_label(cause),
                                ),
                            },
                            position,
                        ),
                    ] + stopped(position),
                ),
            )
        } else if p.open_step_tools.announced@.len() > 0 || p.pending_tool_calls@.len() > 0 {
            stop_tool_step(p, tools, position, cause)
        } else {
            Ok(fixed(stopped(position)))
        },
    }
}

/// The discards of inbox items.
pub open spec fn discards(items: Seq<PendingInboxItem>, cause: CancelCause) -> Seq<Shape> {
    items.map_values(
        |i: PendingInboxItem|
            outside_turns(
                PayloadView::InboxDiscarded {
                    message_id: i.message.id@,
                    reason: "cancelled:"@ + cause_label(cause),
                },
            ),
    )
}

/// What a cancellation writes: the end of the open work and, unless the inbox
/// is kept, the discard of every item that waits in it.
pub open spec fn cancellation(
    p: SessionProjection,
    tools: Seq<ToolRegistration>,
    cause: CancelCause,
    keep_inbox: bool,
) -> Result<Seq<Template>, AgentErrorView> {
    match stop_activity(p, tools, cause) {
        Err(e) => Err(e),
        Ok(templates) => Ok(
            if keep_inbox {
                templates
            } else {
                templates + fixed(
                    discards(p.inbox.next_turn@, cause) + discards(p.inbox.next_step@, cause),
                )
            },
        ),
    }
}

/// Whether `r` is drafts that fit, or the refusal.
pub open spec fn drafted(
    want: Result<Seq<Template>, AgentErrorView>,
    r: Result<Vec<NewSessionEvent>, AgentError>,
) -> bool {
    match want {
        Ok(templates) => r matches Ok(drafts) && fits(drafts@, templates),
        Err(e) => r matches Err(x) && x@ == e,
    }
}

/// The operation that a cancellation should stop: the one under way, where the
/// capability that carries it out is attached.
pub open spec fn cancel_target(
    s: AgentState,
    has_model: bool,
    tools: Seq<ToolRegistration>,
) -> Option<CapabilityCancelTarget> {
    match s.active_operation {
        Some(ActiveAgentOperation::Model { request_id, .. }) => if has_model {
            Some(CapabilityCancelTarget::Model { request_id })
        } else {
            None
        },
        Some(ActiveAgentOperation::Tool { call_id, invocation_id, .. }) => {
            match call_of(s.projection.pending_tool_calls@, call_id@) {
                Some(pending) => if registration_of(tools, pending.data.tool@) is Some {
                    Some(
                        CapabilityCancelTarget::Tool { tool: pending.data.tool, invocation_id },
                    )
                } else {
                    None
                },
                None => None,
            }
        },
        None => None,
    }
}

impl AgentActor {
    /// The operation that a cancellation should stop.
    pub fn capability_cancel_target(
        &self,
        has_model: bool,
        tool_runtime: Option<&AgentToolRuntime>,
    ) -> (r: Option<CapabilityCancelTarget>)
        ensures
            r == cancel_target(self.state, has_model, attached(tool_runtime)),
    {
        match &self.state.active_operation {
            Some(ActiveAgentOperation::Model { request_id, .. }) => if has_model {
                Some(CapabilityCancelTarget::Model { request_id: request_id.clone() })
            } else {
                None
            },
            Some(ActiveAgentOperation::Tool { call_id, invocation_id, .. }) => {
                match self.state.projection.pending_call(call_id) {
                    Some(pending) => {
                        let known = match tool_runtime {
                            Some(runtime) => runtime.resolve(&pending.data.tool).is_some(),
                            None => false,
                        };
                        if known {
                            Some(
                                CapabilityCancelTarget::Tool {
                                    tool: pending.data.tool.clone(),
                                    invocation_id: invocation_id.clone(),
                                },
                            )
                        } else {
                            None
                        }
                    },
                    None => None,
                }
            },
            None => None,
        }
    }

    /// Drafts what a cancellation writes. Only once it is written is the
    /// operation under way stopped.
    pub fn cancel_drafts<E: AgentEventSource>(
        &self,
        source: &E,
        tool_runtime: Option<&AgentToolRuntime>,
        cause: CancelCause,
        keep_inbox: bool,
    ) -> (r: Result<Vec<NewSessionEvent>, AgentError>)
        ensures
            drafted(
                cancellation(self.state.projection, attached(tool_runtime), cause, keep_inbox),
                r,
            ),
            r matches Ok(drafts) ==> all_drawn(source, drafts@),
    {
        let mut drafts = match self.cancel_activity_drafts(source, tool_runtime, cause) {
            Ok(drafts) => drafts,
            Err(error) => {
                return Err(error);
            },
        };
        if !keep_inbox {
            let mut discarded = self.discard_pending_inbox_drafts(source, cause);
            proof {
                lemma_fits_append(
                    drafts@,
                    stop_activity(
                        self.state.projection,
                        attached(tool_runtime),
                        cause,
                    )->Ok_0,
                    discarded@,
                    fixed(
                        discards(self.state.projection.inbox.next_turn@, cause) + discards(
                            self.state.projection.inbox.next_step@,
                            cause,
                        ),
                    ),
                );
            }
            drafts.append(&mut discarded);
        }
        Ok(drafts)
    }

    /// Takes note that a cancellation is written: nothing is under way any more,
    /// and the phase is that of what is still open.
    pub fn finish_cancel(&mut self)
        ensures
            *final(self) == (AgentActor {
                state: AgentState {
                    active_operation: None,
                    phase: phase_of(old(self).state.projection),
                    ..old(self).state
                },
                ..*old(self)
            }),
    {
        self.state.active_operation = None;
        self.state.phase = phase_from_projection(&self.state.projection);
    }

    /// Drafts the end of the open work.
    pub fn cancel_activity_drafts<E: AgentEventSource>(
        &self,
        source: &E,
        tool_runtime: Option<&AgentToolRuntime>,
        cause: CancelCause,
    ) -> (r: Result<Vec<NewSessionEvent>, AgentError>)
        ensures
            drafted(
                stop_activity(self.state.projection, attached(tool_runtime), cause),
                r,
            ),
            r matches Ok(drafts) ==> all_drawn(source, drafts@),
    {
        broadcast use lemma_shapes_push;

        let projection = &self.state.projection;
        let mut drafts: Vec<NewSessionEvent> = Vec::new();
        let position = match projection.lifecycle.open_step {
            Some(position) => position,
            None => {
                if let Some(turn) = projection.lifecycle.open_turn {
                    drafts.push(
                        turn_draft(
                            source,
                            SessionEventPayload::TurnEnded { reason: TurnEndReason::Cancelled },
                            turn,
                        ),
                    );
                    proof {
                        assert(shapes(drafts@) =~= seq![
                            turn_ended(TurnEndReason::Cancelled, turn),
                        ]);
                        lemma_fixed(drafts@, seq![turn_ended(TurnEndReason::Cancelled, turn)]);
                    }
                }
                return Ok(drafts);
            },
        };
        let ghost mut wanted: Seq<Shape> = Seq::empty();
        if let Some(request) = &projection.pending_model_request {
            let failure = PortableError::new(
                ErrorCode::Cancelled,
                concat2("model request cancelled by ", cancel_cause_label(cause)),
            );
            drafts.push(
                step_draft(
                    source,
                    SessionEventPayload::ModelFailed(
                        ModelFailed { request_id: request.request_id.clone(), failure },
                    ),
                    position,
                ),
            );
            proof {
                wanted = seq![
                    in_step(
                        PayloadView::ModelFailed {
                            request_id: request.request_id@,
                            failure: plain_failure(
                                ErrorCode::Cancelled,
                                "model request cancelled by "@ + cause_label(cause),
                            ),
                        },
                        position,
                    ),
                ];
            }
        } else if !projection.open_step_tools.announced.is_empty()
            || !projection.pending_tool_calls.is_empty() {
            return self.cancel_tool_step_drafts(source, tool_runtime, position, cause);
        }
        assert(shapes(drafts@) =~= wanted);
        drafts.push(
            step_draft(
                source,
                SessionEventPayload::StepEnded { reason: StepEndReason::Cancelled },
                position,
            ),
        );
        drafts.push(
            turn_draft(
                source,
                SessionEventPayload::TurnEnded { reason: TurnEndReason::Cancelled },
                position.turn,
            ),
        );
        proof {
            assert(shapes(drafts@) =~= wanted + stopped(position));
            lemma_fixed(drafts@, wanted + stopped(position));
            assert(wanted.len() == 0 ==> wanted + stopped(position) =~= stopped(position));
        }
        Ok(drafts)
    }

    /// Drafts the end of a step with tool calls.
    pub fn cancel_tool_step_drafts<E: AgentEventSource>(
        &self,
        source: &E,
        tool_runtime: Option<&AgentToolRuntime>,
        position: StepPosition,
        cause: CancelCause,
    ) -> (r: Result<Vec<NewSessionEvent>, AgentError>)
        ensures
            drafted(
                stop_tool_step(self.state.projection, attached(tool_runtime), position, cause),
                r,
            ),
            r matches Ok(drafts) ==> all_drawn(source, drafts@),
    {
        let p = &self.state.projection;
        let ghost tools = attached(tool_runtime);
        let calls = &p.open_step_tools.announced;
        let mut drafts: Vec<NewSessionEvent> = Vec::new();
        if let Some(approval) = &p.pending_approval {
            drafts.push(
                step_draft(
                    source,
                    SessionEventPayload::ApprovalResolved(
                        ApprovalResolved {
                            approval_id: approval.data.approval_id.clone(),
                            call_id: approval.data.call_id.clone(),
                            decision: ApprovalDecision::Deny,
                            note: Some(
                                concat2("approval cancelled by ", cancel_cause_label(cause)),
                            ),
                        },
                    ),
                    position,
                ),
            );
            assert(fits_one(drafts@[0], stop_approval(*p, position, cause)[0]));
        }
        let ghost head = stop_approval(*p, position, cause);
        let mut blocking: Option<(ToolCallId, InvocationId)> = None;
        let mut i: usize = 0;
        proof {
            reveal(Seq::filter);
            assert(calls@.take(0) =~= Seq::empty());
            assert(head + stop_calls(*p, tools, position, cause, calls@.take(0)) =~= head);
        }
        while i < calls.len()
            invariant
                i <= calls@.len(),
                p == self.state.projection,
                tools == attached(tool_runtime),
                calls == p.open_step_tools.announced,
                head == stop_approval(*p, position, cause),
                fits(
                    drafts@,
                    head + stop_calls(*p, tools, position, cause, calls@.take(i as int)),
                ),
                all_drawn(source, drafts@),
                match blocking {
                    None => blocking_calls(*p, tools, calls@.take(i as int)).len() == 0,
                    Some((call_id, invocation_id)) => {
                        let b = blocking_calls(*p, tools, calls@.take(i as int));
                        &&& b.len() == 1
                        &&& b[0].call_id@ == call_id@
                        &&& dispatch_of(p.pending_tool_dispatches@, call_id@) matches Some(d)
                            && d.data.invocation_id@ == invocation_id@
                    },
                },
            decreases calls@.len() - i,
        {
            let call = &calls[i];
            let ghost done = stop_calls(*p, tools, position, cause, calls@.take(i as int));
            let ghost block = blocking_calls(*p, tools, calls@.take(i as int));
            proof {
                reveal(Seq::filter);
                assert(calls@.take(i + 1).drop_last() =~= calls@.take(i as int));
                assert(calls@.take(i + 1).last() == call);
                assert(head + (done + stop_call(*p, tools, position, cause, *call)) =~= (head
                    + done) + stop_call(*p, tools, position, cause, *call));
                if blocking_calls(*p, tools, calls@.take(i + 1)).len() > 1 {
                    lemma_more_blocking(*p, tools, calls@, i + 1);
                }
            }
            if !holds_id(&p.open_step_tools.completed, &call.call_id) {
                let ghost before = drafts@;
                let dispatch = p.pending_dispatch(&call.call_id);
                let class = self.announced_class(tool_runtime, call);
                let mut added = self.stop_call_drafts(
                    source,
                    call,
                    class,
                    dispatch,
                    position,
                    cause,
                    Ghost(tools),
                );
                proof {
                    lemma_fits_append(
                        drafts@,
                        head + done,
                        added@,
                        stop_call(*p, tools, position, cause, *call),
                    );
                }
                drafts.append(&mut added);
                if class == SideEffectClass::NonIdempotentWrite {
                    if let Some(dispatch) = dispatch {
                        if blocking.is_some() {
                            return Err(
                                AgentError::mutation(
                                    "more than one unresolved non-idempotent Tool dispatch exists during cancellation".to_owned(),
                                ),
                            );
                        }
                        blocking = Some(
                            (call.call_id.clone(), dispatch.data.invocation_id.clone()),
                        );
                    }
                }
            } else {
                assert(stop_call(*p, tools, position, cause, *call) =~= Seq::empty());
                assert((head + done) + Seq::<Template>::empty() =~= head + done);
            }
            i = i + 1;
        }
        assert(calls@.take(i as int) =~= calls@);
        let ghost body = head + stop_calls(*p, tools, position, cause, calls@);
        let ghost found = blocking;
        let mut ending = match blocking {
            Some((call_id, invocation_id)) => Self::blocked_drafts(
                source,
                position,
                call_id,
                invocation_id,
                cause,
            ),
            None => Self::stopped_drafts(source, position),
        };
        proof {
            match found {
                Some((call_id, invocation_id)) => {
                    lemma_fits_append(
                        drafts@,
                        body,
                        ending@,
                        fixed(blocked_by(position, call_id@, invocation_id@, cause)),
                    );
                },
                None => {
                    lemma_fits_append(drafts@, body, ending@, fixed(stopped(position)));
                },
            }
        }
        drafts.append(&mut ending);
        Ok(drafts)
    }

    /// The class of an announced call, as it was recorded or would be.
    fn announced_class(&self, runtime: Option<&AgentToolRuntime>, call: &OpenStepToolCall) -> (r:
        SideEffectClass)
        ensures
            r == class_of(self.state.projection, attached(runtime), *call),
    {
        match self.state.projection.pending_call(&call.call_id) {
            Some(pending) => pending.data.side_effect,
            None => match runtime {
                Some(runtime) => announced_side_effect(call, runtime),
                None => SideEffectClass::NonIdempotentWrite,
            },
        }
    }

    fn stop_call_drafts<E: AgentEventSource>(
        &self,
        source: &E,
        call: &OpenStepToolCall,
        class: SideEffectClass,
        dispatch: Option<&PendingToolDispatch>,
        position: StepPosition,
        cause: CancelCause,
        Ghost(tools): Ghost<Seq<ToolRegistration>>,
    ) -> (r: Vec<NewSessionEvent>)
        requires
            class == class_of(self.state.projection, tools, *call),
            !has_ended(self.state.projection, *call),
            match dispatch {
                Some(d) => dispatch_of(
                    self.state.projection.pending_tool_dispatches@,
                    call.call_id@,
                ) == Some(*d),
                None => dispatch_of(
                    self.state.projection.pending_tool_dispatches@,
                    call.call_id@,
                ) is None,
            },
        ensures
            fits(r@, stop_call(self.state.projection, tools, position, cause, *call)),
            all_drawn(source, r@),
    {
        let ghost wanted = stop_call(self.state.projection, tools, position, cause, *call);
        let mut drafts: Vec<NewSessionEvent> = Vec::new();
        if self.state.projection.pending_call(&call.call_id).is_none() {
            drafts.push(
                step_draft(
                    source,
                    SessionEventPayload::ToolCall(
                        ToolCallRecorded {
                            call_id: call.call_id.clone(),
                            tool: call.name.clone(),
                            arguments_json: call.arguments_json.clone(),
                            side_effect: class,
                        },
                    ),
                    position,
                ),
            );
            assert(fits_one(drafts@[0], wanted[0]));
        }
        if class == SideEffectClass::NonIdempotentWrite && dispatch.is_some() {
            return drafts;
        }
        let event_id = source.next_event_id();
        let invocation_id = match dispatch {
            Some(dispatch) => dispatch.data.invocation_id.clone(),
            None => invocation_id_from_event(&event_id),
        };
        let outcome = if dispatch.is_some() && class == SideEffectClass::IdempotentWrite {
            ToolOutcome::Unknown {
                reason: concat3(
                    "idempotent Tool dispatch was interrupted by ",
                    cancel_cause_label(cause),
                    " cancellation",
                ),
            }
        } else {
            ToolOutcome::Cancelled { cause }
        };
        let draft = named_draft(
            event_id,
            source,
            SessionEventPayload::ToolResult(
                ToolResultRecorded { call_id: call.call_id.clone(), invocation_id, outcome },
            ),
            position,
        );
        assert(fits_one(draft, wanted.last()));
        proof {
            let record = wanted.drop_last();
            assert(fits(drafts@, record));
            lemma_fits_push(drafts@, record, draft, wanted.last());
            assert(record.push(wanted.last()) =~= wanted);
        }
        drafts.push(draft);
        drafts
    }

    fn stopped_drafts<E: AgentEventSource>(source: &E, position: StepPosition) -> (r: Vec<
        NewSessionEvent,
    >)
        ensures
            fits(r@, fixed(stopped(position))),
            all_drawn(source, r@),
    {
        broadcast use lemma_shapes_push;

        let mut drafts: Vec<NewSessionEvent> = Vec::new();
        drafts.push(
            step_draft(
                source,
                SessionEventPayload::StepEnded { reason: StepEndReason::Cancelled },
                position,
            ),
        );
        drafts.push(
            turn_draft(
                source,
                SessionEventPayload::TurnEnded { reason: TurnEndReason::Cancelled },
                position.turn,
            ),
        );
        proof {
            assert(shapes(drafts@) =~= stopped(position));
            lemma_fixed(drafts@, stopped(position));
        }
        drafts
    }

    fn blocked_drafts<E: AgentEventSource>(
        source: &E,
        position: StepPosition,
        call_id: ToolCallId,
        invocation_id: InvocationId,
        cause: CancelCause,
    ) -> (r: Vec<NewSessionEvent>)
        ensures
            fits(r@, fixed(blocked_by(position, call_id@, invocation_id@, cause))),
            all_drawn(source, r@),
    {
        broadcast use lemma_shapes_push;

        let ghost wanted = blocked_by(position, call_id@, invocation_id@, cause);
        let mut drafts: Vec<NewSessionEvent> = Vec::new();
        drafts.push(
            step_draft(
                source,
                SessionEventPayload::RecoveryBlocked(
                    RecoveryBlocked {
                        kind: RecoveryBlockKind::UnknownToolOutcome,
                        call_id,
                        invocation_id,
                        reason: concat3(
                            "non-idempotent Tool dispatch was interrupted by ",
                            cancel_cause_label(cause),
                            " cancellation; external outcome is unknown",
                        ),
                    },
                ),
                position,
            ),
        );
        drafts.push(
            step_draft(
                source,
                SessionEventPayload::StepEnded { reason: StepEndReason::Blocked },
                position,
            ),
        );
        drafts.push(
            turn_draft(
                source,
                SessionEventPayload::TurnEnded { reason: TurnEndReason::Blocked },
                position.turn,
            ),
        );
        proof {
            assert(shapes(drafts@) =~= wanted);
            lemma_fixed(drafts@, wanted);
        }
        drafts
    }

    fn push_discards<E: AgentEventSource>(
        drafts: &mut Vec<NewSessionEvent>,
        source: &E,
        items: &Vec<PendingInboxItem>,
        cause: CancelCause,
    )
        ensures
            shapes(final(drafts)@) == shapes(old(drafts)@) + discards(items@, cause),
            all_drawn(source, old(drafts)@) ==> all_drawn(source, final(drafts)@),
    {
        broadcast use lemma_shapes_push;

        let ghost before = shapes(drafts@);
        let mut i: usize = 0;
        assert(before + discards(items@.take(0), cause) =~= before);
        while i < items.len()
            invariant
                i <= items@.len(),
                shapes(drafts@) == before + discards(items@.take(i as int), cause),
                all_drawn(source, old(drafts)@) ==> all_drawn(source, drafts@),
            decreases items@.len() - i,
        {
            let ghost prior = discards(items@.take(i as int), cause);
            drafts.push(
                free_draft(
                    source,
                    SessionEventPayload::InboxDiscarded {
                        message_id: items[i].message.id.clone(),
                        reason: concat2("cancelled:", cancel_cause_label(cause)),
                    },
                ),
            );
            proof {
                let one = outside_turns(
                    PayloadView::InboxDiscarded {
                        message_id: items@[i as int].message.id@,
                        reason: "cancelled:"@ + cause_label(cause),
                    },
                );
                assert(discards(items@.take(i + 1), cause) =~= prior.push(one));
                assert(shapes(drafts@) == (before + prior).push(one));
                assert((before + prior).push(one) =~= before + prior.push(one));
            }
            i = i + 1;
        }
        assert(items@.take(i as int) =~= items@);
    }

    /// Drafts the discard of everything that waits in the inbox.
    pub fn discard_pending_inbox_drafts<E: AgentEventSource>(
        &self,
        source: &E,
        cause: CancelCause,
    ) -> (r: Vec<NewSessionEvent>)
        ensures
            fits(
                r@,
                fixed(
                    discards(self.state.projection.inbox.next_turn@, cause) + discards(
                        self.state.projection.inbox.next_step@,
                        cause,
                    ),
                ),
            ),
            all_drawn(source, r@),
    {
        let inbox = &self.state.projection.inbox;
        let mut drafts: Vec<NewSessionEvent> = Vec::new();
        assert(shapes(drafts@) =~= Seq::empty());
        Self::push_discards(&mut drafts, source, &inbox.next_turn, cause);
        assert(shapes(drafts@) =~= discards(inbox.next_turn@, cause));
        Self::push_discards(&mut drafts, source, &inbox.next_step, cause);
        proof {
            lemma_fixed(
                drafts@,
                discards(inbox.next_turn@, cause) + discards(inbox.next_step@, cause),
            );
        }
        drafts
    }
}

proof fn lemma_more_blocking(
    p: SessionProjection,
    tools: Seq<ToolRegistration>,
    calls: Seq<OpenStepToolCall>,
    n: int,
)
    requires
        0 <= n <= calls.len(),
    ensures
        blocking_calls(p, tools, calls.take(n)).len() <= blocking_calls(p, tools, calls).len(),
    decreases calls.len() - n,
{
    reveal(Seq::filter);
    if n == calls.len() {
        assert(calls.take(n) =~= calls);
    } else {
        lemma_more_blocking(p, tools, calls, n + 1);
        assert(calls.take(n + 1).drop_last() =~= calls.take(n));
    }
}

/// A cancellation ends what is open: where a step is open, the last events but
/// the discards end the step and then its turn, blocked if an unknown effect
/// remains and cancelled otherwise.
pub proof fn law_cancellation_ends_the_turn(
    p: SessionProjection,
    tools: Seq<ToolRegistration>,
    cause: CancelCause,
    position: StepPosition,
    templates: Seq<Template>,
)
    requires
        p.lifecycle.open_step == Some(position),
        stop_activity(p, tools, cause) == Ok::<Seq<Template>, AgentErrorView>(templates),
    ensures
        ({
            let n = templates.len() as int;
            let step = templates[n - 2];
            let turn = templates[n - 1];
            &&& n >= 2
            &&& (step == Template::Fixed(step_ended(StepEndReason::Cancelled, position)) && turn
                == Template::Fixed(turn_ended(TurnEndReason::Cancelled, position.turn))) || (step
                == Template::Fixed(step_ended(StepEndReason::Blocked, position)) && turn
                == Template::Fixed(turn_ended(TurnEndReason::Blocked, position.turn)))
        }),
{
}

/// A cancellation that keeps the inbox discards nothing; one that does not
/// discards every item that waits in it, once and in order.
pub proof fn law_inbox_is_kept_or_discarded(
    p: SessionProjection,
    tools: Seq<ToolRegistration>,
    cause: CancelCause,
    kept: Seq<Template>,
    dropped: Seq<Template>,
)
    requires
        cancellation(p, tools, cause, true) == Ok::<Seq<Template>, AgentErrorView>(kept),
        cancellation(p, tools, cause, false) == Ok::<Seq<Template>, AgentErrorView>(dropped),
    ensures
        dropped.take(kept.len() as int) == kept,
        dropped.len() == kept.len() + p.inbox.next_turn@.len() + p.inbox.next_step@.len(),
        forall|i: int|
            0 <= i < p.inbox.next_turn@.len() ==> (#[trigger] dropped[kept.len() + i])
                == Template::Fixed(discards(p.inbox.next_turn@, cause)[i]),
        forall|i: int|
            0 <= i < p.inbox.next_step@.len() ==> (#[trigger] dropped[kept.len()
                + p.inbox.next_turn@.len() + i]) == Template::Fixed(
                discards(p.inbox.next_step@, cause)[i],
            ),
{
    assert(dropped.take(kept.len() as int) =~= kept);
}

/// A call that may have had an effect that must not be repeated is never
/// recorded as cancelled: stopping it leaves a recovery block.
pub proof fn law_cancellation_keeps_unknown_effects(
    p: SessionProjection,
    tools: Seq<ToolRegistration>,
    position: StepPosition,
    cause: CancelCause,
    call: OpenStepToolCall,
    templates: Seq<Template>,
)
    requires
        p.open_step_tools.announced@.contains(call),
        blocks(p, tools, call),
        stop_tool_step(p, tools, position, cause) == Ok::<Seq<Template>, AgentErrorView>(templates),
    ensures
        ({
            let d = dispatch_of(p.pending_tool_dispatches@, call.call_id@)->0;
            templates.contains(
                Template::Fixed(
                    blocked_by(position, call.call_id@, d.data.invocation_id@, cause)[0],
                ),
            )
        }),
        forall|i: int|
            0 <= i < stop_call(p, tools, position, cause, call).len() ==> !((
            #[trigger] stop_call(p, tools, position, cause, call)[i]) is Result),
{
    let calls = p.open_step_tools.announced@;
    let block = |c: OpenStepToolCall| blocks(p, tools, c);
    let k = choose|k: int| 0 <= k < calls.len() && calls[k] == call;
    assert(block(calls[k]));
    assert(calls.filter(block).contains(calls[k]));
    let blocking = blocking_calls(p, tools, calls);
    assert(blocking.len() == 1);
    assert(blocking[0] == call);
    let d = dispatch_of(p.pending_tool_dispatches@, call.call_id@)->0;
    let body = stop_approval(p, position, cause) + stop_calls(p, tools, position, cause, calls);
    assert(templates[body.len() as int] == Template::Fixed(
        blocked_by(position, call.call_id@, d.data.invocation_id@, cause)[0],
    ));
}

/// Where what stopping one call writes stands in what stopping a row of calls writes.
proof fn lemma_stop_calls_at(
    p: SessionProjection,
    tools: Seq<ToolRegistration>,
    position: StepPosition,
    cause: CancelCause,
    calls: Seq<OpenStepToolCall>,
    k: int,
) -> (from: int)
    requires
        0 <= k < calls.len(),
    ensures
        ({
            let all = stop_calls(p, tools, position, cause, calls);
            let one = stop_call(p, tools, position, cause, calls[k]);
            &&& 0 <= from
            &&& from + one.len() <= all.len()
            &&& forall|i: int| 0 <= i < one.len() ==> all[from + i] == #[trigger] one[i]
        }),
    decreases calls.len(),
{
    let before = stop_calls(p, tools, position, cause, calls.drop_last());
    if k == calls.len() - 1 {
        before.len() as int
    } else {
        assert(calls.drop_last()[k] == calls[k]);
        let from = lemma_stop_calls_at(p, tools, position, cause, calls.drop_last(), k);
        from
    }
}

/// Which call a template that stopping a row of calls writes is about.
proof fn lemma_stop_calls_of(
    p: SessionProjection,
    tools: Seq<ToolRegistration>,
    position: StepPosition,
    cause: CancelCause,
    calls: Seq<OpenStepToolCall>,
    j: int,
) -> (at: (int, int))
    requires
        0 <= j < stop_calls(p, tools, position, cause, calls).len(),
    ensures
        ({
            let all = stop_calls(p, tools, position, cause, calls);
            let one = stop_call(p, tools, position, cause, calls[at.0]);
            &&& 0 <= at.0 < calls.len()
            &&& 0 <= at.1 < one.len()
            &&& all[j] == one[at.1]
        }),
    decreases calls.len(),
{
    let before = stop_calls(p, tools, position, cause, calls.drop_last());
    if j < before.len() {
        let at = lemma_stop_calls_of(p, tools, position, cause, calls.drop_last(), j);
        assert(calls.drop_last()[at.0] == calls[at.0]);
        at
    } else {
        (calls.len() - 1, j - before.len())
    }
}

/// Whether a cancellation may write `payload`: it ends work, it does not begin, allow or
/// complete any.
pub open spec fn only_stops(p: SessionProjection, payload: PayloadView) -> bool {
    match payload {
        PayloadView::ApprovalResolved { approval_id, call_id, decision, .. } => {
            &&& decision == ApprovalDecision::Deny
            &&& p.pending_approval matches Some(a) && a.data.approval_id@ == approval_id
                && a.data.call_id@ == call_id
        },
        PayloadView::ToolResult { call_id, outcome, .. } => {
            &&& outcome is Cancelled || outcome is Unknown
            &&& !has_id(p.open_step_tools.completed@, call_id)
        },
        PayloadView::ModelFailed { request_id, failure } => {
            &&& failure.code == ErrorCode::Cancelled
            &&& p.pending_model_request matches Some(r) && r.request_id@ == request_id
        },
        PayloadView::StepEnded { reason } => reason == StepEndReason::Cancelled || reason
            == StepEndReason::Blocked,
        PayloadView::TurnEnded { reason } => reason == TurnEndReason::Cancelled || reason
            == TurnEndReason::Blocked,
        PayloadView::ToolCall { call_id, .. } => !has_id(p.open_step_tools.completed@, call_id),
        PayloadView::RecoveryBlocked { call_id, .. } => !has_id(
            p.open_step_tools.completed@,
            call_id,
        ),
        PayloadView::InboxDiscarded { .. } => true,
        _ => false,
    }
}

/// What a cancellation writes only stops work. Above all no pending approval is granted by
/// it, no call is said to have succeeded, and no call that has ended is ended again.
pub proof fn law_cancellation_only_stops(
    p: SessionProjection,
    tools: Seq<ToolRegistration>,
    cause: CancelCause,
    keep_inbox: bool,
    drafts: Seq<NewSessionEvent>,
    templates: Seq<Template>,
    i: int,
)
    requires
        cancellation(p, tools, cause, keep_inbox) == Ok::<Seq<Template>, AgentErrorView>(templates),
        fits(drafts, templates),
        0 <= i < drafts.len(),
    ensures
        only_stops(p, drafts[i].payload@),
        !(drafts[i].payload@ matches PayloadView::ApprovalResolved {
            decision: ApprovalDecision::Allow,
            ..
        }),
{
    assert(fits_one(drafts[i], templates[i]));
    let activity = stop_activity(p, tools, cause)->Ok_0;
    if i < activity.len() {
        assert(templates[i] == activity[i]);
        lemma_activity_only_stops(p, tools, cause, activity, i, drafts[i].event_id@);
    } else {
        let dropped = discards(p.inbox.next_turn@, cause) + discards(p.inbox.next_step@, cause);
        assert(templates[i] == Template::Fixed(dropped[i - activity.len()]));
    }
}

proof fn lemma_activity_only_stops(
    p: SessionProjection,
    tools: Seq<ToolRegistration>,
    cause: CancelCause,
    templates: Seq<Template>,
    i: int,
    id: Seq<char>,
)
    requires
        stop_activity(p, tools, cause) == Ok::<Seq<Template>, AgentErrorView>(templates),
        0 <= i < templates.len(),
    ensures
        only_stops(p, filled(templates[i], id).payload),
{
    if p.lifecycle.open_step is Some && p.pending_model_request is None && (
    p.open_step_tools.announced@.len() > 0 || p.pending_tool_calls@.len() > 0) {
        let position = p.lifecycle.open_step->0;
        let calls = p.open_step_tools.announced@;
        let approval = stop_approval(p, position, cause);
        let all = stop_calls(p, tools, position, cause, calls);
        let blocking = blocking_calls(p, tools, calls);
        if i < approval.len() {
            assert(templates[i] == approval[i]);
        } else if i < approval.len() + all.len() {
            let j = i - approval.len();
            assert(templates[i] == all[j]);
            let at = lemma_stop_calls_of(p, tools, position, cause, calls, j);
        } else if blocking.len() == 1 {
            let block = |c: OpenStepToolCall| blocks(p, tools, c);
            assert(blocking.contains(blocking[0]));
            calls.lemma_filter_contains_rev(block, blocking[0]);
            assert(block(blocking[0]));
        }
    }
}

/// A pending approval of the open step is denied first of all, with a note that names the
/// cause: exactly this approval, for exactly its call.
pub proof fn law_pending_approval_is_denied(
    p: SessionProjection,
    tools: Seq<ToolRegistration>,
    cause: CancelCause,
    keep_inbox: bool,
    drafts: Seq<NewSessionEvent>,
    templates: Seq<Template>,
    position: StepPosition,
    approval: PendingApproval,
)
    requires
        cancellation(p, tools, cause, keep_inbox) == Ok::<Seq<Template>, AgentErrorView>(templates),
        fits(drafts, templates),
        p.lifecycle.open_step == Some(position),
        p.pending_model_request is None,
        p.open_step_tools.announced@.len() > 0 || p.pending_tool_calls@.len() > 0,
        p.pending_approval == Some(approval),
    ensures
        drafts.len() > 0,
        drafts[0].payload@ matches PayloadView::ApprovalResolved {
            approval_id,
            call_id,
            decision,
            note,
        } && approval_id == approval.data.approval_id@ && call_id == approval.data.call_id@
            && decision == ApprovalDecision::Deny && note == Some(
            "approval cancelled by "@ + cause_label(cause),
        ),
        drafts[0].turn == Some(position.turn),
        drafts[0].step == Some(position.step),
        forall|i: int|
            1 <= i < drafts.len() ==> !((#[trigger] drafts[i]).payload@ is ApprovalResolved),
{
    assert(fits_one(drafts[0], templates[0]));
    let calls = p.open_step_tools.announced@;
    let head = stop_approval(p, position, cause);
    let all = stop_calls(p, tools, position, cause, calls);
    let activity = stop_activity(p, tools, cause)->Ok_0;
    let dropped = discards(p.inbox.next_turn@, cause) + discards(p.inbox.next_step@, cause);
    assert(templates[0] == head[0]);
    assert forall|i: int| 1 <= i < drafts.len() implies !((
    #[trigger] drafts[i]).payload@ is ApprovalResolved) by {
        assert(fits_one(drafts[i], templates[i]));
        if i < 1 + all.len() {
            assert(templates[i] == all[i - 1]);
            let at = lemma_stop_calls_of(p, tools, position, cause, calls, i - 1);
        } else if i < activity.len() {
            assert(templates[i] == activity[i]);
        } else {
            assert(templates[i] == Template::Fixed(dropped[i - activity.len()]));
        }
    }
}

/// Whether `class` is the class of an announced call: the one that it was recorded with,
/// or else that of its tool. A call of an unknown tool counts as one that must not be
/// repeated.
pub open spec fn is_class_of(
    p: SessionProjection,
    tools: Seq<ToolRegistration>,
    call: OpenStepToolCall,
    class: SideEffectClass,
) -> bool {
    match call_of(p.pending_tool_calls@, call.call_id@) {
        Some(pending) => class == pending.data.side_effect,
        None => match registration_of(tools, call.name@) {
            Some(t) => class == t.definition.side_effect,
            None => class == SideEffectClass::NonIdempotentWrite,
        },
    }
}

/// Every announced call that has not ended is ended by a cancellation, under its own
/// invocation where it was handed over. It ends as cancelled, except where it was handed
/// over and may have written: then the outcome is unknown, and if the write must not be
/// repeated the session is blocked in place of an end.
pub proof fn law_every_open_call_is_stopped(
    p: SessionProjection,
    tools: Seq<ToolRegistration>,
    cause: CancelCause,
    keep_inbox: bool,
    drafts: Seq<NewSessionEvent>,
    templates: Seq<Template>,
    position: StepPosition,
    k: int,
    class: SideEffectClass,
) -> (at: int)
    requires
        cancellation(p, tools, cause, keep_inbox) == Ok::<Seq<Template>, AgentErrorView>(templates),
        fits(drafts, templates),
        p.lifecycle.open_step == Some(position),
        p.pending_model_request is None,
        0 <= k < p.open_step_tools.announced@.len(),
        !has_id(p.open_step_tools.completed@, p.open_step_tools.announced@[k].call_id@),
        is_class_of(p, tools, p.open_step_tools.announced@[k], class),
    ensures
        0 <= at < drafts.len(),
        drafts[at].turn == Some(position.turn),
        drafts[at].step == Some(position.step),
        ({
            let id = p.open_step_tools.announced@[k].call_id@;
            match dispatch_of(p.pending_tool_dispatches@, id) {
                None => drafts[at].payload@ == (PayloadView::ToolResult {
                    call_id: id,
                    invocation_id: "inv:tool:"@ + drafts[at].event_id@,
                    outcome: ToolOutcomeView::Cancelled { cause },
                }),
                Some(d) => match class {
                    SideEffectClass::ReadOnly => drafts[at].payload@ == (PayloadView::ToolResult {
                        call_id: id,
                        invocation_id: d.data.invocation_id@,
                        outcome: ToolOutcomeView::Cancelled { cause },
                    }),
                    SideEffectClass::IdempotentWrite => drafts[at].payload@ == (
                    PayloadView::ToolResult {
                        call_id: id,
                        invocation_id: d.data.invocation_id@,
                        outcome: ToolOutcomeView::Unknown {
                            reason: "idempotent Tool dispatch was interrupted by "@ + cause_label(
                                cause,
                            ) + " cancellation"@,
                        },
                    }),
                    SideEffectClass::NonIdempotentWrite => drafts[at].payload@ == (
                    PayloadView::RecoveryBlocked {
                        kind: RecoveryBlockKind::UnknownToolOutcome,
                        call_id: id,
                        invocation_id: d.data.invocation_id@,
                        reason: "non-idempotent Tool dispatch was interrupted by "@ + cause_label(
                            cause,
                        ) + " cancellation; external outcome is unknown"@,
                    }),
                },
            }
        }),
{
    let calls = p.open_step_tools.announced@;
    let call = calls[k];
    let head = stop_approval(p, position, cause);
    let all = stop_calls(p, tools, position, cause, calls);
    let one = stop_call(p, tools, position, cause, call);
    let from = lemma_stop_calls_at(p, tools, position, cause, calls, k);
    let activity = stop_activity(p, tools, cause)->Ok_0;
    if blocks(p, tools, call) {
        let block = |c: OpenStepToolCall| blocks(p, tools, c);
        assert(block(calls[k]));
        assert(calls.filter(block).contains(calls[k]));
        let blocking = blocking_calls(p, tools, calls);
        assert(blocking.len() == 1);
        assert(blocking[0] == call);
        let at = (head.len() + all.len()) as int;
        assert(templates[at] == activity[at]);
        assert(fits_one(drafts[at], templates[at]));
        at
    } else {
        let at = head.len() + from + one.len() - 1;
        assert(all[from + (one.len() - 1)] == one[one.len() - 1]);
        assert(templates[at] == one.last());
        assert(fits_one(drafts[at], templates[at]));
        at
    }
}

/// An open call that was never recorded is recorded by a cancellation as it was announced.
pub proof fn law_stopped_calls_are_on_record(
    p: SessionProjection,
    tools: Seq<ToolRegistration>,
    cause: CancelCause,
    keep_inbox: bool,
    drafts: Seq<NewSessionEvent>,
    templates: Seq<Template>,
    position: StepPosition,
    k: int,
    class: SideEffectClass,
) -> (at: int)
    requires
        cancellation(p, tools, cause, keep_inbox) == Ok::<Seq<Template>, AgentErrorView>(templates),
        fits(drafts, templates),
        p.lifecycle.open_step == Some(position),
        p.pending_model_request is None,
        0 <= k < p.open_step_tools.announced@.len(),
        !has_id(p.open_step_tools.completed@, p.open_step_tools.announced@[k].call_id@),
        call_of(p.pending_tool_calls@, p.open_step_tools.announced@[k].call_id@) is None,
        is_class_of(p, tools, p.open_step_tools.announced@[k], class),
    ensures
        0 <= at < drafts.len(),
        drafts[at].turn == Some(position.turn),
        drafts[at].step == Some(position.step),
        drafts[at].payload@ == (PayloadView::ToolCall {
            call_id: p.open_step_tools.announced@[k].call_id@,
            tool: p.open_step_tools.announced@[k].name@,
            arguments_json: p.open_step_tools.announced@[k].arguments_json@,
            side_effect: class,
        }),
{
    let calls = p.open_step_tools.announced@;
    let head = stop_approval(p, position, cause);
    let all = stop_calls(p, tools, position, cause, calls);
    let one = stop_call(p, tools, position, cause, calls[k]);
    let from = lemma_stop_calls_at(p, tools, position, cause, calls, k);
    let at = head.len() + from;
    assert(all[from + 0] == one[0]);
    assert(templates[at] == one[0]);
    assert(fits_one(drafts[at], templates[at]));
    at
}

/// A cancellation that keeps the inbox ends the open step and then its turn, last of all.
/// Both end as cancelled, unless a call that was handed over may have written what must not
/// be written twice: then both end as blocked.
pub proof fn law_cancelled_step_and_turn_end_last(
    p: SessionProjection,
    tools: Seq<ToolRegistration>,
    cause: CancelCause,
    drafts: Seq<NewSessionEvent>,
    templates: Seq<Template>,
    position: StepPosition,
    blocked: bool,
)
    requires
        cancellation(p, tools, cause, true) == Ok::<Seq<Template>, AgentErrorView>(templates),
        fits(drafts, templates),
        p.lifecycle.open_step == Some(position),
        blocked == (p.pending_model_request is None && exists|k: int|
            #![trigger p.open_step_tools.announced@[k]]
            0 <= k < p.open_step_tools.announced@.len() && {
                let call = p.open_step_tools.announced@[k];
                &&& !has_id(p.open_step_tools.completed@, call.call_id@)
                &&& is_class_of(p, tools, call, SideEffectClass::NonIdempotentWrite)
                &&& dispatch_of(p.pending_tool_dispatches@, call.call_id@) is Some
            }),
    ensures
        drafts.len() >= 2,
        ({
            let step = drafts[drafts.len() - 2];
            let turn = drafts[drafts.len() - 1];
            &&& step.payload@ == (PayloadView::StepEnded {
                reason: if blocked {
                    StepEndReason::Blocked
                } else {
                    StepEndReason::Cancelled
                },
            })
            &&& step.turn == Some(position.turn) && step.step == Some(position.step)
            &&& turn.payload@ == (PayloadView::TurnEnded {
                reason: if blocked {
                    TurnEndReason::Blocked
                } else {
                    TurnEndReason::Cancelled
                },
            })
            &&& turn.turn == Some(position.turn) && turn.step is None
        }),
{
    let n = drafts.len() as int;
    let calls = p.open_step_tools.announced@;
    let block = |c: OpenStepToolCall| blocks(p, tools, c);
    let blocking = blocking_calls(p, tools, calls);
    if blocked {
        let k = choose|k: int|
            #![trigger p.open_step_tools.announced@[k]]
            0 <= k < calls.len() && {
                let call = p.open_step_tools.announced@[k];
                &&& !has_id(p.open_step_tools.completed@, call.call_id@)
                &&& is_class_of(p, tools, call, SideEffectClass::NonIdempotentWrite)
                &&& dispatch_of(p.pending_tool_dispatches@, call.call_id@) is Some
            };
        assert(block(calls[k]));
        assert(calls.filter(block).contains(calls[k]));
        assert(blocking.len() > 0);
    } else if blocking.len() > 0 && p.pending_model_request is None {
        assert(blocking.contains(blocking[0]));
        calls.lemma_filter_contains_rev(block, blocking[0]);
        assert(block(blocking[0]));
        let k = choose|k: int| 0 <= k < calls.len() && calls[k] == blocking[0];
        assert(is_class_of(
            p,
            tools,
            p.open_step_tools.announced@[k],
            SideEffectClass::NonIdempotentWrite,
        ));
    }
    assert(fits_one(drafts[n - 2], templates[n - 2]));
    assert(fits_one(drafts[n - 1], templates[n - 1]));
}

/// A pending model request fails as cancelled, and nothing else happens but the end of its
/// step and turn. Without a step only the open turn ends, and without a turn nothing
/// happens at all.
pub proof fn law_cancelled_request_fails(
    p: SessionProjection,
    tools: Seq<ToolRegistration>,
    cause: CancelCause,
    drafts: Seq<NewSessionEvent>,
    templates: Seq<Template>,
)
    requires
        cancellation(p, tools, cause, true) == Ok::<Seq<Template>, AgentErrorView>(templates),
        fits(drafts, templates),
    ensures
        p.lifecycle.open_step matches Some(position) ==> p.pending_model_request matches Some(
            request,
        ) ==> {
            &&& drafts.len() == 3
            &&& drafts[0].payload@ matches PayloadView::ModelFailed { request_id, failure }
            &&& request_id == request.request_id@
            &&& failure.code == ErrorCode::Cancelled
            &&& failure.message == "model request cancelled by "@ + cause_label(cause)
            &&& failure.details.len() == 0
            &&& drafts[0].turn == Some(position.turn) && drafts[0].step == Some(position.step)
        },
        p.lifecycle.open_step is None ==> match p.lifecycle.open_turn {
            Some(turn) => {
                &&& drafts.len() == 1
                &&& drafts[0].payload@ == (PayloadView::TurnEnded {
                    reason: TurnEndReason::Cancelled,
                })
                &&& drafts[0].turn == Some(turn) && drafts[0].step is None
            },
            None => drafts.len() == 0,
        },
{
    if drafts.len() > 0 {
        assert(fits_one(drafts[0], templates[0]));
    }
}

/// A cancellation that does not keep the inbox discards every item that waits, outside any
/// turn and with the cause as the reason: first what waits for a turn, then what waits for
/// a step, each oldest first and behind all that ends work.
pub proof fn law_dropped_inbox_is_discarded(
    p: SessionProjection,
    tools: Seq<ToolRegistration>,
    cause: CancelCause,
    kept: Seq<Template>,
    drafts: Seq<NewSessionEvent>,
    templates: Seq<Template>,
    i: int,
)
    requires
        cancellation(p, tools, cause, true) == Ok::<Seq<Template>, AgentErrorView>(kept),
        cancellation(p, tools, cause, false) == Ok::<Seq<Template>, AgentErrorView>(templates),
        fits(drafts, templates),
        0 <= i < p.inbox.next_turn@.len() + p.inbox.next_step@.len(),
    ensures
        ({
            let n = p.inbox.next_turn@.len();
            let d = drafts[kept.len() + i];
            let item = if i < n {
                p.inbox.next_turn@[i]
            } else {
                p.inbox.next_step@[i - n]
            };
            &&& drafts.len() == kept.len() + n + p.inbox.next_step@.len()
            &&& d.payload@ == (PayloadView::InboxDiscarded {
                message_id: item.message.id@,
                reason: "cancelled:"@ + cause_label(cause),
            })
            &&& d.turn is None && d.step is None
        }),
{
    assert(fits_one(drafts[kept.len() + i], templates[kept.len() + i]));
}

/// The words for the causes.
pub proof fn law_causes_have_words()
    ensures
        cause_label(CancelCause::User) == "user"@,
        cause_label(CancelCause::Parent) == "parent"@,
        cause_label(CancelCause::Timeout) == "timeout"@,
        cause_label(CancelCause::Policy) == "policy"@,
        cause_label(CancelCause::Shutdown) == "shutdown"@,
        cause_label(CancelCause::Disposed) == "disposed"@,
{
}

/// The operation that is stopped is the one under way: the model request itself, or the
/// invocation of a tool that is attached. Nothing is stopped while nothing is under way.
pub proof fn law_operation_under_way_is_stopped(
    s: AgentState,
    has_model: bool,
    tools: Seq<ToolRegistration>,
)
    ensures
        match cancel_target(s, has_model, tools) {
            Some(CapabilityCancelTarget::Model { request_id: id }) => {
                &&& has_model
                &&& s.active_operation matches Some(ActiveAgentOperation::Model { request_id, .. })
                &&& request_id == id
            },
            Some(CapabilityCancelTarget::Tool { tool, invocation_id: id }) => {
                &&& s.active_operation matches Some(
                    ActiveAgentOperation::Tool { call_id, invocation_id, .. },
                )
                &&& invocation_id == id
                &&& call_of(s.projection.pending_tool_calls@, call_id@) matches Some(c)
                &&& c.data.tool == tool
                &&& registration_of(tools, tool@) is Some
            },
            None => {
                &&& s.active_operation matches Some(ActiveAgentOperation::Model { .. }) ==> !has_model
                &&& s.active_operation matches Some(ActiveAgentOperation::Tool { call_id, .. })
                    ==> (call_of(s.projection.pending_tool_calls@, call_id@) matches Some(c)
                    ==> registration_of(tools, c.data.tool@) is None)
            },
        },
{
}

/// A cancellation is refused only if two calls of the open step were handed over, have not
/// ended and must not be repeated, and no model request is pending. Keeping the inbox makes
/// no difference to that.
pub proof fn law_cancellation_is_seldom_refused(
    p: SessionProjection,
    tools: Seq<ToolRegistration>,
    cause: CancelCause,
    keep_inbox: bool,
) -> (at: (int, int))
    requires
        cancellation(p, tools, cause, keep_inbox) is Err,
    ensures
        p.lifecycle.open_step is Some,
        p.pending_model_request is None,
        0 <= at.0 < at.1 < p.open_step_tools.announced@.len(),
        ({
            let calls = p.open_step_tools.announced@;
            let first = calls[at.0];
            let second = calls[at.1];
            &&& !has_id(p.open_step_tools.completed@, first.call_id@)
            &&& !has_id(p.open_step_tools.completed@, second.call_id@)
            &&& is_class_of(p, tools, first, SideEffectClass::NonIdempotentWrite)
            &&& is_class_of(p, tools, second, SideEffectClass::NonIdempotentWrite)
            &&& dispatch_of(p.pending_tool_dispatches@, first.call_id@) is Some
            &&& dispatch_of(p.pending_tool_dispatches@, second.call_id@) is Some
        }),
{
    let calls = p.open_step_tools.announced@;
    let block = |c: OpenStepToolCall| blocks(p, tools, c);
    let at = lemma_two_filtered(calls, block);
    at
}

} // verus!
