//! Deterministic progress: recovery without outside help, turns and steps.

use vstd::prelude::*;

use crate::agent::actor::append::AgentActor;
use crate::agent::drafts::{all_drawn, step_draft, step_ended, turn_draft, turn_ended};
use crate::agent::error::{AgentError, AgentErrorView};
use crate::agent::event_source::AgentEventSource;
use crate::agent::loop_driver::{
    is_next_plan, law_plan_is_determined, plan_next, plan_view, planned_view, DriverPlan, DriverPlanView,
    PlannedInboxInput, PlannedView,
};
use crate::agent::recovery::ResumeDecision;
use crate::agent::state::{
    boundary_of, in_step_with_history, phase_from_projection, phase_of, AgentDriverBoundary,
    AgentPhase, AgentState,
};
use crate::message::{plain_failure, PortableError};
use crate::session::{
    in_step, in_turn, lemma_shapes_push, shape, shapes, ModelFailed, NewSessionEvent, PayloadView,
    RecoveryBlockKind, RecoveryBlocked, SessionEventPayload, Shape, StepEndReason, StepPosition,
    TurnEndReason,
};
use crate::types::{ErrorCode, InboxTarget, StepNo, TurnNo};

verus! {

/// The phase that follows once drafts are written.
#[derive(Clone, Copy, Debug, PartialEq, Eq, Structural)]
pub enum PhaseAfter {
    Running { turn: TurnNo, step: StepNo },
    /// Idle behind the last turn that the session then has ended.
    Idle,
}

/// A move of the deterministic driver.
#[derive(Debug)]
pub enum DriverAction {
    /// Nothing is left for the driver.
    Rest,
    /// Write these drafts, then enter the phase and move again.
    Append { drafts: Vec<NewSessionEvent>, then_phase: PhaseAfter },
}

/// What comes after the driver rests.
#[derive(Clone, Copy, Debug, PartialEq, Eq, Structural)]
pub enum RuntimeAction {
    CallModel { position: StepPosition },
    AdvanceTools { position: StepPosition },
    Wait,
}

/// What recovery writes before normal work goes on: the failure of an
/// interrupted model request, or a recovery block with the end of its step and
/// turn.
pub open spec fn startup_shapes(resume: ResumeDecision) -> Option<Seq<Shape>> {
    match resume {
        ResumeDecision::RecoverInterruptedModelRequest { position, request } => Some(
            seq![
                in_step(
                    PayloadView::ModelFailed {
                        request_id: request.request_id@,
                        failure: plain_failure(
                            ErrorCode::ModelRequestFailed,
                            "model request was interrupted by process restart before a durable terminal response"@,
                        ),
                    },
                    position,
                ),
            ],
        ),
        ResumeDecision::PersistRecoveryBlock { proposal } => Some(
            seq![
                in_step(
                    PayloadView::RecoveryBlocked {
                        kind: RecoveryBlockKind::UnknownToolOutcome,
                        call_id: proposal.call.data.call_id@,
                        invocation_id: proposal.dispatch.data.invocation_id@,
                        reason: "a non-idempotent Tool dispatch has no durable terminal result; the external outcome is unknown"@,
                    },
                    proposal.position,
                ),
                step_ended(StepEndReason::Blocked, proposal.position),
                turn_ended(TurnEndReason::Blocked, proposal.position.turn),
            ],
        ),
        _ => None,
    }
}

/// The claim of an input.
pub open spec fn claim(input: PlannedView) -> PayloadView {
    PayloadView::InboxClaimed { message_id: input.item.message.id, target: input.target }
}

/// The claims of the inputs that waited for a turn.
pub open spec fn turn_claims(inputs: Seq<PlannedView>, turn: TurnNo) -> Seq<Shape>
    decreases inputs.len(),
{
    if inputs.len() == 0 {
        Seq::empty()
    } else {
        let before = turn_claims(inputs.drop_last(), turn);
        if inputs.last().target == InboxTarget::NextTurn {
            before.push(in_turn(claim(inputs.last()), turn))
        } else {
            before
        }
    }
}

/// What the inputs become in the step: an input that waited for a step is
/// claimed there, and each becomes a user message.
pub open spec fn step_entries(inputs: Seq<PlannedView>, position: StepPosition) -> Seq<Shape>
    decreases inputs.len(),
{
    if inputs.len() == 0 {
        Seq::empty()
    } else {
        let input = inputs.last();
        let before = step_entries(inputs.drop_last(), position);
        let claimed = if input.target == InboxTarget::NextStep {
            before.push(in_step(claim(input), position))
        } else {
            before
        };
        claimed.push(
            in_step(PayloadView::UserMessage { message: input.item.message }, position),
        )
    }
}

/// What opening a step writes.
pub open spec fn entry_shapes(
    new_turn: Option<TurnNo>,
    position: StepPosition,
    inputs: Seq<PlannedView>,
) -> Seq<Shape> {
    let opening = match new_turn {
        Some(turn) => seq![in_turn(PayloadView::TurnStarted { turn }, turn)],
        None => Seq::empty(),
    };
    (opening + turn_claims(inputs, position.turn)).push(
        in_step(
            PayloadView::StepStarted { turn: position.turn, step: position.step },
            position,
        ),
    ) + step_entries(inputs, position)
}

/// What taking up inputs in the open step writes: each is claimed and becomes a
/// user message.
pub open spec fn current_entries(inputs: Seq<PlannedView>, position: StepPosition) -> Seq<Shape>
    decreases inputs.len(),
{
    if inputs.len() == 0 {
        Seq::empty()
    } else {
        current_entries(inputs.drop_last(), position).push(
            in_step(claim(inputs.last()), position),
        ).push(
            in_step(PayloadView::UserMessage { message: inputs.last().item.message }, position),
        )
    }
}

/// The phase of a step.
pub open spec fn running_at(position: StepPosition) -> AgentPhase {
    AgentPhase::Running { turn: position.turn, step: Some(position.step) }
}

/// Whether `action`, with `next` as the new state, carries out `plan` in `s`.
pub open spec fn carries_out(
    s: AgentState,
    plan: DriverPlanView,
    next: AgentState,
    action: DriverAction,
) -> bool {
    match plan {
        DriverPlanView::Dormant => {
            &&& action is Rest
            &&& next == (AgentState {
                phase: AgentPhase::Idle { last_turn: s.projection.lifecycle.last_ended_turn },
                ..s
            })
        },
        DriverPlanView::Deferred => {
            &&& action is Rest
            &&& next == (AgentState { phase: phase_of(s.projection), ..s })
        },
        DriverPlanView::Park(boundary) => {
            &&& action is Rest
            &&& next == (AgentState {
                phase: running_at(
                    match boundary {
                        AgentDriverBoundary::ReadyForModel { position } => position,
                        AgentDriverBoundary::ReadyForTools { position } => position,
                    },
                ),
                ..s
            })
        },
        DriverPlanView::StartNewTurn { turn, step, inputs } => {
            &&& next == s
            &&& action matches DriverAction::Append { drafts, then_phase }
            &&& then_phase == (PhaseAfter::Running { turn, step })
            &&& shapes(drafts@) == entry_shapes(Some(turn), StepPosition { turn, step }, inputs)
        },
        DriverPlanView::StartStep { turn, step, inputs } => {
            &&& next == s
            &&& action matches DriverAction::Append { drafts, then_phase }
            &&& then_phase == (PhaseAfter::Running { turn, step })
            &&& shapes(drafts@) == entry_shapes(None, StepPosition { turn, step }, inputs)
        },
        DriverPlanView::EnterCurrentStep { position, inputs } => {
            &&& next == s
            &&& action matches DriverAction::Append { drafts, then_phase }
            &&& then_phase == (PhaseAfter::Running { turn: position.turn, step: position.step })
            &&& shapes(drafts@) == current_entries(inputs, position)
        },
        DriverPlanView::EndOpenTurn { turn } => {
            &&& next == s
            &&& action matches DriverAction::Append { drafts, then_phase }
            &&& then_phase is Idle
            &&& shapes(drafts@) == seq![turn_ended(TurnEndReason::Completed, turn)]
        },
    }
}

/// Whether `r`, with `next` as the new state, is the driver's move in `s`.
pub open spec fn is_driver_move(
    s: AgentState,
    next: AgentState,
    r: Result<DriverAction, AgentError>,
) -> bool {
    if s.active_operation is Some {
        next == s && r matches Ok(DriverAction::Rest)
    } else {
        match r {
            Ok(action) => exists|plan: DriverPlanView|
                is_next_plan(s, Ok::<DriverPlanView, AgentErrorView>(plan))
                    && #[trigger] carries_out(s, plan, next, action),
            Err(e) => next == s && is_next_plan(s, Err::<DriverPlanView, AgentErrorView>(e@)),
        }
    }
}

/// The runtime's next step at a boundary, where the capability is attached.
pub open spec fn runtime_action(s: AgentState, has_model: bool, has_tools: bool) -> RuntimeAction {
    match boundary_of(s) {
        Some(AgentDriverBoundary::ReadyForModel { position }) => if has_model {
            RuntimeAction::CallModel { position }
        } else {
            RuntimeAction::Wait
        },
        Some(AgentDriverBoundary::ReadyForTools { position }) => if has_tools {
            RuntimeAction::AdvanceTools { position }
        } else {
            RuntimeAction::Wait
        },
        None => RuntimeAction::Wait,
    }
}

/// What the runtime does next.
#[derive(Debug)]
pub enum RuntimeStep {
    /// Write these drafts, enter the idle phase and ask again.
    Recover { drafts: Vec<NewSessionEvent> },
    /// Write these drafts, enter the phase and ask again.
    Append { drafts: Vec<NewSessionEvent>, then_phase: PhaseAfter },
    CallModel { position: StepPosition },
    AdvanceTools { position: StepPosition },
    /// Nothing is left to do until something happens.
    Wait,
}

/// Whether `r`, with `next` as the new state, is the runtime's step in `s`: none
/// while an operation is under way; then what recovery owes the session; then the
/// moves of the driver; and where the driver rests, the capability at the boundary.
pub open spec fn is_runtime_step(
    s: AgentState,
    next: AgentState,
    has_model: bool,
    has_tools: bool,
    r: Result<RuntimeStep, AgentError>,
) -> bool {
    if s.active_operation is Some {
        next == s && r matches Ok(RuntimeStep::Wait)
    } else if let Some(want) = startup_shapes(s.resume) {
        &&& next == (AgentState { phase: AgentPhase::Maintenance, ..s })
        &&& r matches Ok(RuntimeStep::Recover { drafts })
        &&& shapes(drafts@) == want
    } else {
        match r {
            Err(e) => is_driver_move(s, next, Err::<DriverAction, AgentError>(e)),
            Ok(RuntimeStep::Recover { .. }) => false,
            Ok(RuntimeStep::Append { drafts, then_phase }) => is_driver_move(
                s,
                next,
                Ok::<DriverAction, AgentError>(DriverAction::Append { drafts, then_phase }),
            ),
            Ok(RuntimeStep::CallModel { position }) => rests(s, next) && runtime_action(
                next,
                has_model,
                has_tools,
            ) == (RuntimeAction::CallModel { position }),
            Ok(RuntimeStep::AdvanceTools { position }) => rests(s, next) && runtime_action(
                next,
                has_model,
                has_tools,
            ) == (RuntimeAction::AdvanceTools { position }),
            Ok(RuntimeStep::Wait) => rests(s, next) && runtime_action(
                next,
                has_model,
                has_tools,
            ) == RuntimeAction::Wait,
        }
    }
}

/// Whether the identifiers and the times of what the driver drafts came from
/// `source`.
pub open spec fn move_drawn<E: AgentEventSource>(
    source: &E,
    r: Result<DriverAction, AgentError>,
) -> bool {
    r matches Ok(DriverAction::Append { drafts, .. }) ==> all_drawn(source, drafts@)
}

/// Whether the identifiers and the times of what the runtime drafts came from
/// `source`.
pub open spec fn step_drawn<E: AgentEventSource>(
    source: &E,
    r: Result<RuntimeStep, AgentError>,
) -> bool {
    match r {
        Ok(RuntimeStep::Recover { drafts }) => all_drawn(source, drafts@),
        Ok(RuntimeStep::Append { drafts, .. }) => all_drawn(source, drafts@),
        _ => true,
    }
}

/// Whether the driver rests in `s`, with `next` as the new state.
pub open spec fn rests(s: AgentState, next: AgentState) -> bool {
    is_driver_move(s, next, Ok::<DriverAction, AgentError>(DriverAction::Rest))
}

impl AgentActor {
    /// Decides what the runtime does next.
    pub fn advance_runtime<E: AgentEventSource>(
        &mut self,
        source: &E,
        has_model: bool,
        has_tools: bool,
    ) -> (r: Result<RuntimeStep, AgentError>)
        ensures
            is_runtime_step(old(self).state, final(self).state, has_model, has_tools, r),
            step_drawn(source, r),
            final(self).history == old(self).history,
    {
        if self.state.active_operation.is_some() {
            return Ok(RuntimeStep::Wait);
        }
        if let Some(drafts) = self.startup_drafts(source) {
            self.begin_maintenance();
            return Ok(RuntimeStep::Recover { drafts });
        }
        match self.driver_step(source) {
            Err(error) => Err(error),
            Ok(DriverAction::Append { drafts, then_phase }) => {
                Ok(RuntimeStep::Append { drafts, then_phase })
            },
            Ok(DriverAction::Rest) => Ok(
                match self.next_runtime_action(has_model, has_tools) {
                    RuntimeAction::CallModel { position } => RuntimeStep::CallModel { position },
                    RuntimeAction::AdvanceTools { position } => {
                        RuntimeStep::AdvanceTools { position }
                    },
                    RuntimeAction::Wait => RuntimeStep::Wait,
                },
            ),
        }
    }

    /// Whether recovery has to write something before normal work goes on.
    pub fn needs_startup(&self) -> (r: bool)
        ensures
            r == (startup_shapes(self.state.resume) is Some),
    {
        matches!(
            &self.state.resume,
            ResumeDecision::RecoverInterruptedModelRequest { .. }
                | ResumeDecision::PersistRecoveryBlock { .. }
        )
    }

    /// Drafts what recovery writes before normal work goes on.
    pub fn startup_drafts<E: AgentEventSource>(&self, source: &E) -> (r: Option<
        Vec<NewSessionEvent>,
    >)
        ensures
            match r {
                Some(drafts) => startup_shapes(self.state.resume) == Some(shapes(drafts@)),
                None => startup_shapes(self.state.resume) is None,
            },
            r matches Some(drafts) ==> all_drawn(source, drafts@),
    {
        broadcast use lemma_shapes_push;

        let mut drafts: Vec<NewSessionEvent> = Vec::new();
        match &self.state.resume {
            ResumeDecision::RecoverInterruptedModelRequest { position, request } => {
                let failure = PortableError::new(
                    ErrorCode::ModelRequestFailed,
                    "model request was interrupted by process restart before a durable terminal response".to_owned(),
                );
                drafts.push(
                    step_draft(
                        source,
                        SessionEventPayload::ModelFailed(
                            ModelFailed { request_id: request.request_id.clone(), failure },
                        ),
                        *position,
                    ),
                );
                assert(shapes(drafts@) =~= startup_shapes(self.state.resume)->0);
                Some(drafts)
            },
            ResumeDecision::PersistRecoveryBlock { proposal } => {
                let position = proposal.position;
                drafts.push(
                    step_draft(
                        source,
                        SessionEventPayload::RecoveryBlocked(
                            RecoveryBlocked {
                                kind: RecoveryBlockKind::UnknownToolOutcome,
                                call_id: proposal.call.data.call_id.clone(),
                                invocation_id: proposal.dispatch.data.invocation_id.clone(),
                                reason: "a non-idempotent Tool dispatch has no durable terminal result; the external outcome is unknown".to_owned(),
                            },
                        ),
                        position,
                    ),
                );
                drafts.push(
                    step_draft(
                        source,
                        SessionEventPayload::StepEnded { reason: StepEndReason::Blocked },
                        position,
                    ),
                );
                drafts.push(
                    turn_draft(
                        source,
                        SessionEventPayload::TurnEnded { reason: TurnEndReason::Blocked },
                        position.turn,
                    ),
                );
                assert(shapes(drafts@) =~= startup_shapes(self.state.resume)->0);
                Some(drafts)
            },
            _ => None,
        }
    }

    /// Marks that recovery is under way.
    pub fn begin_maintenance(&mut self)
        ensures
            *final(self) == (AgentActor {
                state: AgentState { phase: AgentPhase::Maintenance, ..old(self).state },
                ..*old(self)
            }),
    {
        self.state.phase = AgentPhase::Maintenance;
    }

    /// Enters the idle phase behind the last turn that has ended.
    pub fn enter_idle(&mut self)
        ensures
            *final(self) == (AgentActor {
                state: AgentState {
                    phase: AgentPhase::Idle {
                        last_turn: old(self).state.projection.lifecycle.last_ended_turn,
                    },
                    ..old(self).state
                },
                ..*old(self)
            }),
    {
        self.state.phase = AgentPhase::Idle {
            last_turn: self.state.projection.lifecycle.last_ended_turn,
        };
    }

    /// Enters the phase that follows written drafts.
    pub fn enter_phase(&mut self, then_phase: PhaseAfter)
        ensures
            *final(self) == (AgentActor {
                state: AgentState {
                    phase: match then_phase {
                        PhaseAfter::Running { turn, step } => running_at(
                            StepPosition { turn, step },
                        ),
                        PhaseAfter::Idle => AgentPhase::Idle {
                            last_turn: old(self).state.projection.lifecycle.last_ended_turn,
                        },
                    },
                    ..old(self).state
                },
                ..*old(self)
            }),
    {
        match then_phase {
            PhaseAfter::Running { turn, step } => {
                self.state.phase = AgentPhase::Running { turn, step: Some(step) };
            },
            PhaseAfter::Idle => {
                self.enter_idle();
            },
        }
    }

    /// Makes the next move of the deterministic driver.
    pub fn driver_step<E: AgentEventSource>(&mut self, source: &E) -> (r: Result<
        DriverAction,
        AgentError,
    >)
        ensures
            is_driver_move(old(self).state, final(self).state, r),
            move_drawn(source, r),
            final(self).history == old(self).history,
    {
        if self.state.active_operation.is_some() {
            return Ok(DriverAction::Rest);
        }
        let planned = plan_next(&self.state);
        let ghost view = plan_view(planned);
        let plan = match planned {
            Err(error) => {
                return Err(error);
            },
            Ok(plan) => plan,
        };
        let ghost before = self.state;
        let ghost plan_model = plan@;
        let action = match plan {
            DriverPlan::Dormant => {
                self.enter_idle();
                DriverAction::Rest
            },
            DriverPlan::Deferred => {
                self.state.phase = phase_from_projection(&self.state.projection);
                DriverAction::Rest
            },
            DriverPlan::StartNewTurn { turn, step, inputs } => DriverAction::Append {
                drafts: self.build_step_entry_drafts(source, Some(turn), turn, step, &inputs),
                then_phase: PhaseAfter::Running { turn, step },
            },
            DriverPlan::StartStep { turn, step, inputs } => DriverAction::Append {
                drafts: self.build_step_entry_drafts(source, None, turn, step, &inputs),
                then_phase: PhaseAfter::Running { turn, step },
            },
            DriverPlan::EnterCurrentStep { position, inputs } => DriverAction::Append {
                drafts: self.build_current_step_input_drafts(source, position, &inputs),
                then_phase: PhaseAfter::Running { turn: position.turn, step: position.step },
            },
            DriverPlan::EndOpenTurn { turn } => {
                let mut drafts: Vec<NewSessionEvent> = Vec::new();
                drafts.push(
                    turn_draft(
                        source,
                        SessionEventPayload::TurnEnded { reason: TurnEndReason::Completed },
                        turn,
                    ),
                );
                assert(shapes(drafts@) =~= seq![turn_ended(TurnEndReason::Completed, turn)]);
                DriverAction::Append { drafts, then_phase: PhaseAfter::Idle }
            },
            DriverPlan::Park(boundary) => {
                let position = match boundary {
                    AgentDriverBoundary::ReadyForModel { position } => position,
                    AgentDriverBoundary::ReadyForTools { position } => position,
                };
                self.state.phase = AgentPhase::Running {
                    turn: position.turn,
                    step: Some(position.step),
                };
                DriverAction::Rest
            },
        };
        assert(carries_out(before, plan_model, self.state, action));
        Ok(action)
    }

    /// The runtime's next step once the driver rests.
    pub fn next_runtime_action(&self, has_model: bool, has_tools: bool) -> (r: RuntimeAction)
        ensures
            r == runtime_action(self.state, has_model, has_tools),
    {
        match self.state.driver_boundary() {
            Some(AgentDriverBoundary::ReadyForModel { position }) => if has_model {
                RuntimeAction::CallModel { position }
            } else {
                RuntimeAction::Wait
            },
            Some(AgentDriverBoundary::ReadyForTools { position }) => if has_tools {
                RuntimeAction::AdvanceTools { position }
            } else {
                RuntimeAction::Wait
            },
            None => RuntimeAction::Wait,
        }
    }

    /// Drafts the opening of a step, and of its turn where `new_turn` is given.
    pub fn build_step_entry_drafts<E: AgentEventSource>(
        &self,
        source: &E,
        new_turn: Option<TurnNo>,
        turn: TurnNo,
        step: StepNo,
        inputs: &Vec<PlannedInboxInput>,
    ) -> (r: Vec<NewSessionEvent>)
        ensures
            shapes(r@) == entry_shapes(
                new_turn,
                StepPosition { turn, step },
                planned_view(inputs@),
            ),
            all_drawn(source, r@),
    {
        broadcast use lemma_shapes_push;

        let position = StepPosition { turn, step };
        let ghost planned = planned_view(inputs@);
        let mut drafts: Vec<NewSessionEvent> = Vec::new();
        if let Some(new_turn) = new_turn {
            drafts.push(
                turn_draft(source, SessionEventPayload::TurnStarted { turn: new_turn }, new_turn),
            );
        }
        let ghost opening = shapes(drafts@);
        assert(opening =~= match new_turn {
            Some(turn) => seq![in_turn(PayloadView::TurnStarted { turn }, turn)],
            None => Seq::empty(),
        });
        let mut i: usize = 0;
        assert(opening + turn_claims(planned.take(0), turn) =~= opening);
        while i < inputs.len()
            invariant
                i <= inputs@.len(),
                planned == planned_view(inputs@),
                shapes(drafts@) == opening + turn_claims(planned.take(i as int), turn),
                all_drawn(source, drafts@),
            decreases inputs@.len() - i,
        {
            let input = &inputs[i];
            proof {
                assert(planned.take(i + 1).drop_last() =~= planned.take(i as int));
                assert(planned.take(i + 1).last() == input@);
            }
            let ghost before = turn_claims(planned.take(i as int), turn);
            let ghost after = turn_claims(planned.take(i + 1), turn);
            if input.target == InboxTarget::NextTurn {
                drafts.push(
                    turn_draft(
                        source,
                        SessionEventPayload::InboxClaimed {
                            message_id: input.item.message.id.clone(),
                            target: input.target,
                        },
                        turn,
                    ),
                );
                assert(after == before.push(in_turn(claim(input@), turn)));
                assert(shapes(drafts@) == (opening + before).push(in_turn(claim(input@), turn)));
            } else {
                assert(after == before);
            }
            assert(shapes(drafts@) =~= opening + after);
            i = i + 1;
        }
        assert(planned.take(i as int) =~= planned);
        drafts.push(step_draft(source, SessionEventPayload::StepStarted { turn, step }, position));
        let ghost head = shapes(drafts@);
        let mut j: usize = 0;
        assert(head + step_entries(planned.take(0), position) =~= head);
        while j < inputs.len()
            invariant
                j <= inputs@.len(),
                planned == planned_view(inputs@),
                shapes(drafts@) == head + step_entries(planned.take(j as int), position),
                all_drawn(source, drafts@),
            decreases inputs@.len() - j,
        {
            let input = &inputs[j];
            proof {
                assert(planned.take(j + 1).drop_last() =~= planned.take(j as int));
                assert(planned.take(j + 1).last() == input@);
            }
            let ghost before = step_entries(planned.take(j as int), position);
            let ghost after = step_entries(planned.take(j + 1), position);
            let ghost mut claimed = before;
            if input.target == InboxTarget::NextStep {
                drafts.push(
                    step_draft(
                        source,
                        SessionEventPayload::InboxClaimed {
                            message_id: input.item.message.id.clone(),
                            target: input.target,
                        },
                        position,
                    ),
                );
                proof {
                    claimed = before.push(in_step(claim(input@), position));
                    assert(head + claimed =~= (head + before).push(
                        in_step(claim(input@), position),
                    ));
                }
            }
            assert(shapes(drafts@) == head + claimed);
            drafts.push(
                step_draft(
                    source,
                    SessionEventPayload::UserMessage { message: input.item.message.clone() },
                    position,
                ),
            );
            let ghost said = in_step(
                PayloadView::UserMessage { message: input@.item.message },
                position,
            );
            assert(after == claimed.push(said));
            assert(shapes(drafts@) == (head + claimed).push(said));
            assert(shapes(drafts@) =~= head + after);
            j = j + 1;
        }
        assert(planned.take(j as int) =~= planned);
        drafts
    }

    /// Drafts taking up `inputs` in the open step.
    pub fn build_current_step_input_drafts<E: AgentEventSource>(
        &self,
        source: &E,
        position: StepPosition,
        inputs: &Vec<PlannedInboxInput>,
    ) -> (r: Vec<NewSessionEvent>)
        ensures
            shapes(r@) == current_entries(planned_view(inputs@), position),
            all_drawn(source, r@),
    {
        broadcast use lemma_shapes_push;

        let ghost planned = planned_view(inputs@);
        let mut drafts: Vec<NewSessionEvent> = Vec::new();
        let mut i: usize = 0;
        assert(shapes(drafts@) =~= current_entries(planned.take(0), position));
        while i < inputs.len()
            invariant
                i <= inputs@.len(),
                planned == planned_view(inputs@),
                shapes(drafts@) == current_entries(planned.take(i as int), position),
                all_drawn(source, drafts@),
            decreases inputs@.len() - i,
        {
            let input = &inputs[i];
            proof {
                assert(planned.take(i + 1).drop_last() =~= planned.take(i as int));
                assert(planned.take(i + 1).last() == input@);
            }
            drafts.push(
                step_draft(
                    source,
                    SessionEventPayload::InboxClaimed {
                        message_id: input.item.message.id.clone(),
                        target: input.target,
                    },
                    position,
                ),
            );
            drafts.push(
                step_draft(
                    source,
                    SessionEventPayload::UserMessage { message: input.item.message.clone() },
                    position,
                ),
            );
            i = i + 1;
        }
        assert(planned.take(i as int) =~= planned);
        drafts
    }
}

/// As long as recovery owes the session something, nothing else is done: neither
/// the model nor a tool is called and no turn goes on.
pub proof fn law_recovery_comes_first(
    s: AgentState,
    next: AgentState,
    has_model: bool,
    has_tools: bool,
    r: Result<RuntimeStep, AgentError>,
)
    requires
        is_runtime_step(s, next, has_model, has_tools, r),
        startup_shapes(s.resume) is Some,
    ensures
        r matches Ok(RuntimeStep::Wait) || r matches Ok(RuntimeStep::Recover { .. }),
{
}

/// A capability is called only at its boundary, with nothing under way and the
/// session not blocked.
pub proof fn law_capabilities_wait_for_their_boundary(
    s: AgentState,
    next: AgentState,
    has_model: bool,
    has_tools: bool,
    r: Result<RuntimeStep, AgentError>,
)
    requires
        is_runtime_step(s, next, has_model, has_tools, r),
        in_step_with_history(s),
        r matches Ok(RuntimeStep::CallModel { .. }) || r matches Ok(
            RuntimeStep::AdvanceTools { .. },
        ),
    ensures
        s.active_operation is None,
        s.gate is Open,
        boundary_of(next) is Some,
{
}

/// Opening a step turns each input into exactly one user message, in order.
pub proof fn law_each_input_becomes_one_message(inputs: Seq<PlannedView>, position: StepPosition)
    ensures
        step_entries(inputs, position).filter(|s: Shape| s.payload is UserMessage)
            == inputs.map_values(
            |i: PlannedView|
                in_step(PayloadView::UserMessage { message: i.item.message }, position),
        ),
    decreases inputs.len(),
{
    let message = |s: Shape| s.payload is UserMessage;
    let wanted = inputs.map_values(
        |i: PlannedView| in_step(PayloadView::UserMessage { message: i.item.message }, position),
    );
    reveal(Seq::filter);
    if inputs.len() > 0 {
        let rest = inputs.drop_last();
        law_each_input_becomes_one_message(rest, position);
        let before = step_entries(rest, position);
        let all = step_entries(inputs, position);
        let claimed = all.drop_last();
        if inputs.last().target == InboxTarget::NextStep {
            assert(claimed.drop_last() =~= before);
            assert(claimed.filter(message) =~= before.filter(message));
        } else {
            assert(claimed =~= before);
        }
        assert(all.filter(message) =~= before.filter(message).push(all.last()));
    }
    assert(step_entries(inputs, position).filter(message) =~= wanted);
}

/// What recovery owes the session is written before anything else: an interrupted model
/// request fails where it was made, and a call with an unknown outcome blocks its step and
/// turn. A session to which recovery owes nothing is not touched by it.
pub proof fn law_recovery_is_written_down(
    s: AgentState,
    next: AgentState,
    has_model: bool,
    has_tools: bool,
    r: Result<RuntimeStep, AgentError>,
)
    requires
        is_runtime_step(s, next, has_model, has_tools, r),
        s.active_operation is None,
    ensures
        s.resume matches ResumeDecision::RecoverInterruptedModelRequest { position, request } ==> {
            &&& r matches Ok(RuntimeStep::Recover { drafts })
            &&& drafts@.len() == 1
            &&& drafts@[0].payload@ matches PayloadView::ModelFailed { request_id, failure }
            &&& request_id == request.request_id@
            &&& failure.code == ErrorCode::ModelRequestFailed
            &&& failure.message
                == "model request was interrupted by process restart before a durable terminal response"@
            &&& drafts@[0].turn == Some(position.turn)
            &&& drafts@[0].step == Some(position.step)
        },
        s.resume matches ResumeDecision::PersistRecoveryBlock { proposal } ==> {
            let position = proposal.position;
            &&& r matches Ok(RuntimeStep::Recover { drafts })
            &&& drafts@.len() == 3
            &&& drafts@[0].payload@ == (PayloadView::RecoveryBlocked {
                kind: RecoveryBlockKind::UnknownToolOutcome,
                call_id: proposal.call.data.call_id@,
                invocation_id: proposal.dispatch.data.invocation_id@,
                reason: "a non-idempotent Tool dispatch has no durable terminal result; the external outcome is unknown"@,
            })
            &&& drafts@[0].turn == Some(position.turn) && drafts@[0].step == Some(position.step)
            &&& drafts@[1].payload@ == (PayloadView::StepEnded { reason: StepEndReason::Blocked })
            &&& drafts@[1].turn == Some(position.turn) && drafts@[1].step == Some(position.step)
            &&& drafts@[2].payload@ == (PayloadView::TurnEnded { reason: TurnEndReason::Blocked })
            &&& drafts@[2].turn == Some(position.turn) && drafts@[2].step is None
        },
        r matches Ok(RuntimeStep::Recover { .. }) ==> s.resume is RecoverInterruptedModelRequest
            || s.resume is PersistRecoveryBlock,
{
    if let Ok(RuntimeStep::Recover { drafts }) = r {
        let want = shapes(drafts@);
        assert forall|i: int| 0 <= i < drafts@.len() implies #[trigger] want[i] == shape(
            drafts@[i],
        ) by {}
        if drafts@.len() > 0 {
            assert(want[0] == shape(drafts@[0]));
        }
        if drafts@.len() > 2 {
            assert(want[1] == shape(drafts@[1]));
            assert(want[2] == shape(drafts@[2]));
        }
        assert(want.len() == drafts@.len());
    }
}

/// With nothing under way and nothing owed to recovery, the runtime does what is planned:
/// it opens the planned turn or step, takes up the planned input, ends the turn as
/// completed, or hands over to the model or the tools at whose boundary the driver parks.
pub proof fn law_plans_are_carried_out(
    s: AgentState,
    next: AgentState,
    has_model: bool,
    has_tools: bool,
    r: Result<RuntimeStep, AgentError>,
    plan: DriverPlanView,
)
    requires
        is_runtime_step(s, next, has_model, has_tools, r),
        s.active_operation is None,
        !(s.resume is RecoverInterruptedModelRequest),
        !(s.resume is PersistRecoveryBlock),
        is_next_plan(s, Ok::<DriverPlanView, AgentErrorView>(plan)),
    ensures
        match plan {
            DriverPlanView::StartNewTurn { turn, step, inputs } => {
                &&& next == s
                &&& r matches Ok(RuntimeStep::Append { drafts, then_phase })
                &&& then_phase == (PhaseAfter::Running { turn, step })
                &&& shapes(drafts@) == entry_shapes(Some(turn), StepPosition { turn, step }, inputs)
            },
            DriverPlanView::StartStep { turn, step, inputs } => {
                &&& next == s
                &&& r matches Ok(RuntimeStep::Append { drafts, then_phase })
                &&& then_phase == (PhaseAfter::Running { turn, step })
                &&& shapes(drafts@) == entry_shapes(None, StepPosition { turn, step }, inputs)
            },
            DriverPlanView::EnterCurrentStep { position, inputs } => {
                &&& next == s
                &&& r matches Ok(RuntimeStep::Append { drafts, then_phase })
                &&& then_phase == (PhaseAfter::Running { turn: position.turn, step: position.step })
                &&& shapes(drafts@) == current_entries(inputs, position)
            },
            DriverPlanView::EndOpenTurn { turn } => {
                &&& next == s
                &&& r matches Ok(RuntimeStep::Append { drafts, then_phase })
                &&& then_phase is Idle
                &&& drafts@.len() == 1
                &&& drafts@[0].payload@ == (PayloadView::TurnEnded {
                    reason: TurnEndReason::Completed,
                })
                &&& drafts@[0].turn == Some(turn) && drafts@[0].step is None
            },
            DriverPlanView::Park(AgentDriverBoundary::ReadyForModel { position }) => {
                &&& next == (AgentState {
                    phase: AgentPhase::Running { turn: position.turn, step: Some(position.step) },
                    ..s
                })
                &&& has_model ==> r == Ok::<RuntimeStep, AgentError>(
                    RuntimeStep::CallModel { position },
                )
                &&& !has_model ==> r matches Ok(RuntimeStep::Wait)
            },
            DriverPlanView::Park(AgentDriverBoundary::ReadyForTools { position }) => {
                &&& next == (AgentState {
                    phase: AgentPhase::Running { turn: position.turn, step: Some(position.step) },
                    ..s
                })
                &&& has_tools ==> r == Ok::<RuntimeStep, AgentError>(
                    RuntimeStep::AdvanceTools { position },
                )
                &&& !has_tools ==> r matches Ok(RuntimeStep::Wait)
            },
            DriverPlanView::Dormant => {
                &&& r matches Ok(RuntimeStep::Wait)
                &&& next == (AgentState {
                    phase: AgentPhase::Idle { last_turn: s.projection.lifecycle.last_ended_turn },
                    ..s
                })
            },
            DriverPlanView::Deferred => {
                &&& r matches Ok(RuntimeStep::Wait)
                &&& next.projection == s.projection && next.resume == s.resume
            },
        },
{
    let want = Ok::<DriverPlanView, AgentErrorView>(plan);
    if let Err(e) = r {
        law_plan_is_determined(s, want, Err::<DriverPlanView, AgentErrorView>(e@));
    } else {
        let action = match r {
            Ok(RuntimeStep::Append { drafts, then_phase }) => DriverAction::Append {
                drafts,
                then_phase,
            },
            _ => DriverAction::Rest,
        };
        let found = choose|p: DriverPlanView|
            is_next_plan(s, Ok::<DriverPlanView, AgentErrorView>(p)) && #[trigger] carries_out(
                s,
                p,
                next,
                action,
            );
        law_plan_is_determined(s, want, Ok::<DriverPlanView, AgentErrorView>(found));
        assert(carries_out(s, plan, next, action));
        if let Ok(RuntimeStep::Append { drafts, then_phase }) = r {
            if let DriverPlanView::EndOpenTurn { turn } = plan {
                assert(shapes(drafts@).len() == drafts@.len());
                assert(shapes(drafts@)[0] == shape(drafts@[0]));
            }
        }
    }
}

/// Where the claim of an input that waited for a turn stands.
proof fn lemma_turn_claim_at(inputs: Seq<PlannedView>, turn: TurnNo, k: int) -> (at: int)
    requires
        0 <= k < inputs.len(),
        inputs[k].target == InboxTarget::NextTurn,
    ensures
        0 <= at < turn_claims(inputs, turn).len(),
        turn_claims(inputs, turn)[at] == (Shape {
            payload: PayloadView::InboxClaimed {
                message_id: inputs[k].item.message.id,
                target: InboxTarget::NextTurn,
            },
            turn: Some(turn),
            step: None,
        }),
    decreases inputs.len(),
{
    let before = turn_claims(inputs.drop_last(), turn);
    if k == inputs.len() - 1 {
        before.len() as int
    } else {
        assert(inputs.drop_last()[k] == inputs[k]);
        let at = lemma_turn_claim_at(inputs.drop_last(), turn, k);
        at
    }
}

/// Where the message of an input stands, and its claim where it waited for a step.
proof fn lemma_step_entry_at(inputs: Seq<PlannedView>, position: StepPosition, k: int) -> (at: int)
    requires
        0 <= k < inputs.len(),
    ensures
        0 <= at < step_entries(inputs, position).len(),
        at == step_entries(inputs.take(k + 1), position).len() - 1,
        step_entries(inputs, position)[at] == (Shape {
            payload: PayloadView::UserMessage { message: inputs[k].item.message },
            turn: Some(position.turn),
            step: Some(position.step),
        }),
        inputs[k].target == InboxTarget::NextStep ==> at > 0 && step_entries(inputs, position)[at
            - 1] == (Shape {
            payload: PayloadView::InboxClaimed {
                message_id: inputs[k].item.message.id,
                target: InboxTarget::NextStep,
            },
            turn: Some(position.turn),
            step: Some(position.step),
        }),
    decreases inputs.len(),
{
    if k == inputs.len() - 1 {
        assert(inputs.take(k + 1) =~= inputs);
        step_entries(inputs, position).len() - 1
    } else {
        assert(inputs.drop_last()[k] == inputs[k]);
        assert(inputs.drop_last().take(k + 1) =~= inputs.take(k + 1));
        let at = lemma_step_entry_at(inputs.drop_last(), position, k);
        at
    }
}

proof fn lemma_entries_len(inputs: Seq<PlannedView>, position: StepPosition)
    ensures
        turn_claims(inputs, position.turn).len() + step_entries(inputs, position).len() == 2
            * inputs.len(),
    decreases inputs.len(),
{
    if inputs.len() > 0 {
        lemma_entries_len(inputs.drop_last(), position);
    }
}

/// Opening a step claims every input under its own identifier and turns it into a user
/// message of the step. What waited for a turn is claimed in the turn before the step
/// starts, what waited for a step right before its message. A new turn starts first of
/// all, and nothing else is written. The result gives the places of the claim, of the
/// start of the step and of the message.
pub proof fn law_inputs_are_claimed_and_said(
    new_turn: Option<TurnNo>,
    position: StepPosition,
    inputs: Seq<PlannedView>,
    k: int,
) -> (at: (int, int, int))
    requires
        0 <= k < inputs.len(),
        new_turn matches Some(turn) ==> turn == position.turn,
    ensures
        ({
            let s = entry_shapes(new_turn, position, inputs);
            let n: int = if new_turn is Some {
                1
            } else {
                0
            };
            &&& s.len() == n + 1 + 2 * inputs.len()
            &&& new_turn is Some ==> s[0] == (Shape {
                payload: PayloadView::TurnStarted { turn: position.turn },
                turn: Some(position.turn),
                step: None,
            })
            &&& n <= at.0 < at.2 < s.len()
            &&& n <= at.1 < at.2
            &&& s[at.1] == (Shape {
                payload: PayloadView::StepStarted { turn: position.turn, step: position.step },
                turn: Some(position.turn),
                step: Some(position.step),
            })
            &&& s[at.0].payload == (PayloadView::InboxClaimed {
                message_id: inputs[k].item.message.id,
                target: inputs[k].target,
            })
            &&& s[at.0].turn == Some(position.turn)
            &&& inputs[k].target == InboxTarget::NextTurn ==> at.0 < at.1 && s[at.0].step is None
            &&& inputs[k].target == InboxTarget::NextStep ==> at.0 == at.2 - 1 && at.1 < at.0
                && s[at.0].step == Some(position.step)
            &&& s[at.2] == (Shape {
                payload: PayloadView::UserMessage { message: inputs[k].item.message },
                turn: Some(position.turn),
                step: Some(position.step),
            })
        }),
{
    let s = entry_shapes(new_turn, position, inputs);
    let n: int = if new_turn is Some {
        1
    } else {
        0
    };
    lemma_entries_len(inputs, position);
    let claims = turn_claims(inputs, position.turn);
    let entries = step_entries(inputs, position);
    let start = n + claims.len();
    let said = lemma_step_entry_at(inputs, position, k);
    assert(s[start + 1 + said] == entries[said]);
    if inputs[k].target == InboxTarget::NextTurn {
        let claimed = lemma_turn_claim_at(inputs, position.turn, k);
        assert(s[n + claimed] == claims[claimed]);
        (n + claimed, start, start + 1 + said)
    } else {
        assert(s[start + said] == entries[said - 1]);
        (start + said, start, start + 1 + said)
    }
}

/// The messages of a step are in the order of its inputs. The result gives the places of
/// two of them.
pub proof fn law_messages_keep_their_order(
    new_turn: Option<TurnNo>,
    position: StepPosition,
    inputs: Seq<PlannedView>,
    j: int,
    k: int,
) -> (at: (int, int))
    requires
        0 <= j < k < inputs.len(),
    ensures
        ({
            let s = entry_shapes(new_turn, position, inputs);
            &&& 0 <= at.0 < at.1 < s.len()
            &&& s[at.0].payload == (PayloadView::UserMessage { message: inputs[j].item.message })
            &&& s[at.1].payload == (PayloadView::UserMessage { message: inputs[k].item.message })
        }),
{
    let s = entry_shapes(new_turn, position, inputs);
    let n: int = if new_turn is Some {
        1
    } else {
        0
    };
    let entries = step_entries(inputs, position);
    let start = n + turn_claims(inputs, position.turn).len() + 1;
    let a = lemma_step_entry_at(inputs, position, j);
    let b = lemma_step_entry_at(inputs, position, k);
    lemma_entries_grow(inputs, position, j + 1, k);
    assert(inputs.take(k + 1).drop_last() =~= inputs.take(k));
    assert(s[start + a] == entries[a]);
    assert(s[start + b] == entries[b]);
    (start + a, start + b)
}

proof fn lemma_entries_grow(inputs: Seq<PlannedView>, position: StepPosition, i: int, j: int)
    requires
        0 <= i <= j <= inputs.len(),
    ensures
        step_entries(inputs.take(i), position).len() <= step_entries(
            inputs.take(j),
            position,
        ).len(),
    decreases j - i,
{
    if i < j {
        lemma_entries_grow(inputs, position, i, j - 1);
        assert(inputs.take(j).drop_last() =~= inputs.take(j - 1));
    }
}

/// Taking up inputs in the open step claims each and turns it into a user message, one
/// after the other.
pub proof fn law_current_inputs_are_claimed_and_said(
    inputs: Seq<PlannedView>,
    position: StepPosition,
    k: int,
)
    requires
        0 <= k < inputs.len(),
    ensures
        current_entries(inputs, position).len() == 2 * inputs.len(),
        current_entries(inputs, position)[2 * k] == (Shape {
            payload: PayloadView::InboxClaimed {
                message_id: inputs[k].item.message.id,
                target: inputs[k].target,
            },
            turn: Some(position.turn),
            step: Some(position.step),
        }),
        current_entries(inputs, position)[2 * k + 1] == (Shape {
            payload: PayloadView::UserMessage { message: inputs[k].item.message },
            turn: Some(position.turn),
            step: Some(position.step),
        }),
    decreases inputs.len(),
{
    if k < inputs.len() - 1 {
        assert(inputs.drop_last()[k] == inputs[k]);
        law_current_inputs_are_claimed_and_said(inputs.drop_last(), position, k);
    } else {
        lemma_current_len(inputs.drop_last(), position);
    }
}

proof fn lemma_current_len(inputs: Seq<PlannedView>, position: StepPosition)
    ensures
        current_entries(inputs, position).len() == 2 * inputs.len(),
    decreases inputs.len(),
{
    if inputs.len() > 0 {
        lemma_current_len(inputs.drop_last(), position);
    }
}

/// While an operation is under way the runtime waits and changes nothing.
pub proof fn law_operations_are_waited_for(
    s: AgentState,
    next: AgentState,
    has_model: bool,
    has_tools: bool,
    r: Result<RuntimeStep, AgentError>,
)
    requires
        is_runtime_step(s, next, has_model, has_tools, r),
        s.active_operation is Some,
    ensures
        next == s,
        r matches Ok(RuntimeStep::Wait),
{
}

} // verus!
