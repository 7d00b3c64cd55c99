//! The state of a live agent.

use vstd::prelude::*;

use crate::agent::recovery::ResumeDecision;
use crate::session::{
    PendingInboxItem, RecoveryBlock, SessionEvent, SessionHead, SessionProjection, StepPosition,
};
use crate::types::{
    AgentInstanceId, EventSeq, InvocationId, RequestId, SessionId, StepNo, ToolCallId, TurnNo,
};

verus! {

/// Live phase of this process. It says who drives, not what the history left
/// unfinished.
#[derive(Clone, Copy, Debug, PartialEq, Eq, Structural)]
pub enum AgentPhase {
    Idle { last_turn: Option<TurnNo> },
    Running { turn: TurnNo, step: Option<StepNo> },
    Maintenance,
}

/// The external operation in front of which the driver is parked.
#[derive(Clone, Copy, Debug, PartialEq, Eq, Structural)]
pub enum AgentDriverBoundary {
    ReadyForModel { position: StepPosition },
    ReadyForTools { position: StepPosition },
}

/// External operation that the live agent owns. It is not durable: if the
/// process disappears, the history is read anew.
#[derive(Debug, PartialEq, Eq)]
pub enum ActiveAgentOperation {
    Model { position: StepPosition, request_id: RequestId, attempt: u32 },
    Tool {
        position: StepPosition,
        call_id: ToolCallId,
        invocation_id: InvocationId,
        attempt: u32,
    },
}

#[derive(Debug, PartialEq)]
pub enum ExecutionGate {
    Open,
    Blocked(RecoveryBlock),
}

impl ExecutionGate {
    pub fn is_open(&self) -> (r: bool)
        ensures
            r == (self is Open),
    {
        matches!(self, ExecutionGate::Open)
    }
}

/// What an agent starts from: a complete history up to a head, what it adds up
/// to, and what that calls for.
#[derive(Debug, PartialEq)]
pub struct AgentBootstrap {
    pub events: Vec<SessionEvent>,
    pub head: SessionHead,
    pub projection: SessionProjection,
    pub resume: ResumeDecision,
}

#[derive(Debug, PartialEq)]
pub struct AgentState {
    pub instance_id: AgentInstanceId,
    pub session_id: SessionId,
    pub expected_seq: EventSeq,
    pub phase: AgentPhase,
    pub gate: ExecutionGate,
    pub resume: ResumeDecision,
    pub projection: SessionProjection,
    /// The operation that is under way outside the core.
    pub active_operation: Option<ActiveAgentOperation>,
    /// Whether pending input asks for a turn.
    pub wake_requested: bool,
}

/// Whether a decision leaves the way open or blocks it.
pub open spec fn gate_of(resume: ResumeDecision) -> ExecutionGate {
    match resume {
        ResumeDecision::Blocked { block, .. } => ExecutionGate::Blocked(block),
        _ => ExecutionGate::Open,
    }
}

/// Whether one of the items wakes the agent.
pub open spec fn any_wakes(items: Seq<PendingInboxItem>) -> bool {
    exists|i: int| 0 <= i < items.len() && (#[trigger] items[i]).wakeup
}

/// Whether pending input asks for a turn.
pub open spec fn has_wakeup(p: SessionProjection) -> bool {
    any_wakes(p.inbox.next_turn@) || any_wakes(p.inbox.next_step@)
}

/// Whether gate and wake latch agree with the durable view.
pub open spec fn in_step_with_history(s: AgentState) -> bool {
    s.gate == gate_of(s.resume) && s.wake_requested == has_wakeup(s.projection)
}

/// The boundary at which the driver is parked: none while an operation is under
/// way; before a model answer the model, and after an answer that announces
/// tool calls the tools.
pub open spec fn boundary_of(s: AgentState) -> Option<AgentDriverBoundary> {
    if s.active_operation is Some {
        None
    } else {
        match s.phase {
            AgentPhase::Running { turn, step: Some(step) } => {
                let live = StepPosition { turn, step };
                match s.resume {
                    ResumeDecision::ContinueOpenStep { position } => {
                        if position != live {
                            None
                        } else if s.projection.open_step_assistant_message is None {
                            Some(AgentDriverBoundary::ReadyForModel { position })
                        } else if s.projection.open_step_tools.announced@.len() > 0 {
                            Some(AgentDriverBoundary::ReadyForTools { position })
                        } else {
                            None
                        }
                    },
                    ResumeDecision::RecoverToolBatch { position, .. } => {
                        if position == live {
                            Some(AgentDriverBoundary::ReadyForTools { position })
                        } else {
                            None
                        }
                    },
                    _ => None,
                }
            },
            _ => None,
        }
    }
}

/// Whether `s` is the state of an agent that starts from `b`.
pub open spec fn started_from(s: AgentState, instance_id: AgentInstanceId, b: AgentBootstrap) -> bool {
    &&& in_step_with_history(s)
    &&& s.instance_id == instance_id
    &&& s.session_id == b.head.session_id
    &&& s.expected_seq == b.head.seq
    &&& s.phase == (AgentPhase::Idle { last_turn: b.projection.lifecycle.last_ended_turn })
    &&& s.resume == b.resume
    &&& s.projection == b.projection
    &&& s.active_operation is None
}

fn wakes(items: &Vec<PendingInboxItem>) -> (r: bool)
    ensures
        r == any_wakes(items@),
{
    let mut i: usize = 0;
    while i < items.len()
        invariant
            i <= items@.len(),
            forall|j: int| 0 <= j < i ==> !(#[trigger] items@[j]).wakeup,
        decreases items@.len() - i,
    {
        if items[i].wakeup {
            return true;
        }
        i = i + 1;
    }
    false
}

fn gate_from_resume(resume: &ResumeDecision) -> (r: ExecutionGate)
    ensures
        r == gate_of(*resume),
{
    match resume {
        ResumeDecision::Blocked { block, .. } => ExecutionGate::Blocked(block.clone()),
        _ => ExecutionGate::Open,
    }
}

fn projection_has_pending_wakeup(projection: &SessionProjection) -> (r: bool)
    ensures
        r == has_wakeup(*projection),
{
    wakes(&projection.inbox.next_turn) || wakes(&projection.inbox.next_step)
}

/// The live phase that goes with what is open.
pub open spec fn phase_of(p: SessionProjection) -> AgentPhase {
    match (p.lifecycle.open_step, p.lifecycle.open_turn) {
        (Some(position), _) => AgentPhase::Running {
            turn: position.turn,
            step: Some(position.step),
        },
        (None, Some(turn)) => AgentPhase::Running { turn, step: None },
        (None, None) => AgentPhase::Idle { last_turn: p.lifecycle.last_ended_turn },
    }
}

/// Computes [`phase_of`].
pub fn phase_from_projection(p: &SessionProjection) -> (r: AgentPhase)
    ensures
        r == phase_of(*p),
{
    if let Some(position) = p.lifecycle.open_step {
        AgentPhase::Running { turn: position.turn, step: Some(position.step) }
    } else if let Some(turn) = p.lifecycle.open_turn {
        AgentPhase::Running { turn, step: None }
    } else {
        AgentPhase::Idle { last_turn: p.lifecycle.last_ended_turn }
    }
}

impl AgentState {
    /// The state of an agent that has just read its session.
    pub fn from_bootstrap(instance_id: AgentInstanceId, bootstrap: AgentBootstrap) -> (r: AgentState)
        ensures
            started_from(r, instance_id, bootstrap),
    {
        let wake_requested = projection_has_pending_wakeup(&bootstrap.projection);
        let gate = gate_from_resume(&bootstrap.resume);
        let phase = AgentPhase::Idle { last_turn: bootstrap.projection.lifecycle.last_ended_turn };
        AgentState {
            instance_id,
            session_id: bootstrap.head.session_id,
            expected_seq: bootstrap.head.seq,
            phase,
            gate,
            resume: bootstrap.resume,
            projection: bootstrap.projection,
            active_operation: None,
            wake_requested,
        }
    }

    /// Takes up a new durable view; phase and operation stay.
    pub fn replace_durable_view(
        &mut self,
        expected_seq: EventSeq,
        projection: SessionProjection,
        resume: ResumeDecision,
    )
        ensures
            in_step_with_history(*final(self)),
            *final(self) == (AgentState {
                expected_seq,
                projection,
                resume,
                gate: gate_of(resume),
                wake_requested: has_wakeup(projection),
                ..*old(self)
            }),
    {
        self.wake_requested = projection_has_pending_wakeup(&projection);
        self.gate = gate_from_resume(&resume);
        self.expected_seq = expected_seq;
        self.resume = resume;
        self.projection = projection;
    }

    pub fn can_start_new_turn(&self) -> (r: bool)
        ensures
            r == (self.phase is Idle && self.gate is Open && self.resume is Clean
                && self.active_operation is None),
    {
        matches!(self.phase, AgentPhase::Idle { .. }) && self.gate.is_open()
            && self.resume.is_clean() && self.active_operation.is_none()
    }

    pub fn needs_resume_work(&self) -> (r: bool)
        ensures
            r == !(self.resume is Clean),
    {
        !self.resume.is_clean()
    }

    pub fn has_active_operation(&self) -> (r: bool)
        ensures
            r == (self.active_operation is Some),
    {
        self.active_operation.is_some()
    }

    /// The external operation in front of which the driver is parked.
    pub fn driver_boundary(&self) -> (r: Option<AgentDriverBoundary>)
        ensures
            r == boundary_of(*self),
    {
        if self.active_operation.is_some() {
            return None;
        }
        let (turn, step) = match self.phase {
            AgentPhase::Running { turn, step: Some(step) } => (turn, step),
            _ => {
                return None;
            },
        };
        let live = StepPosition { turn, step };
        match &self.resume {
            ResumeDecision::ContinueOpenStep { position } => {
                if *position != live {
                    None
                } else if self.projection.open_step_assistant_message.is_none() {
                    Some(AgentDriverBoundary::ReadyForModel { position: *position })
                } else if !self.projection.open_step_tools.announced.is_empty() {
                    Some(AgentDriverBoundary::ReadyForTools { position: *position })
                } else {
                    None
                }
            },
            ResumeDecision::RecoverToolBatch { position, .. } => {
                if *position == live {
                    Some(AgentDriverBoundary::ReadyForTools { position: *position })
                } else {
                    None
                }
            },
            _ => None,
        }
    }
}

/// While an operation is under way, no boundary is offered and no turn starts.
pub proof fn law_operation_hides_boundary(s: AgentState)
    requires
        s.active_operation is Some,
    ensures
        boundary_of(s) is None,
{
}

/// A blocked session offers no boundary: neither model nor tools are called.
pub proof fn law_block_offers_no_boundary(s: AgentState)
    requires
        in_step_with_history(s),
        s.gate is Blocked,
    ensures
        s.resume is Blocked,
        boundary_of(s) is None,
{
}

/// The model is asked only in a step that has no assistant message yet, and a
/// boundary is always the one of the live step.
pub proof fn law_boundary_is_live(s: AgentState)
    ensures
        boundary_of(s) matches Some(AgentDriverBoundary::ReadyForModel { position }) ==> {
            &&& s.projection.open_step_assistant_message is None
            &&& s.phase == (AgentPhase::Running { turn: position.turn, step: Some(position.step) })
        },
        boundary_of(s) matches Some(AgentDriverBoundary::ReadyForTools { position }) ==> s.phase == (
        AgentPhase::Running { turn: position.turn, step: Some(position.step) }),
{
}

/// An agent that starts from a session is idle after the last turn that ended, has nothing
/// under way, and wakes if and only if something that waits asks for it.
pub proof fn law_start_is_idle(s: AgentState, instance_id: AgentInstanceId, b: AgentBootstrap)
    requires
        started_from(s, instance_id, b),
    ensures
        s.phase == (AgentPhase::Idle { last_turn: b.projection.lifecycle.last_ended_turn }),
        s.active_operation is None,
        boundary_of(s) is None,
        s.instance_id == instance_id,
        s.session_id == b.head.session_id,
        s.expected_seq == b.head.seq,
        s.resume == b.resume,
        s.projection == b.projection,
        s.wake_requested <==> {
            ||| exists|i: int|
                0 <= i < b.projection.inbox.next_turn@.len() && (
                #[trigger] b.projection.inbox.next_turn@[i]).wakeup
            ||| exists|i: int|
                0 <= i < b.projection.inbox.next_step@.len() && (
                #[trigger] b.projection.inbox.next_step@[i]).wakeup
        },
        b.resume matches ResumeDecision::Blocked { block, .. } ==> s.gate
            == ExecutionGate::Blocked(block),
        !(b.resume is Blocked) ==> s.gate is Open,
{
}

/// The boundary of the live step is offered whenever nothing is under way: before the
/// answer the model, after an answer with tool calls the tools, and the tools again for an
/// interrupted batch.
pub proof fn law_live_step_offers_its_boundary(s: AgentState, position: StepPosition)
    requires
        s.active_operation is None,
        s.phase == (AgentPhase::Running { turn: position.turn, step: Some(position.step) }),
    ensures
        s.resume == (ResumeDecision::ContinueOpenStep { position }) ==> {
            &&& s.projection.open_step_assistant_message is None ==> boundary_of(s) == Some(
                AgentDriverBoundary::ReadyForModel { position },
            )
            &&& s.projection.open_step_assistant_message is Some
                && s.projection.open_step_tools.announced@.len() > 0 ==> boundary_of(s) == Some(
                AgentDriverBoundary::ReadyForTools { position },
            )
            &&& s.projection.open_step_assistant_message is Some
                && s.projection.open_step_tools.announced@.len() == 0 ==> boundary_of(s) is None
        },
        s.resume matches ResumeDecision::RecoverToolBatch { position: at, .. } ==> at == position
            ==> boundary_of(s) == Some(AgentDriverBoundary::ReadyForTools { position }),
{
}

/// The phase says what is open: a step with its turn, or a turn, or nothing.
pub proof fn law_phase_says_what_is_open(p: SessionProjection)
    ensures
        p.lifecycle.open_step matches Some(position) ==> phase_of(p) == (AgentPhase::Running {
            turn: position.turn,
            step: Some(position.step),
        }),
        p.lifecycle.open_step is None ==> (p.lifecycle.open_turn matches Some(turn) ==> phase_of(p)
            == (AgentPhase::Running { turn, step: None })),
        p.lifecycle.open_step is None && p.lifecycle.open_turn is None ==> phase_of(p) == (
        AgentPhase::Idle { last_turn: p.lifecycle.last_ended_turn }),
{
}

} // verus!
