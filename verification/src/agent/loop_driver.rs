//! The deterministic driver: which turn or step comes next, and with which input.

use vstd::prelude::*;

use crate::agent::error::{mutation, AgentError, AgentErrorView};
use crate::agent::recovery::ResumeDecision;
use crate::agent::state::{AgentDriverBoundary, AgentState};
use crate::session::{InboxItemView, PendingInboxItem, StepEndReason, StepPosition};
use crate::text::concat2;
use crate::types::{
    counter_error_text, lemma_counter_by_value, Counter, CounterError, InboxTarget, StepNo, TurnNo,
    MAX_JSON_SAFE_INTEGER,
};

verus! {

/// An inbox item that a step takes up.
#[derive(Debug, PartialEq)]
pub struct PlannedInboxInput {
    pub target: InboxTarget,
    pub item: PendingInboxItem,
}

#[verifier::ext_equal]
pub struct PlannedView {
    pub target: InboxTarget,
    pub item: InboxItemView,
}

impl View for PlannedInboxInput {
    type V = PlannedView;

    open spec fn view(&self) -> PlannedView {
        PlannedView { target: self.target, item: self.item@ }
    }
}

/// The model of a row of planned inputs.
pub open spec fn planned_view(s: Seq<PlannedInboxInput>) -> Seq<PlannedView> {
    s.map_values(|p: PlannedInboxInput| p@)
}

#[derive(Debug, PartialEq)]
pub enum DriverPlan {
    /// Nothing asks for work.
    Dormant,
    /// Work is open, but not for the driver.
    Deferred,
    StartNewTurn { turn: TurnNo, step: StepNo, inputs: Vec<PlannedInboxInput> },
    StartStep { turn: TurnNo, step: StepNo, inputs: Vec<PlannedInboxInput> },
    EnterCurrentStep { position: StepPosition, inputs: Vec<PlannedInboxInput> },
    EndOpenTurn { turn: TurnNo },
    Park(AgentDriverBoundary),
}

#[verifier::ext_equal]
pub enum DriverPlanView {
    Dormant,
    Deferred,
    StartNewTurn { turn: TurnNo, step: StepNo, inputs: Seq<PlannedView> },
    StartStep { turn: TurnNo, step: StepNo, inputs: Seq<PlannedView> },
    EnterCurrentStep { position: StepPosition, inputs: Seq<PlannedView> },
    EndOpenTurn { turn: TurnNo },
    Park(AgentDriverBoundary),
}

impl View for DriverPlan {
    type V = DriverPlanView;

    open spec fn view(&self) -> DriverPlanView {
        match self {
            DriverPlan::Dormant => DriverPlanView::Dormant,
            DriverPlan::Deferred => DriverPlanView::Deferred,
            DriverPlan::StartNewTurn { turn, step, inputs } => DriverPlanView::StartNewTurn {
                turn: *turn,
                step: *step,
                inputs: planned_view(inputs@),
            },
            DriverPlan::StartStep { turn, step, inputs } => DriverPlanView::StartStep {
                turn: *turn,
                step: *step,
                inputs: planned_view(inputs@),
            },
            DriverPlan::EnterCurrentStep { position, inputs } => {
                DriverPlanView::EnterCurrentStep {
                    position: *position,
                    inputs: planned_view(inputs@),
                }
            },
            DriverPlan::EndOpenTurn { turn } => DriverPlanView::EndOpenTurn { turn: *turn },
            DriverPlan::Park(boundary) => DriverPlanView::Park(*boundary),
        }
    }
}

/// `items` planned for `target`.
pub open spec fn planned(items: Seq<PendingInboxItem>, target: InboxTarget) -> Seq<PlannedView> {
    items.map_values(|i: PendingInboxItem| PlannedView { target, item: i@ })
}

/// The input of a step inside a turn: all that waits for a step, oldest first.
pub open spec fn step_inputs(s: AgentState) -> Seq<PlannedView> {
    planned(s.projection.inbox.next_step@, InboxTarget::NextStep)
}

/// The input of the first step of a turn: the oldest item that waits for a turn,
/// then all that waits for a step.
pub open spec fn first_inputs(s: AgentState) -> Seq<PlannedView> {
    let waiting = s.projection.inbox.next_turn@;
    let primary = if waiting.len() > 0 {
        waiting.take(1)
    } else {
        waiting
    };
    planned(primary, InboxTarget::NextTurn) + step_inputs(s)
}

/// The number after `last`, or one.
pub open spec fn follows(last: Option<Counter>, next: Counter) -> bool {
    match last {
        Some(c) => next@ == c@ + 1,
        None => next@ == 1,
    }
}

/// The number of the last step that was started in `turn`.
pub open spec fn last_step_of(s: AgentState, turn: TurnNo) -> Option<StepNo> {
    match s.projection.lifecycle.last_started_step {
        Some(position) => if position.turn == turn {
            Some(position.step)
        } else {
            None
        },
        None => None,
    }
}

/// Whether no number follows `last`.
pub open spec fn exhausted(last: Option<Counter>) -> bool {
    last matches Some(c) && c@ == MAX_JSON_SAFE_INTEGER
}

/// The refusal to number another turn or step.
pub open spec fn no_number(what: Seq<char>) -> AgentErrorView {
    mutation(what + counter_error_text(CounterError::TooLarge))
}

/// Whether the last step of `turn` ended because tools had answered.
pub open spec fn continues_after_tools(s: AgentState, turn: TurnNo) -> bool {
    &&& s.projection.lifecycle.last_ended_step matches Some(position) && position.turn == turn
    &&& s.projection.lifecycle.last_ended_step_reason == Some(StepEndReason::ToolContinuation)
}

/// The input that a step of the open turn `turn` would start with.
pub open spec fn open_turn_inputs(s: AgentState, turn: TurnNo) -> Seq<PlannedView> {
    if last_step_of(s, turn) is Some {
        step_inputs(s)
    } else {
        first_inputs(s)
    }
}

/// Whether `r` is what the driver plans for `s`.
pub open spec fn is_next_plan(s: AgentState, r: Result<DriverPlanView, AgentErrorView>) -> bool {
    match s.resume {
        ResumeDecision::Clean => {
            if !s.wake_requested {
                r == Ok::<DriverPlanView, AgentErrorView>(DriverPlanView::Dormant)
            } else if first_inputs(s).len() == 0 {
                r == Err::<DriverPlanView, AgentErrorView>(
                    mutation(
                        "wake_requested is true but the durable Inbox projection contains no work"@,
                    ),
                )
            } else if exhausted(s.projection.lifecycle.last_started_turn) {
                r == Err::<DriverPlanView, AgentErrorView>(
                    no_number("cannot allocate next TurnNo: "@),
                )
            } else {
                &&& r matches Ok(DriverPlanView::StartNewTurn { turn, step, inputs })
                &&& follows(s.projection.lifecycle.last_started_turn, turn)
                &&& step@ == 1
                &&& inputs == first_inputs(s)
            }
        },
        ResumeDecision::ContinueOpenTurn { turn } => {
            if open_turn_inputs(s, turn).len() == 0 && !continues_after_tools(s, turn) {
                r == Ok::<DriverPlanView, AgentErrorView>(DriverPlanView::EndOpenTurn { turn })
            } else if exhausted(last_step_of(s, turn)) {
                r == Err::<DriverPlanView, AgentErrorView>(
                    no_number("cannot allocate next StepNo: "@),
                )
            } else {
                &&& r matches Ok(DriverPlanView::StartStep { turn: t, step, inputs })
                &&& t == turn
                &&& follows(last_step_of(s, turn), step)
                &&& inputs == open_turn_inputs(s, turn)
            }
        },
        ResumeDecision::ContinueOpenStep { position } => {
            r == Ok::<DriverPlanView, AgentErrorView>(
                if s.projection.open_step_assistant_message is Some {
                    if s.projection.open_step_tools.announced@.len() == 0 {
                        DriverPlanView::Deferred
                    } else {
                        DriverPlanView::Park(AgentDriverBoundary::ReadyForTools { position })
                    }
                } else if step_inputs(s).len() == 0 {
                    DriverPlanView::Park(AgentDriverBoundary::ReadyForModel { position })
                } else {
                    DriverPlanView::EnterCurrentStep { position, inputs: step_inputs(s) }
                },
            )
        },
        ResumeDecision::RecoverToolBatch { position, .. } => {
            r == Ok::<DriverPlanView, AgentErrorView>(
                DriverPlanView::Park(AgentDriverBoundary::ReadyForTools { position }),
            )
        },
        ResumeDecision::AwaitingApproval { .. } | ResumeDecision::Blocked { .. } => {
            r == Ok::<DriverPlanView, AgentErrorView>(DriverPlanView::Deferred)
        },
        ResumeDecision::RecoverInterruptedModelRequest { .. }
        | ResumeDecision::PersistRecoveryBlock { .. } => {
            r == Err::<DriverPlanView, AgentErrorView>(
                mutation(
                    "recovery without external capability execution was not converged before entering the deterministic driver"@,
                ),
            )
        },
    }
}

/// The view of a plan or refusal.
pub open spec fn plan_view(r: Result<DriverPlan, AgentError>) -> Result<
    DriverPlanView,
    AgentErrorView,
> {
    match r {
        Ok(plan) => Ok(plan@),
        Err(e) => Err(e@),
    }
}

/// Plans the next deterministic move.
pub fn plan_next(state: &AgentState) -> (r: Result<DriverPlan, AgentError>)
    ensures
        is_next_plan(*state, plan_view(r)),
{
    match &state.resume {
        ResumeDecision::Clean => plan_clean(state),
        ResumeDecision::ContinueOpenTurn { turn } => plan_open_turn(state, *turn),
        ResumeDecision::ContinueOpenStep { position } => plan_open_step(state, *position),
        ResumeDecision::RecoverToolBatch { position, .. } => Ok(
            DriverPlan::Park(AgentDriverBoundary::ReadyForTools { position: *position }),
        ),
        ResumeDecision::AwaitingApproval { .. } | ResumeDecision::Blocked { .. } => Ok(
            DriverPlan::Deferred,
        ),
        ResumeDecision::RecoverInterruptedModelRequest { .. }
        | ResumeDecision::PersistRecoveryBlock { .. } => Err(
            AgentError::mutation(
                "recovery without external capability execution was not converged before entering the deterministic driver".to_owned(),
            ),
        ),
    }
}

fn plan_clean(state: &AgentState) -> (r: Result<DriverPlan, AgentError>)
    requires
        state.resume is Clean,
    ensures
        is_next_plan(*state, plan_view(r)),
{
    if !state.wake_requested {
        return Ok(DriverPlan::Dormant);
    }
    let inputs = initial_step_inputs(state);
    if inputs.is_empty() {
        return Err(
            AgentError::mutation(
                "wake_requested is true but the durable Inbox projection contains no work".to_owned(),
            ),
        );
    }
    match next_number(state.projection.lifecycle.last_started_turn, "cannot allocate next TurnNo: ") {
        Err(error) => Err(error),
        Ok(turn) => Ok(DriverPlan::StartNewTurn { turn, step: StepNo::first(), inputs }),
    }
}

fn plan_open_turn(state: &AgentState, turn: TurnNo) -> (r: Result<DriverPlan, AgentError>)
    requires
        state.resume == (ResumeDecision::ContinueOpenTurn { turn }),
    ensures
        is_next_plan(*state, plan_view(r)),
{
    let last_step = match state.projection.lifecycle.last_started_step {
        Some(position) => if position.turn == turn {
            Some(position.step)
        } else {
            None
        },
        None => None,
    };
    let inputs = if last_step.is_some() {
        next_step_inputs(state)
    } else {
        initial_step_inputs(state)
    };
    let ended_here = match state.projection.lifecycle.last_ended_step {
        Some(position) => position.turn == turn,
        None => false,
    };
    let after_tools = match state.projection.lifecycle.last_ended_step_reason {
        Some(reason) => reason == StepEndReason::ToolContinuation,
        None => false,
    };
    if inputs.is_empty() && !(ended_here && after_tools) {
        return Ok(DriverPlan::EndOpenTurn { turn });
    }
    match next_number(last_step, "cannot allocate next StepNo: ") {
        Err(error) => Err(error),
        Ok(step) => Ok(DriverPlan::StartStep { turn, step, inputs }),
    }
}

fn plan_open_step(state: &AgentState, position: StepPosition) -> (r: Result<DriverPlan, AgentError>)
    requires
        state.resume == (ResumeDecision::ContinueOpenStep { position }),
    ensures
        is_next_plan(*state, plan_view(r)),
{
    if state.projection.open_step_assistant_message.is_some() {
        if state.projection.open_step_tools.announced.is_empty() {
            return Ok(DriverPlan::Deferred);
        }
        return Ok(DriverPlan::Park(AgentDriverBoundary::ReadyForTools { position }));
    }
    let inputs = next_step_inputs(state);
    if inputs.is_empty() {
        return Ok(DriverPlan::Park(AgentDriverBoundary::ReadyForModel { position }));
    }
    Ok(DriverPlan::EnterCurrentStep { position, inputs })
}

fn plan_items(inputs: &mut Vec<PlannedInboxInput>, items: &Vec<PendingInboxItem>, target: InboxTarget)
    ensures
        planned_view(final(inputs)@) == planned_view(old(inputs)@) + planned(items@, target),
{
    let ghost before = planned_view(inputs@);
    let mut i: usize = 0;
    while i < items.len()
        invariant
            i <= items@.len(),
            planned_view(inputs@) =~= before + planned(items@.take(i as int), target),
        decreases items@.len() - i,
    {
        let ghost prior = inputs@;
        inputs.push(PlannedInboxInput { target, item: items[i].clone() });
        assert(planned_view(inputs@) =~= planned_view(prior).push(inputs@.last()@));
        assert(planned(items@.take(i + 1), target) =~= planned(items@.take(i as int), target).push(
            PlannedView { target, item: items@[i as int]@ },
        ));
        i = i + 1;
    }
    assert(items@.take(i as int) =~= items@);
}

fn initial_step_inputs(state: &AgentState) -> (r: Vec<PlannedInboxInput>)
    ensures
        planned_view(r@) == first_inputs(*state),
{
    let mut inputs: Vec<PlannedInboxInput> = Vec::new();
    let waiting = &state.projection.inbox.next_turn;
    if waiting.len() > 0 {
        inputs.push(PlannedInboxInput { target: InboxTarget::NextTurn, item: waiting[0].clone() });
        assert(planned_view(inputs@) =~= planned(waiting@.take(1), InboxTarget::NextTurn));
    } else {
        assert(planned_view(inputs@) =~= planned(waiting@, InboxTarget::NextTurn));
    }
    plan_items(&mut inputs, &state.projection.inbox.next_step, InboxTarget::NextStep);
    inputs
}

fn next_step_inputs(state: &AgentState) -> (r: Vec<PlannedInboxInput>)
    ensures
        planned_view(r@) == step_inputs(*state),
{
    let mut inputs: Vec<PlannedInboxInput> = Vec::new();
    plan_items(&mut inputs, &state.projection.inbox.next_step, InboxTarget::NextStep);
    assert(planned_view(inputs@) =~= step_inputs(*state));
    inputs
}

fn next_number(last: Option<Counter>, what: &str) -> (r: Result<Counter, AgentError>)
    ensures
        match r {
            Ok(next) => !exhausted(last) && follows(last, next),
            Err(e) => exhausted(last) && e@ == no_number(what@),
        },
{
    match last {
        None => Ok(Counter::first()),
        Some(counter) => match counter.checked_next() {
            Ok(next) => Ok(next),
            Err(error) => Err(
                AgentError::mutation(concat2(what, error.message().as_str())),
            ),
        },
    }
}

/// A turn takes up the oldest item that waits for a turn, and no other such item.
pub proof fn law_turn_takes_the_oldest(s: AgentState, r: Result<DriverPlanView, AgentErrorView>)
    requires
        is_next_plan(s, r),
        s.projection.inbox.next_turn@.len() > 0,
    ensures
        r matches Ok(DriverPlanView::StartNewTurn { inputs, .. }) ==> {
            &&& inputs.len() == 1 + s.projection.inbox.next_step@.len()
            &&& inputs[0].target == InboxTarget::NextTurn
            &&& inputs[0].item == s.projection.inbox.next_turn@[0]@
            &&& forall|i: int|
                1 <= i < inputs.len() ==> (#[trigger] inputs[i]).target == InboxTarget::NextStep
                    && inputs[i].item == s.projection.inbox.next_step@[i - 1]@
        },
{
}

/// What the driver plans is fixed by the state.
pub proof fn law_plan_is_determined(
    s: AgentState,
    a: Result<DriverPlanView, AgentErrorView>,
    b: Result<DriverPlanView, AgentErrorView>,
)
    requires
        is_next_plan(s, a),
        is_next_plan(s, b),
    ensures
        a == b,
{
    broadcast use lemma_counter_by_value;

}

/// Without a wake-up no turn starts, whatever waits in the inbox.
pub proof fn law_no_turn_without_wakeup(s: AgentState, r: Result<DriverPlanView, AgentErrorView>)
    requires
        is_next_plan(s, r),
        !s.wake_requested,
    ensures
        !(r matches Ok(DriverPlanView::StartNewTurn { .. })),
{
}

/// An open turn without an open step ends only if nothing is left to do in it: nothing
/// waits for a step, the last step did not end for tools to be answered, and, where no
/// step has been started in it, nothing waits for a turn either.
pub proof fn law_open_turn_ends_only_when_done(
    s: AgentState,
    turn: TurnNo,
    r: Result<DriverPlanView, AgentErrorView>,
)
    requires
        is_next_plan(s, r),
        s.resume == (ResumeDecision::ContinueOpenTurn { turn }),
    ensures
        r matches Ok(DriverPlanView::EndOpenTurn { turn: t }) ==> t == turn,
        r matches Ok(DriverPlanView::EndOpenTurn { .. }) <==> {
            &&& s.projection.inbox.next_step@.len() == 0
            &&& !(s.projection.lifecycle.last_ended_step matches Some(p) && p.turn == turn
                && s.projection.lifecycle.last_ended_step_reason == Some(
                StepEndReason::ToolContinuation,
            ))
            &&& s.projection.inbox.next_turn@.len() == 0 || (
            s.projection.lifecycle.last_started_step matches Some(p) && p.turn == turn)
        },
{
}

/// While something waits for a step and a number is left, an open turn goes on with its
/// next step, and that step takes up all that waits for a step, oldest first. Only the
/// first step of a turn takes up an item that waits for a turn, before all others.
pub proof fn law_waiting_input_is_taken_up(
    s: AgentState,
    turn: TurnNo,
    r: Result<DriverPlanView, AgentErrorView>,
)
    requires
        is_next_plan(s, r),
        s.resume == (ResumeDecision::ContinueOpenTurn { turn }),
        s.projection.inbox.next_step@.len() > 0,
        s.projection.lifecycle.last_started_step matches Some(p) ==> p.turn == turn ==> p.step@
            < MAX_JSON_SAFE_INTEGER,
    ensures
        ({
            let waiting = s.projection.inbox.next_step@;
            let oldest = s.projection.inbox.next_turn@;
            &&& r matches Ok(DriverPlanView::StartStep { turn: t, step, inputs })
            &&& t == turn
            &&& match s.projection.lifecycle.last_started_step {
                Some(p) if p.turn == turn => {
                    &&& step@ == p.step@ + 1
                    &&& is_taken_up(inputs, waiting, 0)
                },
                _ => {
                    &&& step@ == 1
                    &&& oldest.len() == 0 ==> is_taken_up(inputs, waiting, 0)
                    &&& oldest.len() > 0 ==> {
                        &&& is_taken_up(inputs, waiting, 1)
                        &&& inputs[0].target == InboxTarget::NextTurn
                        &&& inputs[0].item == oldest[0]@
                    }
                },
            }
        }),
{
}

/// Whether `inputs` has, behind the first `first`, all of `waiting` in order, planned for
/// a step, and nothing else.
pub open spec fn is_taken_up(
    inputs: Seq<PlannedView>,
    waiting: Seq<PendingInboxItem>,
    first: int,
) -> bool {
    &&& inputs.len() == first + waiting.len()
    &&& forall|i: int|
        0 <= i < waiting.len() ==> (#[trigger] inputs[first + i]).target == InboxTarget::NextStep
            && inputs[first + i].item == waiting[i]@
}

/// After a step that ended for tools to be answered the turn goes on with the next
/// step, though nothing waits.
pub proof fn law_turn_goes_on_after_tools(
    s: AgentState,
    turn: TurnNo,
    ended: StepPosition,
    r: Result<DriverPlanView, AgentErrorView>,
)
    requires
        is_next_plan(s, r),
        s.resume == (ResumeDecision::ContinueOpenTurn { turn }),
        s.projection.lifecycle.last_started_step == Some(ended),
        s.projection.lifecycle.last_ended_step == Some(ended),
        ended.turn == turn,
        s.projection.lifecycle.last_ended_step_reason == Some(StepEndReason::ToolContinuation),
    ensures
        ended.step@ == MAX_JSON_SAFE_INTEGER ==> r is Err,
        ended.step@ < MAX_JSON_SAFE_INTEGER ==> {
            &&& r matches Ok(DriverPlanView::StartStep { turn: t, step, inputs })
            &&& t == turn
            &&& step@ == ended.step@ + 1
            &&& is_taken_up(inputs, s.projection.inbox.next_step@, 0)
        },
{
}

/// A wake-up starts the next turn if anything waits and a number is left: with its first
/// step, the oldest item that waits for a turn, and all that waits for a step.
pub proof fn law_wakeup_starts_the_next_turn(
    s: AgentState,
    r: Result<DriverPlanView, AgentErrorView>,
)
    requires
        is_next_plan(s, r),
        s.resume is Clean,
    ensures
        ({
            let waiting = s.projection.inbox.next_step@;
            let oldest = s.projection.inbox.next_turn@;
            if !s.wake_requested {
                r == Ok::<DriverPlanView, AgentErrorView>(DriverPlanView::Dormant)
            } else if (waiting.len() == 0 && oldest.len() == 0) || (
            s.projection.lifecycle.last_started_turn matches Some(c) && c@
                == MAX_JSON_SAFE_INTEGER) {
                r matches Err(AgentErrorView::InvalidDurableMutation { .. })
            } else {
                &&& r matches Ok(DriverPlanView::StartNewTurn { turn, step, inputs })
                &&& step@ == 1
                &&& match s.projection.lifecycle.last_started_turn {
                    Some(c) => turn@ == c@ + 1,
                    None => turn@ == 1,
                }
                &&& oldest.len() == 0 ==> is_taken_up(inputs, waiting, 0)
                &&& oldest.len() > 0 ==> {
                    &&& is_taken_up(inputs, waiting, 1)
                    &&& inputs[0].target == InboxTarget::NextTurn
                    &&& inputs[0].item == oldest[0]@
                }
            }
        }),
{
}

/// In an open step new input is taken up first, then the model is asked, and then the
/// tools that it called are run; a step whose answer calls no tool is not touched.
pub proof fn law_open_step_goes_on(
    s: AgentState,
    position: StepPosition,
    r: Result<DriverPlanView, AgentErrorView>,
)
    requires
        is_next_plan(s, r),
        s.resume == (ResumeDecision::ContinueOpenStep { position }),
    ensures
        ({
            let waiting = s.projection.inbox.next_step@;
            let answered = s.projection.open_step_assistant_message is Some;
            let calls = s.projection.open_step_tools.announced@;
            &&& !answered && waiting.len() > 0 ==> {
                &&& r matches Ok(DriverPlanView::EnterCurrentStep { position: at, inputs })
                &&& at == position
                &&& is_taken_up(inputs, waiting, 0)
            }
            &&& !answered && waiting.len() == 0 ==> r == Ok::<DriverPlanView, AgentErrorView>(
                DriverPlanView::Park(AgentDriverBoundary::ReadyForModel { position }),
            )
            &&& answered && calls.len() > 0 ==> r == Ok::<DriverPlanView, AgentErrorView>(
                DriverPlanView::Park(AgentDriverBoundary::ReadyForTools { position }),
            )
            &&& answered && calls.len() == 0 ==> r == Ok::<DriverPlanView, AgentErrorView>(
                DriverPlanView::Deferred,
            )
        }),
{
}

/// Work that waits for somebody else is left alone, an interrupted batch of tool calls
/// goes back to the tools, and recovery that was not done first is an error.
pub proof fn law_recovery_comes_first(s: AgentState, r: Result<DriverPlanView, AgentErrorView>)
    requires
        is_next_plan(s, r),
    ensures
        s.resume is AwaitingApproval || s.resume is Blocked ==> r == Ok::<
            DriverPlanView,
            AgentErrorView,
        >(DriverPlanView::Deferred),
        s.resume matches ResumeDecision::RecoverToolBatch { position, .. } ==> r == Ok::<
            DriverPlanView,
            AgentErrorView,
        >(DriverPlanView::Park(AgentDriverBoundary::ReadyForTools { position })),
        s.resume is RecoverInterruptedModelRequest || s.resume is PersistRecoveryBlock
            ==> r is Err,
{
}

/// Where there is work but no number left for the next turn or step, that is what is reported.
pub proof fn law_missing_numbers_are_reported(
    s: AgentState,
    turn: TurnNo,
    r: Result<DriverPlanView, AgentErrorView>,
)
    requires
        is_next_plan(s, r),
    ensures
        s.resume is Clean && s.wake_requested && (s.projection.inbox.next_step@.len() > 0
            || s.projection.inbox.next_turn@.len() > 0) && (
        s.projection.lifecycle.last_started_turn matches Some(c) && c@ == MAX_JSON_SAFE_INTEGER)
            ==> r == Err::<DriverPlanView, AgentErrorView>(
            AgentErrorView::InvalidDurableMutation {
                message: "cannot allocate next TurnNo: "@
                    + "counter exceeds the maximum safe JSON integer"@,
            },
        ),
        s.resume == (ResumeDecision::ContinueOpenTurn { turn })
            && s.projection.inbox.next_step@.len() > 0 && (
        s.projection.lifecycle.last_started_step matches Some(p) && p.turn == turn && p.step@
            == MAX_JSON_SAFE_INTEGER) ==> r == Err::<DriverPlanView, AgentErrorView>(
            AgentErrorView::InvalidDurableMutation {
                message: "cannot allocate next StepNo: "@
                    + "counter exceeds the maximum safe JSON integer"@,
            },
        ),
{
}

} // verus!
