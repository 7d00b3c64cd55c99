//! Recovery, live state and the loop driver.

use harness::agent::loop_driver::{plan_next, DriverPlan};
use harness::agent::recovery::{
    DurableCursor, RecoveryAnalysisError, RecoveryAnalyzer, ResumeDecision, ToolRecoveryAction, ToolRetryRequirement,
};
use harness::agent::state::{
    ActiveAgentOperation, AgentBootstrap, AgentDriverBoundary, AgentPhase, AgentState,
    ExecutionGate,
};
use harness::json::JsonText;
use harness::message::{BlobRef, ContentBlock, Message, MessageSource};
use harness::session::{
    ApprovalRequested, ModelRequested, OpenStepToolCall, PendingApproval, PendingInboxItem,
    PendingToolCall, PendingToolDispatch, RecoveryBlock, RecoveryBlockKind, RecoveryBlocked,
    SessionHead, SessionProjection, StepEndReason, StepPosition, ToolCallRecorded, ToolDispatched,
};
use harness::types::{
    Counter, EventSeq, Identifier, InboxTarget, Role, SideEffectClass, StepNo, ToolCallId, TurnNo,
};

fn id(value: &str) -> Identifier {
    Identifier::new(value).unwrap()
}

fn seq(value: u64) -> EventSeq {
    EventSeq::new(value).unwrap()
}

fn position() -> StepPosition {
    StepPosition { turn: TurnNo::first(), step: StepNo::first() }
}

fn pending_call(call_id: &str, call_seq: u64, side_effect: SideEffectClass) -> PendingToolCall {
    PendingToolCall {
        call_event_id: id(&format!("evt_call_{call_seq}")),
        call_seq: seq(call_seq),
        turn: position().turn,
        step: position().step,
        data: ToolCallRecorded {
            call_id: id(call_id),
            tool: "tool".to_owned(),
            arguments_json: JsonText::new("{}".to_owned()).unwrap(),
            side_effect,
        },
    }
}

fn pending_dispatch(call_id: &str, dispatch_seq: u64, attempt: u32) -> PendingToolDispatch {
    PendingToolDispatch {
        dispatch_event_id: id(&format!("evt_dispatch_{dispatch_seq}")),
        dispatch_seq: seq(dispatch_seq),
        turn: position().turn,
        step: position().step,
        data: ToolDispatched {
            call_id: id(call_id),
            invocation_id: id(&format!("inv_{call_id}_{attempt}")),
            provider_id: id("prv_tools"),
            attempt,
            idempotency_key: id(&format!("idem_{call_id}")),
        },
    }
}

fn model_request() -> ModelRequested {
    ModelRequested {
        request_id: id("req_1"),
        provider: id("prv_1"),
        model: "m".to_owned(),
        history_through_seq: seq(3),
        request_snapshot: BlobRef {
            id: "blob".to_owned(),
            sha256: "0".repeat(64),
            size: 1,
            media_type: None,
        },
        attempt: 1,
    }
}

fn open_step_projection() -> SessionProjection {
    let mut projection = SessionProjection::default();
    projection.lifecycle.open_turn = Some(position().turn);
    projection.lifecycle.open_step = Some(position());
    projection
}

#[test]
fn clean_projection_is_ready_for_new_turn() {
    let decision = RecoveryAnalyzer.analyze(&SessionProjection::default()).unwrap();
    assert_eq!(decision, ResumeDecision::Clean);
    assert!(decision.is_clean());
    assert!(!decision.blocks_new_turn());
}

#[test]
fn undispatched_non_idempotent_call_is_safe_to_restart_before_dispatch() {
    let mut projection = open_step_projection();
    projection.pending_tool_calls.push(pending_call(
        "call_z",
        10,
        SideEffectClass::NonIdempotentWrite,
    ));

    let decision = RecoveryAnalyzer.analyze(&projection).unwrap();
    assert!(matches!(
        decision,
        ResumeDecision::RecoverToolBatch { actions, .. }
            if matches!(actions.as_slice(), [ToolRecoveryAction::StartUndispatched { .. }])
    ));
}

#[test]
fn dispatched_read_only_call_is_retryable() {
    let mut projection = open_step_projection();
    projection.pending_tool_calls.push(pending_call("call_read", 10, SideEffectClass::ReadOnly));
    projection.pending_tool_dispatches.push(pending_dispatch("call_read", 11, 1));

    let decision = RecoveryAnalyzer.analyze(&projection).unwrap();
    match decision {
        ResumeDecision::RecoverToolBatch { actions, .. } => match actions.as_slice() {
            [ToolRecoveryAction::RetryDispatched { next_attempt, requirement, .. }] => {
                assert_eq!(*next_attempt, 2);
                assert_eq!(*requirement, ToolRetryRequirement::Unconditional);
            }
            other => panic!("unexpected actions: {other:?}"),
        },
        other => panic!("unexpected decision: {other:?}"),
    }
}

#[test]
fn dispatched_idempotent_write_requires_provider_guarantee() {
    let mut projection = open_step_projection();
    projection.pending_tool_calls.push(pending_call(
        "call_write",
        10,
        SideEffectClass::IdempotentWrite,
    ));
    projection.pending_tool_dispatches.push(pending_dispatch("call_write", 11, 3));

    let decision = RecoveryAnalyzer.analyze(&projection).unwrap();
    assert!(matches!(
        decision,
        ResumeDecision::RecoverToolBatch { actions, .. }
            if matches!(
                actions.as_slice(),
                [ToolRecoveryAction::RetryDispatched {
                    next_attempt: 4,
                    requirement: ToolRetryRequirement::ProviderIdempotencyGuarantee,
                    ..
                }]
            )
    ));
}

#[test]
fn dispatched_non_idempotent_write_requires_durable_recovery_block() {
    let mut projection = open_step_projection();
    projection.pending_tool_calls.push(pending_call(
        "call_send",
        10,
        SideEffectClass::NonIdempotentWrite,
    ));
    projection.pending_tool_dispatches.push(pending_dispatch("call_send", 11, 1));

    let decision = RecoveryAnalyzer.analyze(&projection).unwrap();
    assert!(matches!(
        decision,
        ResumeDecision::PersistRecoveryBlock { proposal }
            if proposal.call.data.call_id == ToolCallId::new("call_send").unwrap()
    ));
}

#[test]
fn tool_recovery_order_uses_event_sequence_not_identifier_order() {
    for reversed in [false, true] {
        let mut projection = open_step_projection();
        let first = pending_call("call_z", 10, SideEffectClass::ReadOnly);
        let second = pending_call("call_a", 20, SideEffectClass::ReadOnly);
        if reversed {
            projection.pending_tool_calls.push(second);
            projection.pending_tool_calls.push(first);
        } else {
            projection.pending_tool_calls.push(first);
            projection.pending_tool_calls.push(second);
        }

        let decision = RecoveryAnalyzer.analyze(&projection).unwrap();
        let ResumeDecision::RecoverToolBatch { actions, .. } = decision else {
            panic!("expected tool recovery batch");
        };
        let ids: Vec<_> = actions
            .iter()
            .map(|action| match action {
                ToolRecoveryAction::StartUndispatched { call }
                | ToolRecoveryAction::RetryDispatched { call, .. } => call.data.call_id.as_str(),
            })
            .collect();
        assert_eq!(ids, vec!["call_z", "call_a"]);
    }
}

#[test]
fn a_durable_block_wins_over_everything_else() {
    let mut projection = open_step_projection();
    projection.pending_tool_calls.push(pending_call("call_1", 10, SideEffectClass::ReadOnly));
    projection.unresolved_recovery = Some(RecoveryBlock {
        turn: position().turn,
        step: position().step,
        data: RecoveryBlocked {
            kind: RecoveryBlockKind::UnknownToolOutcome,
            call_id: id("call_0"),
            invocation_id: id("inv_0"),
            reason: "unknown".to_owned(),
        },
    });

    let decision = RecoveryAnalyzer.analyze(&projection).unwrap();
    assert!(matches!(
        decision,
        ResumeDecision::Blocked { block, cursor: DurableCursor::OpenStep { position: p } }
            if block.data.call_id == id("call_0") && p == position()
    ));
}

fn approval() -> PendingApproval {
    PendingApproval {
        turn: position().turn,
        step: position().step,
        data: ApprovalRequested {
            approval_id: id("apr_1"),
            call_id: id("call_1"),
            reason: "ask".to_owned(),
            risk: "read-only".to_owned(),
        },
    }
}

#[test]
fn open_work_is_continued_where_it_stands() {
    let mut turn_only = SessionProjection::default();
    turn_only.lifecycle.open_turn = Some(position().turn);
    assert_eq!(
        RecoveryAnalyzer.analyze(&turn_only).unwrap(),
        ResumeDecision::ContinueOpenTurn { turn: position().turn }
    );

    assert_eq!(
        RecoveryAnalyzer.analyze(&open_step_projection()).unwrap(),
        ResumeDecision::ContinueOpenStep { position: position() }
    );

    let mut asking = open_step_projection();
    asking.pending_tool_calls.push(pending_call("call_1", 10, SideEffectClass::ReadOnly));
    asking.pending_approval = Some(approval());
    assert!(matches!(
        RecoveryAnalyzer.analyze(&asking).unwrap(),
        ResumeDecision::AwaitingApproval { position: p, .. } if p == position()
    ));

    let mut asked = open_step_projection();
    asked.pending_model_request = Some(model_request());
    assert!(matches!(
        RecoveryAnalyzer.analyze(&asked).unwrap(),
        ResumeDecision::RecoverInterruptedModelRequest { position: p, request }
            if p == position() && request.request_id == id("req_1")
    ));
}

#[test]
fn contradictory_projections_are_refused() {
    let mut call_without_step = SessionProjection::default();
    call_without_step.pending_tool_calls.push(pending_call("call_1", 10, SideEffectClass::ReadOnly));
    let error = RecoveryAnalyzer.analyze(&call_without_step).unwrap_err();
    assert_eq!(error, RecoveryAnalysisError::ToolWorkWithoutOpenStep);
    assert_eq!(error.message(), "pending tool work exists without an open step");

    let mut dispatch_without_call = open_step_projection();
    dispatch_without_call.pending_tool_dispatches.push(pending_dispatch("call_1", 11, 1));
    let error = RecoveryAnalyzer.analyze(&dispatch_without_call).unwrap_err();
    assert_eq!(error, RecoveryAnalysisError::DispatchWithoutCall(id("call_1")));
    assert_eq!(
        error.message(),
        "pending tool dispatch call_1 has no matching pending tool call"
    );

    let mut asked_without_step = SessionProjection::default();
    asked_without_step.pending_model_request = Some(model_request());
    assert_eq!(
        RecoveryAnalyzer.analyze(&asked_without_step).unwrap_err(),
        RecoveryAnalysisError::ModelRequestWithoutOpenStep
    );

    let mut both = open_step_projection();
    both.pending_model_request = Some(model_request());
    both.pending_tool_calls.push(pending_call("call_1", 10, SideEffectClass::ReadOnly));
    assert_eq!(
        RecoveryAnalyzer.analyze(&both).unwrap_err(),
        RecoveryAnalysisError::ModelAndToolWorkOverlap
    );

    let mut elsewhere = open_step_projection();
    let mut call = pending_call("call_1", 10, SideEffectClass::ReadOnly);
    call.step = StepNo::new(2).unwrap();
    elsewhere.pending_tool_calls.push(call);
    assert_eq!(
        RecoveryAnalyzer.analyze(&elsewhere).unwrap_err(),
        RecoveryAnalysisError::ToolCallOutsideOpenStep(id("call_1"))
    );

    let mut last_attempt = open_step_projection();
    last_attempt.pending_tool_calls.push(pending_call("call_1", 10, SideEffectClass::ReadOnly));
    last_attempt.pending_tool_dispatches.push(pending_dispatch("call_1", 11, u32::MAX));
    assert_eq!(
        RecoveryAnalyzer.analyze(&last_attempt).unwrap_err(),
        RecoveryAnalysisError::AttemptOverflow(id("call_1"))
    );

    let mut two_unknown = open_step_projection();
    for call_id in ["call_1", "call_2"] {
        two_unknown.pending_tool_calls.push(pending_call(
            call_id,
            10,
            SideEffectClass::NonIdempotentWrite,
        ));
        two_unknown.pending_tool_dispatches.push(pending_dispatch(call_id, 11, 1));
    }
    assert_eq!(
        RecoveryAnalyzer.analyze(&two_unknown).unwrap_err(),
        RecoveryAnalysisError::MultipleUnknownNonIdempotentDispatches
    );
}

#[test]
fn contradictory_approvals_are_refused() {
    let mut without_step = SessionProjection::default();
    without_step.pending_approval = Some(approval());
    assert_eq!(
        RecoveryAnalyzer.analyze(&without_step).unwrap_err(),
        RecoveryAnalysisError::ApprovalWithoutOpenStep
    );

    let mut with_model = open_step_projection();
    with_model.pending_approval = Some(approval());
    with_model.pending_model_request = Some(model_request());
    assert_eq!(
        RecoveryAnalyzer.analyze(&with_model).unwrap_err(),
        RecoveryAnalysisError::ApprovalAndModelOverlap
    );

    let mut with_dispatch = open_step_projection();
    with_dispatch.pending_approval = Some(approval());
    with_dispatch.pending_tool_calls.push(pending_call("call_1", 10, SideEffectClass::ReadOnly));
    with_dispatch.pending_tool_dispatches.push(pending_dispatch("call_1", 11, 1));
    assert_eq!(
        RecoveryAnalyzer.analyze(&with_dispatch).unwrap_err(),
        RecoveryAnalysisError::ApprovalAndDispatchOverlap
    );

    let mut elsewhere = open_step_projection();
    let mut other = approval();
    other.step = StepNo::new(2).unwrap();
    elsewhere.pending_approval = Some(other);
    assert_eq!(
        RecoveryAnalyzer.analyze(&elsewhere).unwrap_err(),
        RecoveryAnalysisError::ApprovalOutsideOpenStep
    );

    let mut without_tool = open_step_projection();
    without_tool.pending_approval = Some(approval());
    let error = RecoveryAnalyzer.analyze(&without_tool).unwrap_err();
    assert_eq!(error, RecoveryAnalysisError::ApprovalWithoutTool(id("call_1")));
    assert_eq!(error.message(), "pending approval references missing tool call call_1");
}

fn bootstrap(resume: ResumeDecision) -> AgentBootstrap {
    AgentBootstrap {
        events: Vec::new(),
        head: SessionHead { session_id: id("ses_1"), seq: EventSeq::first() },
        projection: SessionProjection::default(),
        resume,
    }
}

#[test]
fn clean_bootstrap_may_start_new_turn() {
    let state = AgentState::from_bootstrap(id("agt_1"), bootstrap(ResumeDecision::Clean));
    assert!(state.can_start_new_turn());
    assert!(!state.wake_requested);
}

#[test]
fn running_continue_open_step_exposes_ready_for_model_boundary() {
    let position = position();
    let mut state = AgentState::from_bootstrap(
        id("agt_1"),
        bootstrap(ResumeDecision::ContinueOpenStep { position }),
    );
    state.phase = AgentPhase::Running { turn: position.turn, step: Some(position.step) };

    assert_eq!(state.driver_boundary(), Some(AgentDriverBoundary::ReadyForModel { position }));
}

#[test]
fn authoritative_tool_call_assistant_exposes_tool_boundary() {
    let position = position();
    let mut bootstrap = bootstrap(ResumeDecision::ContinueOpenStep { position });
    bootstrap.projection.lifecycle.open_turn = Some(position.turn);
    bootstrap.projection.lifecycle.open_step = Some(position);
    bootstrap.projection.open_step_assistant_message = Some(id("msg_assistant"));
    bootstrap.projection.open_step_tools.announced.push(OpenStepToolCall {
        call_id: id("call_1"),
        name: "read_file".to_owned(),
        arguments_json: JsonText::new("{}".to_owned()).unwrap(),
    });
    let mut state = AgentState::from_bootstrap(id("agt_1"), bootstrap);
    state.phase = AgentPhase::Running { turn: position.turn, step: Some(position.step) };

    assert_eq!(state.driver_boundary(), Some(AgentDriverBoundary::ReadyForTools { position }));
}

#[test]
fn active_model_operation_hides_boundary() {
    let position = position();
    let mut state = AgentState::from_bootstrap(
        id("agt_1"),
        bootstrap(ResumeDecision::ContinueOpenStep { position }),
    );
    state.phase = AgentPhase::Running { turn: position.turn, step: Some(position.step) };
    state.active_operation = Some(ActiveAgentOperation::Model {
        position,
        request_id: id("req_1"),
        attempt: 1,
    });

    assert!(state.driver_boundary().is_none());
    assert!(state.has_active_operation());
}

#[test]
fn blocked_state_offers_no_boundary_and_no_turn() {
    let position = position();
    let block = RecoveryBlock {
        turn: position.turn,
        step: position.step,
        data: RecoveryBlocked {
            kind: RecoveryBlockKind::UnknownToolOutcome,
            call_id: id("call_0"),
            invocation_id: id("inv_0"),
            reason: "unknown".to_owned(),
        },
    };
    let mut state = AgentState::from_bootstrap(
        id("agt_1"),
        bootstrap(ResumeDecision::Blocked {
            block,
            cursor: DurableCursor::OpenStep { position },
        }),
    );
    state.phase = AgentPhase::Running { turn: position.turn, step: Some(position.step) };
    assert!(state.needs_resume_work());
    assert!(!state.gate.is_open());
    assert!(state.driver_boundary().is_none());
    assert!(!state.can_start_new_turn());
}

fn message(value: &str) -> Message {
    Message {
        id: id(value),
        role: Role::User,
        source: MessageSource::User,
        content: vec![ContentBlock::text(value)],
    }
}

fn state(projection: SessionProjection, resume: ResumeDecision, wake: bool) -> AgentState {
    AgentState {
        instance_id: id("agt_1"),
        session_id: id("ses_1"),
        expected_seq: EventSeq::first(),
        phase: AgentPhase::Idle { last_turn: None },
        gate: ExecutionGate::Open,
        resume,
        projection,
        active_operation: None,
        wake_requested: wake,
    }
}

fn item(value: &str, target: InboxTarget, wakeup: bool) -> PendingInboxItem {
    PendingInboxItem { message: message(value), target, wakeup }
}

#[test]
fn clean_wake_claims_one_next_turn_and_all_next_step_inputs() {
    let mut projection = SessionProjection::default();
    projection.inbox.next_turn.push(item("msg_turn_1", InboxTarget::NextTurn, true));
    projection.inbox.next_turn.push(item("msg_turn_2", InboxTarget::NextTurn, true));
    projection.inbox.next_step.push(item("msg_step_1", InboxTarget::NextStep, false));

    let plan = plan_next(&state(projection, ResumeDecision::Clean, true)).unwrap();
    let DriverPlan::StartNewTurn { turn, step, inputs } = plan else {
        panic!("expected StartNewTurn");
    };

    assert_eq!(turn, TurnNo::first());
    assert_eq!(step, StepNo::first());
    assert_eq!(inputs.len(), 2);
    assert_eq!(inputs[0].item.message.id.as_str(), "msg_turn_1");
    assert_eq!(inputs[1].item.message.id.as_str(), "msg_step_1");
}

#[test]
fn without_a_wakeup_no_turn_starts() {
    let mut projection = SessionProjection::default();
    projection.inbox.next_step.push(item("msg_step_1", InboxTarget::NextStep, false));
    let plan = plan_next(&state(projection, ResumeDecision::Clean, false)).unwrap();
    assert!(matches!(plan, DriverPlan::Dormant));
}

#[test]
fn open_step_parks_for_model_when_no_next_step_input_exists() {
    let position = position();
    let mut projection = SessionProjection::default();
    projection.lifecycle.open_turn = Some(position.turn);
    projection.lifecycle.open_step = Some(position);
    projection.lifecycle.last_started_turn = Some(position.turn);
    projection.lifecycle.last_started_step = Some(position);

    let plan =
        plan_next(&state(projection, ResumeDecision::ContinueOpenStep { position }, false))
            .unwrap();

    assert!(matches!(plan, DriverPlan::Park(AgentDriverBoundary::ReadyForModel { .. })));
}

#[test]
fn steering_enters_the_open_step_before_the_model_is_asked() {
    let position = position();
    let mut projection = open_step_projection();
    projection.lifecycle.last_started_turn = Some(position.turn);
    projection.lifecycle.last_started_step = Some(position);
    projection.inbox.next_step.push(item("msg_steer", InboxTarget::NextStep, true));
    projection.inbox.next_turn.push(item("msg_later", InboxTarget::NextTurn, true));

    let plan =
        plan_next(&state(projection, ResumeDecision::ContinueOpenStep { position }, true))
            .unwrap();
    let DriverPlan::EnterCurrentStep { position: p, inputs } = plan else {
        panic!("expected EnterCurrentStep");
    };
    assert_eq!(p, position);
    assert_eq!(inputs.len(), 1);
    assert_eq!(inputs[0].item.message.id.as_str(), "msg_steer");
}

#[test]
fn tool_continuation_opens_next_step_without_new_inbox_input() {
    let turn = TurnNo::first();
    let first_step = StepNo::first();
    let mut projection = SessionProjection::default();
    projection.lifecycle.open_turn = Some(turn);
    projection.lifecycle.last_started_turn = Some(turn);
    projection.lifecycle.last_started_step = Some(StepPosition { turn, step: first_step });
    projection.lifecycle.last_ended_step = Some(StepPosition { turn, step: first_step });
    projection.lifecycle.last_ended_step_reason = Some(StepEndReason::ToolContinuation);

    let plan =
        plan_next(&state(projection, ResumeDecision::ContinueOpenTurn { turn }, false)).unwrap();

    assert!(matches!(
        plan,
        DriverPlan::StartStep { step, inputs, .. }
            if step == StepNo::new(2).unwrap() && inputs.is_empty()
    ));
}

#[test]
fn an_approval_defers_the_driver() {
    let mut projection = open_step_projection();
    projection.pending_approval = Some(approval());
    let plan = plan_next(&state(
        projection,
        ResumeDecision::AwaitingApproval { position: position(), approval: approval() },
        true,
    ))
    .unwrap();
    assert!(matches!(plan, DriverPlan::Deferred));
}

#[test]
fn counters_start_at_one_and_stay_exact() {
    assert!(Counter::new(0).is_err());
    assert_eq!(Counter::new(0).unwrap_err().message(), "counter must start at one");
    let last = Counter::new(9_007_199_254_740_991).unwrap();
    assert_eq!(
        Counter::new(9_007_199_254_740_992).unwrap_err().message(),
        "counter exceeds the maximum safe JSON integer"
    );
    assert!(last.checked_next().is_err());
    assert_eq!(Counter::first().checked_next().unwrap().get(), 2);
    assert!(Counter::first().before(&last));
}

#[test]
fn identifiers_are_never_empty() {
    assert_eq!(Identifier::new("").unwrap_err().message(), "identifier must not be empty");
    assert_eq!(id("x").into_string(), "x");
    assert!(id("x").same(&id("x")) && !id("x").same(&id("y")));
}
