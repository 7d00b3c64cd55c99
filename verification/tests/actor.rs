//! The agent at work, with a projector and a store that live in memory.

use harness::agent::actor::append::{AgentActor, AppendResult};
use harness::agent::actor::cancel::{cancel_cause_label, CapabilityCancelTarget};
use harness::agent::actor::control::{
    after_command, mailbox_step, AfterCommand, AgentExitReason, MailboxEvent, MailboxNext,
    MailboxReply,
};
use harness::agent::actor::driving::{RuntimeAction, RuntimeStep};
use harness::agent::actor::model::LlmCompletion;
use harness::agent::actor::tool_support::{ToolAdvance, ToolCompletion};
use harness::agent::bootstrap::{AgentBootstrapError, AgentBootstrapper, SnapshotProgress};
use harness::agent::command::{AgentCommand, AgentCommandAck};
use harness::agent::error::{AgentError, SessionStoreError};
use harness::agent::event_source::AgentEventSource;
use harness::agent::handle::{
    approval_receipt, cancelled, send_receipt, shut_down, submit, AgentHandleError, Submission,
};
use harness::agent::llm_runtime::AgentLlmRuntime;
use harness::agent::operation::{model_timeout_failure, tool_timeout_failure};
use harness::agent::recovery::{RecoveryAnalyzer, ResumeDecision};
use harness::agent::state::{AgentBootstrap, AgentPhase, ExecutionGate};
use harness::agent::tool_driver::call_under_review;
use harness::agent::tool_runtime::AgentToolRuntime;
use harness::conformance::{model_config, tool_definition, user_message};
use harness::json::JsonText;
use harness::llm::assembler::LlmStreamOutcome;
use harness::llm::stream::FinishReason;
use harness::message::{BlobRef, ContentBlock, Message, PortableError, ToolOutcome};
use harness::session::{
    NewSessionEvent, OpenStepToolCall, PendingApproval, PendingInboxItem, PendingToolCall,
    PendingToolDispatch, RecoveryBlock, SessionEvent, SessionEventPayload, SessionHead,
    SessionProjection, StepEndReason, StepPosition, TurnEndReason,
};
use harness::tools::{
    IdempotencySupport, PolicyDecision, ToolRegistration, ToolRegistry, ToolReview,
};
use harness::types::{
    ApprovalDecision, CancelCause, ErrorCode, EventId, EventSeq, Identifier, InboxTarget, Role,
    SideEffectClass, StepNo, TurnNo,
};

use std::sync::atomic::{AtomicU64, Ordering};

fn id(value: &str) -> Identifier {
    Identifier::new(value).unwrap()
}

fn seq(value: u64) -> EventSeq {
    EventSeq::new(value).unwrap()
}

struct Source(AtomicU64);

impl AgentEventSource for Source {
    fn next_event_id(&self) -> EventId {
        id(&format!("evt_{}", self.0.fetch_add(1, Ordering::Relaxed)))
    }

    fn now(&self) -> String {
        "2026-08-20T15:00:00Z".to_owned()
    }
}

struct Stuck;

impl AgentEventSource for Stuck {
    fn next_event_id(&self) -> EventId {
        id("evt_same")
    }

    fn now(&self) -> String {
        "2026-08-20T15:00:00Z".to_owned()
    }
}

fn unclaim(items: &mut Vec<PendingInboxItem>, message_id: &Identifier) {
    items.retain(|item| item.message.id != *message_id);
}

fn apply(p: &mut SessionProjection, event: &SessionEvent) {
    let draft = &event.draft;
    let position = match (draft.turn, draft.step) {
        (Some(turn), Some(step)) => Some(StepPosition { turn, step }),
        _ => None,
    };
    match &draft.payload {
        SessionEventPayload::TurnStarted { turn } => {
            p.lifecycle.open_turn = Some(*turn);
            p.lifecycle.last_started_turn = Some(*turn);
        }
        SessionEventPayload::TurnEnded { .. } => {
            p.lifecycle.last_ended_turn = p.lifecycle.open_turn.take();
        }
        SessionEventPayload::StepStarted { turn, step } => {
            let position = StepPosition { turn: *turn, step: *step };
            p.lifecycle.open_step = Some(position);
            p.lifecycle.last_started_step = Some(position);
            p.open_step_assistant_message = None;
            p.open_step_tools.announced.clear();
            p.open_step_tools.recorded.clear();
            p.open_step_tools.completed.clear();
            p.resolved_approvals.clear();
        }
        SessionEventPayload::StepEnded { reason } => {
            p.lifecycle.last_ended_step = p.lifecycle.open_step.take();
            p.lifecycle.last_ended_step_reason = Some(*reason);
            p.open_step_assistant_message = None;
            p.open_step_tools.announced.clear();
        }
        SessionEventPayload::InboxEnqueued(data) => {
            let item = PendingInboxItem {
                message: data.message.clone(),
                target: data.target,
                wakeup: data.wakeup,
            };
            match data.target {
                InboxTarget::NextTurn => p.inbox.next_turn.push(item),
                InboxTarget::NextStep => p.inbox.next_step.push(item),
            }
        }
        SessionEventPayload::InboxClaimed { message_id, .. }
        | SessionEventPayload::InboxDiscarded { message_id, .. } => {
            unclaim(&mut p.inbox.next_turn, message_id);
            unclaim(&mut p.inbox.next_step, message_id);
        }
        SessionEventPayload::UserMessage { message } => p.model_messages.push(message.clone()),
        SessionEventPayload::ModelRequested(data) => p.pending_model_request = Some(data.clone()),
        SessionEventPayload::AssistantMessage(data) => {
            p.pending_model_request = None;
            p.open_step_assistant_message = Some(data.message.id.clone());
            for block in &data.message.content {
                if let ContentBlock::ToolCall { id, name, arguments_json } = block {
                    p.open_step_tools.announced.push(OpenStepToolCall {
                        call_id: id.clone(),
                        name: name.clone(),
                        arguments_json: arguments_json.clone(),
                    });
                }
            }
            p.model_messages.push(data.message.clone());
        }
        SessionEventPayload::ModelFailed(_) => p.pending_model_request = None,
        SessionEventPayload::ToolCall(data) => {
            p.open_step_tools.recorded.push(data.call_id.clone());
            p.pending_tool_calls.push(PendingToolCall {
                call_event_id: draft.event_id.clone(),
                call_seq: event.seq,
                turn: position.unwrap().turn,
                step: position.unwrap().step,
                data: data.clone(),
            });
        }
        SessionEventPayload::ToolDispatched(data) => {
            p.pending_tool_dispatches.retain(|known| known.data.call_id != data.call_id);
            p.pending_tool_dispatches.push(PendingToolDispatch {
                dispatch_event_id: draft.event_id.clone(),
                dispatch_seq: event.seq,
                turn: position.unwrap().turn,
                step: position.unwrap().step,
                data: data.clone(),
            });
        }
        SessionEventPayload::ToolResult(data) => {
            p.open_step_tools.completed.push(data.call_id.clone());
            p.pending_tool_calls.retain(|known| known.data.call_id != data.call_id);
            p.pending_tool_dispatches.retain(|known| known.data.call_id != data.call_id);
            p.model_messages.push(Message {
                id: draft.event_id.clone(),
                role: Role::User,
                source: harness::message::MessageSource::System,
                content: vec![ContentBlock::ToolResult {
                    tool_call_id: data.call_id.clone(),
                    content: Vec::new(),
                    is_error: !matches!(data.outcome, ToolOutcome::Success { .. }),
                }],
            });
        }
        SessionEventPayload::ApprovalRequested(data) => {
            p.pending_approval = Some(PendingApproval {
                turn: position.unwrap().turn,
                step: position.unwrap().step,
                data: data.clone(),
            });
        }
        SessionEventPayload::ApprovalResolved(data) => {
            p.pending_approval = None;
            p.resolved_approvals.push(data.clone());
        }
        SessionEventPayload::RecoveryBlocked(data) => {
            p.pending_tool_calls.retain(|known| known.data.call_id != data.call_id);
            p.pending_tool_dispatches.retain(|known| known.data.call_id != data.call_id);
            p.unresolved_recovery = Some(RecoveryBlock {
                turn: position.unwrap().turn,
                step: position.unwrap().step,
                data: data.clone(),
            });
        }
    }
}

fn project(events: &[SessionEvent]) -> SessionProjection {
    let mut projection = SessionProjection::default();
    for event in events {
        apply(&mut projection, event);
    }
    projection
}

struct Session {
    actor: AgentActor,
    source: Source,
}

fn opening() -> SessionEvent {
    // Something at the first place, so that the head is one.
    SessionEvent::committed(
        id("ses_1"),
        EventSeq::first(),
        NewSessionEvent::new(
            id("evt_opening"),
            "2026-08-20T15:00:00Z".to_owned(),
            SessionEventPayload::InboxDiscarded {
                message_id: id("msg_none"),
                reason: "opening".to_owned(),
            },
        ),
    )
}

fn restart(events: Vec<SessionEvent>, start: u64) -> Session {
    let projection = project(&events);
    let resume = RecoveryAnalyzer.analyze(&projection).unwrap();
    let head = events.last().unwrap().seq;
    let bootstrap = AgentBootstrap {
        events,
        head: SessionHead { session_id: id("ses_1"), seq: head },
        projection,
        resume,
    };
    Session {
        actor: AgentActor::from_bootstrap(id("agt_1"), bootstrap),
        source: Source(AtomicU64::new(start)),
    }
}

impl Session {
    fn new() -> Session {
        restart(vec![opening()], 100)
    }

    fn write(&mut self, drafts: Vec<NewSessionEvent>) {
        let preview = self.actor.preview_append(&drafts).unwrap();
        let mut events = self.actor.history.clone();
        events.extend(preview.committed.iter().cloned());
        let result =
            AppendResult { new_head: preview.head, committed: preview.committed.clone() };
        let prepared = AgentActor::prepare_append(preview, Ok(project(&events))).unwrap();
        self.actor.commit_append(prepared, result).unwrap();
    }

    fn send(&mut self, message_id: &str, target: InboxTarget, wakeup: bool) {
        let message = user_message(message_id, "hello").unwrap();
        let draft = self.actor.send_draft(&self.source, message, target, wakeup).unwrap();
        self.write(vec![draft]);
    }

    fn drive(&mut self) {
        loop {
            match self.actor.advance_runtime(&self.source, true, true).unwrap() {
                RuntimeStep::Recover { drafts } => {
                    self.write(drafts);
                    self.actor.enter_idle();
                }
                RuntimeStep::Append { drafts, then_phase } => {
                    self.write(drafts);
                    self.actor.enter_phase(then_phase);
                }
                _ => return,
            }
        }
    }

    fn types(&self) -> Vec<&'static str> {
        self.actor.history[1..].iter().map(|event| event.draft.payload.event_type()).collect()
    }

    fn ask_model(&mut self) -> Identifier {
        let config = model_config(id("prv_model"));
        let prepared = self
            .actor
            .prepare_model_request(&self.source, &config, None, position())
            .unwrap();
        let snapshot = BlobRef {
            id: "blob_1".to_owned(),
            sha256: "0".repeat(64),
            size: 1,
            media_type: None,
        };
        let draft = self.actor.model_requested_draft(&self.source, &prepared, snapshot);
        self.write(vec![draft]);
        self.actor.begin_model_operation(&prepared);
        prepared.request.request_id
    }

    fn answer(&mut self, request_id: Identifier, content: Vec<ContentBlock>) {
        let completion = LlmCompletion {
            position: position(),
            request_id,
            outcome: Ok(LlmStreamOutcome::Assistant {
                content,
                usage: None,
                finish_reason: FinishReason::Completed,
            }),
        };
        let config = model_config(id("prv_model"));
        let drafts = self
            .actor
            .llm_completion_drafts(&self.source, Some(&config), completion)
            .unwrap()
            .unwrap();
        self.write(drafts);
        self.actor.end_operation();
    }

    fn advance(&mut self, runtime: &AgentToolRuntime, review: &ToolReview) -> Option<Identifier> {
        match self
            .actor
            .advance_tool_boundary(&self.source, runtime, position(), review)
            .unwrap()
            .confirmed(Ok(()))
            .unwrap()
        {
            ToolAdvance::Progressed { drafts } => {
                self.write(drafts);
                None
            }
            ToolAdvance::Started { draft, invocation, timeout_ms } => {
                assert_eq!(timeout_ms, 5_000);
                self.write(vec![draft]);
                self.actor.begin_tool_operation(&invocation);
                Some(invocation.invocation_id)
            }
            ToolAdvance::Deferred => panic!("nothing can be done"),
        }
    }
}

fn position() -> StepPosition {
    StepPosition { turn: TurnNo::first(), step: StepNo::first() }
}

fn tools(side_effect: SideEffectClass, support: IdempotencySupport) -> AgentToolRuntime {
    AgentToolRuntime::new(
        ToolRegistry {
            registrations: vec![ToolRegistration {
                definition: tool_definition("read", side_effect),
                provider_id: id("prv_tools"),
                idempotency_support: support,
            }],
        },
        2,
    )
    .unwrap()
}

fn call(name: &str) -> ContentBlock {
    ContentBlock::ToolCall {
        id: id("call_1"),
        name: name.to_owned(),
        arguments_json: JsonText::new("{}".to_owned()).unwrap(),
    }
}

fn allow() -> ToolReview {
    ToolReview::Decided(PolicyDecision::Allow)
}

/// A session whose model has just called a tool.
fn calling(name: &str) -> Session {
    let mut session = Session::new();
    session.send("msg_1", InboxTarget::NextTurn, true);
    session.drive();
    let request = session.ask_model();
    session.answer(request, vec![call(name)]);
    session.drive();
    session
}

#[test]
fn a_waking_message_opens_a_turn_and_parks_before_the_model() {
    let mut session = Session::new();
    session.send("msg_1", InboxTarget::NextTurn, true);
    assert!(session.actor.state().wake_requested);
    let receipt =
        session.actor.send_receipt(id("msg_1"), session.actor.history.last().unwrap());
    assert_eq!(receipt.seq, seq(2));
    assert!(receipt.wake_requested);

    session.drive();
    assert_eq!(
        session.types(),
        vec!["inbox/enqueued", "turn/started", "inbox/claimed", "step/started", "user/message"]
    );
    assert_eq!(
        session.actor.next_runtime_action(true, true),
        RuntimeAction::CallModel { position: position() }
    );
    assert_eq!(session.actor.next_runtime_action(false, true), RuntimeAction::Wait);
    assert_eq!(session.actor.state().expected_seq, seq(6));
}

#[test]
fn an_injected_message_waits_for_the_next_turn() {
    let mut session = Session::new();
    session.send("msg_1", InboxTarget::NextStep, false);
    session.drive();
    assert_eq!(session.types(), vec!["inbox/enqueued"]);
    assert!(matches!(session.actor.state().phase, AgentPhase::Idle { last_turn: None }));

    session.send("msg_2", InboxTarget::NextTurn, true);
    session.drive();
    assert_eq!(session.actor.state().projection.model_messages.len(), 2);
    assert!(matches!(
        session.actor.advance_runtime(&session.source, true, true),
        Ok(RuntimeStep::CallModel { position: at }) if at == position()
    ));
    assert!(matches!(
        session.actor.advance_runtime(&session.source, false, true),
        Ok(RuntimeStep::Wait)
    ));
}

#[test]
fn an_answer_without_tool_calls_ends_the_turn() {
    let mut session = Session::new();
    session.send("msg_1", InboxTarget::NextTurn, true);
    session.drive();
    let request = session.ask_model();
    assert!(session.actor.state().has_active_operation());
    assert!(session.actor.state().driver_boundary().is_none());
    assert_eq!(
        session.actor.capability_cancel_target(true, None),
        Some(CapabilityCancelTarget::Model { request_id: request.clone() })
    );
    session.answer(request.clone(), vec![ContentBlock::text("hi")]);
    session.drive();
    assert!(session.types().ends_with(&["assistant/message", "step/ended", "turn/ended"]));
    assert!(session.actor.model_request_ended(&request));
    assert!(session.actor.state().can_start_new_turn());

    // A second completion of the same request comes too late.
    let late = LlmCompletion {
        position: position(),
        request_id: request,
        outcome: Err(PortableError::new(ErrorCode::Internal, "late".to_owned())),
    };
    let drafts = session
        .actor
        .llm_completion_drafts(&session.source, Some(&model_config(id("prv_model"))), late)
        .unwrap();
    assert!(drafts.is_none());
}

#[test]
fn completions_that_nobody_waits_for_are_refused() {
    let session = Session::new();
    let stray = LlmCompletion {
        position: position(),
        request_id: id("req_x"),
        outcome: Err(PortableError::new(ErrorCode::Internal, "x".to_owned())),
    };
    let error = session
        .actor
        .llm_completion_drafts(&session.source, None, stray)
        .unwrap_err();
    assert_eq!(
        error.message(),
        "unexpected completion of model request req_x: no model operation is active"
    );
    let stray = ToolCompletion {
        position: position(),
        call_id: id("call_x"),
        invocation_id: id("inv_x"),
        outcome: Ok(ToolOutcome::Denied { reason: "x".to_owned() }),
    };
    let error = session.actor.tool_completion_drafts(&session.source, stray).unwrap_err();
    assert_eq!(
        error.message(),
        "unexpected completion of tool call call_x: no Tool operation is active"
    );
}

#[test]
fn a_failed_request_ends_step_and_turn() {
    let mut session = Session::new();
    session.send("msg_1", InboxTarget::NextTurn, true);
    session.drive();
    let request_id = session.ask_model();
    let failure = model_timeout_failure(&request_id, 1_000);
    assert_eq!(failure.code, ErrorCode::DeadlineExceeded);
    let drafts = session
        .actor
        .llm_completion_drafts(
            &session.source,
            Some(&model_config(id("prv_model"))),
            LlmCompletion { position: position(), request_id, outcome: Err(failure) },
        )
        .unwrap()
        .unwrap();
    session.write(drafts);
    session.actor.end_operation();
    session.drive();
    assert!(session.types().ends_with(&["model/failed", "step/ended", "turn/ended"]));
    assert!(session.actor.state().can_start_new_turn());
}

#[test]
fn a_tool_call_is_recorded_dispatched_and_followed_by_another_step() {
    let runtime = tools(SideEffectClass::ReadOnly, IdempotencySupport::Unsupported);
    let mut session = calling("read");
    assert_eq!(
        session.actor.next_runtime_action(true, true),
        RuntimeAction::AdvanceTools { position: position() }
    );
    assert_eq!(session.advance(&runtime, &allow()), None);
    assert_eq!(session.types().last(), Some(&"tool/call"));
    let review = call_under_review(session.actor.state()).unwrap();
    assert_eq!(review.data.call_id, id("call_1"));

    let invocation_id = session.advance(&runtime, &allow()).unwrap();
    assert_eq!(session.types().last(), Some(&"tool/dispatched"));
    assert_eq!(
        session.actor.capability_cancel_target(true, Some(&runtime)),
        Some(CapabilityCancelTarget::Tool {
            tool: "read".to_owned(),
            invocation_id: invocation_id.clone(),
        })
    );

    let completion = ToolCompletion {
        position: position(),
        call_id: id("call_1"),
        invocation_id,
        outcome: Ok(ToolOutcome::Success { content: vec![ContentBlock::text("data")] }),
    };
    let drafts =
        session.actor.tool_completion_drafts(&session.source, completion).unwrap().unwrap();
    session.write(drafts);
    session.actor.end_operation();
    assert!(session.actor.tool_call_ended(position(), &id("call_1")));

    assert_eq!(session.advance(&runtime, &allow()), None);
    assert!(session.types().ends_with(&["tool/result", "step/ended"]));
    session.drive();
    assert_eq!(session.types().last(), Some(&"step/started"));
    let second = StepNo::new(2).unwrap();
    assert_eq!(
        session.actor.next_runtime_action(true, true),
        RuntimeAction::CallModel { position: StepPosition { turn: TurnNo::first(), step: second } }
    );
}

#[test]
fn refused_invocations_are_not_dispatched() {
    let runtime = tools(SideEffectClass::ReadOnly, IdempotencySupport::Unsupported);
    let mut session = calling("read");
    let recorded = session
        .actor
        .advance_tool_boundary(&session.source, &runtime, position(), &allow())
        .unwrap();
    match recorded.confirmed(Err("unused".to_owned())).unwrap() {
        ToolAdvance::Progressed { drafts } => session.write(drafts),
        other => panic!("unexpected advance: {other:?}"),
    }
    let started = session
        .actor
        .advance_tool_boundary(&session.source, &runtime, position(), &allow())
        .unwrap();
    assert!(matches!(started, ToolAdvance::Started { .. }));
    assert_eq!(
        started.confirmed(Err("attempt is zero".to_owned())).unwrap_err().message(),
        "invalid tool runtime: attempt is zero"
    );
}

#[test]
fn unknown_tools_and_bad_arguments_never_reach_a_provider() {
    let runtime = tools(SideEffectClass::ReadOnly, IdempotencySupport::Unsupported);
    let mut unknown = calling("missing");
    assert_eq!(unknown.advance(&runtime, &allow()), None);
    assert_eq!(unknown.advance(&runtime, &allow()), None);
    match &unknown.actor.history.last().unwrap().draft.payload {
        SessionEventPayload::ToolResult(result) => assert_eq!(
            result.outcome,
            ToolOutcome::plain_error("NOT_FOUND", "tool missing is not registered".to_owned())
        ),
        other => panic!("unexpected event: {other:?}"),
    }

    for review in [
        ToolReview::InvalidArguments { message: "bad".to_owned() },
        ToolReview::Decided(PolicyDecision::Deny { reason: "no".to_owned() }),
    ] {
        let mut session = calling("read");
        assert_eq!(session.advance(&runtime, &review), None);
        assert_eq!(session.advance(&runtime, &review), None);
        assert_eq!(session.types().last(), Some(&"tool/result"));
    }
}

#[test]
fn approval_is_asked_for_and_decides() {
    let runtime = tools(SideEffectClass::NonIdempotentWrite, IdempotencySupport::Unsupported);
    let ask = ToolReview::Decided(PolicyDecision::Ask {
        reason: "writes".to_owned(),
        risk: "high".to_owned(),
    });
    for decision in [ApprovalDecision::Allow, ApprovalDecision::Deny] {
        let mut session = calling("read");
        session.advance(&runtime, &ask);
        session.advance(&runtime, &ask);
        assert_eq!(session.types().last(), Some(&"approval/requested"));
        assert!(matches!(
            session.actor.state().resume,
            ResumeDecision::AwaitingApproval { .. }
        ));
        let approval_id =
            session.actor.state().projection.pending_approval.as_ref().unwrap().data.approval_id.clone();

        let wrong = session
            .actor
            .resolve_approval_draft(&session.source, &id("apr_x"), decision, None)
            .unwrap_err();
        assert_eq!(
            wrong.message(),
            format!(
                "invalid durable mutation: approval apr_x does not match pending approval {}",
                approval_id.as_str()
            )
        );
        let draft = session
            .actor
            .resolve_approval_draft(&session.source, &approval_id, decision, None)
            .unwrap();
        session.write(vec![draft]);
        let receipt = AgentActor::approval_receipt(
            approval_id,
            decision,
            session.actor.history.last().unwrap(),
        );
        assert_eq!(receipt.decision, decision);

        session.drive();
        let started = session.advance(&runtime, &ask);
        if decision == ApprovalDecision::Allow {
            assert!(started.is_some());
            assert_eq!(session.types().last(), Some(&"tool/dispatched"));
        } else {
            assert!(started.is_none());
            assert_eq!(session.types().last(), Some(&"tool/result"));
        }
    }

    let session = Session::new();
    assert_eq!(
        session
            .actor
            .resolve_approval_draft(&session.source, &id("apr_1"), ApprovalDecision::Deny, None)
            .unwrap_err()
            .message(),
        "invalid durable mutation: no Tool approval is pending"
    );
}

/// A session that stopped after a dispatch.
fn crashed_after_dispatch(side_effect: SideEffectClass, support: IdempotencySupport) -> Session {
    let runtime = tools(side_effect, support);
    let mut session = calling("read");
    session.advance(&runtime, &allow());
    session.advance(&runtime, &allow());
    restart(session.actor.history.clone(), 1_000)
}

#[test]
fn a_lost_dispatch_is_retried_with_the_same_key() {
    let runtime = tools(SideEffectClass::IdempotentWrite, IdempotencySupport::Keyed);
    let mut session =
        crashed_after_dispatch(SideEffectClass::IdempotentWrite, IdempotencySupport::Keyed);
    assert!(!session.actor.needs_startup());
    session.drive();
    let key = session.actor.state().projection.pending_tool_dispatches[0]
        .data
        .idempotency_key
        .clone();
    assert!(session.advance(&runtime, &allow()).is_some());
    match &session.actor.history.last().unwrap().draft.payload {
        SessionEventPayload::ToolDispatched(data) => {
            assert_eq!(data.attempt, 2);
            assert_eq!(data.idempotency_key, key);
        }
        other => panic!("unexpected event: {other:?}"),
    }

    // With the second attempt the budget of two is used up.
    let mut again = restart(session.actor.history.clone(), 2_000);
    again.drive();
    assert!(again.advance(&runtime, &allow()).is_none());
    assert_eq!(again.types().last(), Some(&"tool/result"));
}

#[test]
fn a_lost_dispatch_that_may_have_changed_something_blocks_the_session() {
    let mut session = crashed_after_dispatch(
        SideEffectClass::NonIdempotentWrite,
        IdempotencySupport::Unsupported,
    );
    assert!(session.actor.needs_startup());
    session.actor.begin_maintenance();
    assert_eq!(session.actor.state().phase, AgentPhase::Maintenance);
    let drafts = session.actor.startup_drafts(&session.source).unwrap();
    session.write(drafts);
    session.actor.enter_idle();
    assert!(session.types().ends_with(&["recovery/blocked", "step/ended", "turn/ended"]));
    assert!(matches!(session.actor.state().gate, ExecutionGate::Blocked(_)));
    assert!(!session.actor.state().can_start_new_turn());

    session.send("msg_2", InboxTarget::NextTurn, true);
    session.drive();
    assert_eq!(session.types().last(), Some(&"inbox/enqueued"));
}

#[test]
fn recovery_comes_before_everything_else() {
    let mut session = crashed_after_dispatch(
        SideEffectClass::NonIdempotentWrite,
        IdempotencySupport::Unsupported,
    );
    session.send("msg_2", InboxTarget::NextTurn, true);
    session.drive();
    assert!(session.types().ends_with(&["recovery/blocked", "step/ended", "turn/ended"]));
    assert!(matches!(
        session.actor.advance_runtime(&session.source, true, true),
        Ok(RuntimeStep::Wait)
    ));
}

#[test]
fn an_interrupted_request_is_recorded_as_failed_at_startup() {
    let mut session = Session::new();
    session.send("msg_1", InboxTarget::NextTurn, true);
    session.drive();
    session.ask_model();
    let mut session = restart(session.actor.history.clone(), 1_000);
    assert!(session.actor.needs_startup());
    let drafts = session.actor.startup_drafts(&session.source).unwrap();
    session.write(drafts);
    assert_eq!(session.types().last(), Some(&"model/failed"));
    session.drive();
    let request = session.ask_model();
    match &session.actor.history.last().unwrap().draft.payload {
        SessionEventPayload::ModelRequested(data) => {
            assert_eq!(data.attempt, 2);
            assert_eq!(data.request_id, request);
        }
        other => panic!("unexpected event: {other:?}"),
    }
}

#[test]
fn an_unknown_outcome_is_not_made_up() {
    let runtime = tools(SideEffectClass::ReadOnly, IdempotencySupport::Unsupported);
    let mut session = calling("read");
    session.advance(&runtime, &allow());
    let invocation_id = session.advance(&runtime, &allow()).unwrap();
    let failure = tool_timeout_failure(&invocation_id, &id("call_1"), 5_000);
    let drafts = session
        .actor
        .tool_completion_drafts(
            &session.source,
            ToolCompletion {
                position: position(),
                call_id: id("call_1"),
                invocation_id,
                outcome: Err(failure),
            },
        )
        .unwrap()
        .unwrap();
    assert!(drafts.is_empty());
}

fn reason_of(event: &SessionEvent) -> (Option<StepEndReason>, Option<TurnEndReason>) {
    match &event.draft.payload {
        SessionEventPayload::StepEnded { reason } => (Some(*reason), None),
        SessionEventPayload::TurnEnded { reason } => (None, Some(*reason)),
        _ => (None, None),
    }
}

#[test]
fn cancellation_ends_open_work_and_keeps_or_drops_the_inbox() {
    for keep_inbox in [true, false] {
        let mut session = Session::new();
        session.send("msg_1", InboxTarget::NextTurn, true);
        session.drive();
        session.ask_model();
        session.send("msg_2", InboxTarget::NextTurn, true);
        let drafts = session
            .actor
            .cancel_drafts(&session.source, None, CancelCause::User, keep_inbox)
            .unwrap();
        session.write(drafts);
        session.actor.finish_cancel();
        assert!(!session.actor.state().has_active_operation());
        assert!(session.actor.state().projection.lifecycle.open_turn.is_none());
        let pending = session.actor.state().projection.inbox.next_turn.len();
        assert_eq!(pending, if keep_inbox { 1 } else { 0 });
        let ended: Vec<_> = session.actor.history.iter().map(reason_of).collect();
        assert!(ended.contains(&(Some(StepEndReason::Cancelled), None)));
        assert!(ended.contains(&(None, Some(TurnEndReason::Cancelled))));
    }
    assert_eq!(cancel_cause_label(CancelCause::Timeout), "timeout");
}

#[test]
fn cancelling_a_lost_write_blocks_the_session() {
    let runtime = tools(SideEffectClass::NonIdempotentWrite, IdempotencySupport::Unsupported);
    let mut session = calling("read");
    session.advance(&runtime, &allow());
    session.advance(&runtime, &allow());
    let drafts = session
        .actor
        .cancel_drafts(&session.source, Some(&runtime), CancelCause::Shutdown, true)
        .unwrap();
    session.write(drafts);
    session.actor.finish_cancel();
    assert!(session.types().contains(&"recovery/blocked"));
    assert!(matches!(session.actor.state().gate, ExecutionGate::Blocked(_)));
}

#[test]
fn cancelling_a_read_ends_its_call() {
    let runtime = tools(SideEffectClass::ReadOnly, IdempotencySupport::Unsupported);
    let mut session = calling("read");
    session.advance(&runtime, &allow());
    session.advance(&runtime, &allow());
    let drafts = session
        .actor
        .cancel_drafts(&session.source, Some(&runtime), CancelCause::User, true)
        .unwrap();
    session.write(drafts);
    session.actor.finish_cancel();
    assert!(session.types().ends_with(&["tool/result", "step/ended", "turn/ended"]));
    assert!(session.actor.state().can_start_new_turn());
}

#[test]
fn identities_are_never_written_twice() {
    let mut session = Session::new();
    let first = session
        .actor
        .send_draft(&Stuck, user_message("msg_1", "a").unwrap(), InboxTarget::NextTurn, false)
        .unwrap();
    let second = session
        .actor
        .send_draft(&Stuck, user_message("msg_2", "b").unwrap(), InboxTarget::NextTurn, false)
        .unwrap();
    let both = session.actor.preview_append(&vec![first.clone(), second.clone()]).unwrap_err();
    assert_eq!(
        both.message(),
        "invalid durable mutation: event id evt_same already occurs in the session"
    );
    session.write(vec![first]);
    assert!(matches!(
        session.actor.preview_append(&vec![second]),
        Err(AgentError::InvalidDurableMutation { .. })
    ));
}

#[test]
fn the_store_is_held_to_what_was_agreed() {
    let mut session = Session::new();
    let draft = session
        .actor
        .send_draft(
            &session.source,
            user_message("msg_1", "a").unwrap(),
            InboxTarget::NextTurn,
            false,
        )
        .unwrap();
    let preview = session.actor.preview_append(&vec![draft]).unwrap();
    let refused = AgentActor::prepare_append(
        session.actor.preview_append(&Vec::new()).unwrap(),
        Err("nonsense".to_owned()),
    )
    .unwrap_err();
    assert_eq!(refused.message(), "invalid durable mutation: nonsense");

    let prepared =
        AgentActor::prepare_append(preview, Ok(SessionProjection::default())).unwrap();
    let error = session
        .actor
        .commit_append(prepared, AppendResult { new_head: seq(7), committed: Vec::new() })
        .unwrap_err();
    assert_eq!(
        error.message(),
        "SessionStore contract violation: append result did not match the prevalidated commit: \
         expected head 2 and 1 events, got head 7 and 0 events"
    );
    assert!(error.is_terminal_for_actor());
    assert_eq!(session.actor.history.len(), 1);
}

#[test]
fn only_user_messages_are_accepted() {
    let session = Session::new();
    let mut message = user_message("msg_1", "a").unwrap();
    message.role = Role::Assistant;
    let error = session
        .actor
        .send_draft(&session.source, message, InboxTarget::NextTurn, true)
        .unwrap_err();
    assert_eq!(
        error.message(),
        "invalid durable mutation: Agent Inbox accepts only user-role Messages in v0.1"
    );
}

#[test]
fn a_lost_session_stops_the_agent() {
    let conflict = AgentError::from_store(SessionStoreError::Conflict {
        session_id: id("ses_1"),
        expected: seq(1),
        actual: seq(2),
    });
    assert_eq!(
        conflict.message(),
        "agent lost single-writer ownership of session ses_1: expected head 1, actual 2"
    );
    assert_eq!(after_command(&Err(conflict.clone())), AfterCommand::Stop);
    let step = mailbox_step(MailboxEvent::CommandHandled(Err(conflict.clone())));
    assert_eq!(step.reply, MailboxReply::Command(Err(conflict.clone())));
    assert_eq!(step.next, MailboxNext::Exit(AgentExitReason::Fatal(conflict)));

    let storage = AgentError::from_store(SessionStoreError::Other {
        code: ErrorCode::Internal,
        message: "disk".to_owned(),
    });
    assert_eq!(storage.message(), "session storage failure (Internal): disk");
    assert_eq!(after_command(&Err(storage.clone())), AfterCommand::Wait);
    assert_eq!(
        mailbox_step(MailboxEvent::Driven(Err(storage.clone()))).next,
        MailboxNext::Exit(AgentExitReason::Fatal(storage))
    );
}

#[test]
fn the_mailbox_answers_before_it_goes_on() {
    let snapshot = mailbox_step(MailboxEvent::Snapshot);
    assert_eq!((snapshot.reply, snapshot.next), (MailboxReply::State, MailboxNext::Wait));
    let closed = mailbox_step(MailboxEvent::Closed);
    assert_eq!(closed.next, MailboxNext::Exit(AgentExitReason::MailboxClosed));
    let shutdown = mailbox_step(MailboxEvent::Shutdown);
    assert_eq!(shutdown.reply, MailboxReply::Command(Ok(AgentCommandAck::Shutdown)));
    assert_eq!(shutdown.next, MailboxNext::Exit(AgentExitReason::ShutdownRequested));
    assert_eq!(mailbox_step(MailboxEvent::CompletionHandled(Ok(()))).next, MailboxNext::Drive);
    let accepted = mailbox_step(MailboxEvent::CommandHandled(Ok(AgentCommandAck::Cancelled)));
    assert_eq!(accepted.next, MailboxNext::Drive);
    assert_eq!(mailbox_step(MailboxEvent::Driven(Ok(()))).next, MailboxNext::Wait);
}

#[test]
fn handles_report_what_became_of_a_command() {
    assert_eq!(
        submit(Submission::Closed).unwrap_err().message(),
        "agent actor mailbox is closed"
    );
    assert_eq!(
        submit(Submission::Dropped).unwrap_err().message(),
        "agent actor dropped the command acknowledgement"
    );
    let refused = submit(Submission::Answered(Err(AgentError::mutation("no".to_owned()))));
    assert_eq!(refused.unwrap_err().message(), "invalid durable mutation: no");
    let ack = submit(Submission::Answered(Ok(AgentCommandAck::Cancelled)));
    assert!(cancelled(ack).is_ok());
    let mismatch = "agent actor returned an acknowledgement that does not match the submitted \
                    command";
    assert_eq!(send_receipt(Ok(AgentCommandAck::Cancelled)).unwrap_err().message(), mismatch);
    assert_eq!(approval_receipt(Ok(AgentCommandAck::Shutdown)).unwrap_err().message(), mismatch);
    assert!(shut_down(Ok(AgentCommandAck::Shutdown)).is_ok());
    assert!(matches!(
        shut_down(Ok(AgentCommandAck::Cancelled)),
        Err(AgentHandleError::AcknowledgementMismatch)
    ));
}

#[test]
fn commands_say_where_a_message_goes() {
    let message = || user_message("msg_1", "a").unwrap();
    assert_eq!(
        AgentCommand::followup(message()),
        AgentCommand::send(message(), InboxTarget::NextTurn, true)
    );
    assert_eq!(
        AgentCommand::steer(message()),
        AgentCommand::send(message(), InboxTarget::NextStep, true)
    );
    assert_eq!(
        AgentCommand::inject(message()),
        AgentCommand::send(message(), InboxTarget::NextStep, false)
    );
}

fn head(at: u64) -> SessionHead {
    SessionHead { session_id: id("ses_1"), seq: seq(at) }
}

fn numbered(at: u64) -> SessionEvent {
    let mut event = opening();
    event.seq = seq(at);
    event.draft.event_id = id(&format!("evt_{at}"));
    event
}

#[test]
fn a_session_is_read_whole_before_an_agent_starts() {
    let reader = AgentBootstrapper::new((), 2).begin(head(3)).unwrap();
    let reader = match reader.accept_page(vec![numbered(1), numbered(2)]).unwrap() {
        SnapshotProgress::Reading(reader) => reader,
        other => panic!("unexpected progress: {other:?}"),
    };
    assert_eq!(reader.from_seq(), seq(3));
    // What is behind the head is not taken in.
    let reader = match reader.accept_page(vec![numbered(3), numbered(4)]).unwrap() {
        SnapshotProgress::Complete(reader) => reader,
        other => panic!("unexpected progress: {other:?}"),
    };
    assert_eq!(reader.events().len(), 3);
    let bootstrap = reader.into_bootstrap(Ok(SessionProjection::default())).unwrap();
    assert_eq!(bootstrap.resume, ResumeDecision::Clean);
    assert_eq!(bootstrap.events.len(), 3);
}

#[test]
fn loading_failures_have_words() {
    let begin = || AgentBootstrapper::new((), 2).begin(head(3)).unwrap();
    assert_eq!(
        AgentBootstrapper::new((), 0).begin(head(1)).unwrap_err().message(),
        "bootstrap page size must be greater than zero"
    );
    assert_eq!(
        begin().accept_page(Vec::new()).unwrap_err().message(),
        "session snapshot was incomplete: expected to read through seq 3, observed None"
    );
    let reading = match begin().accept_page(vec![numbered(1)]).unwrap() {
        SnapshotProgress::Reading(reader) => reader,
        other => panic!("unexpected progress: {other:?}"),
    };
    assert_eq!(
        reading.accept_page(Vec::new()).unwrap_err().message(),
        "session snapshot was incomplete: expected to read through seq 3, observed \
         Some(EventSeq(1))"
    );
    assert_eq!(
        begin().accept_page(vec![numbered(1), numbered(3)]).unwrap_err().message(),
        "session snapshot is not contiguous: expected seq 2, observed 3"
    );
    assert_eq!(AgentBootstrapError::Projection("torn".to_owned()).message(), "torn");
}

#[test]
fn incomplete_and_torn_sessions_are_refused() {
    assert!(matches!(
        AgentBootstrapper::new((), 0).begin(head(1)),
        Err(AgentBootstrapError::InvalidPageSize)
    ));
    let begin = || AgentBootstrapper::new((), 2).begin(head(3)).unwrap();
    assert!(matches!(
        begin().accept_page(Vec::new()),
        Err(AgentBootstrapError::IncompleteSnapshot { observed: None, .. })
    ));
    assert!(matches!(
        begin().accept_page(vec![numbered(1), numbered(3)]),
        Err(AgentBootstrapError::NonContiguousSnapshot { expected, observed })
            if expected == seq(2) && observed == seq(3)
    ));
    assert!(matches!(
        begin().into_bootstrap(Ok(SessionProjection::default())),
        Err(AgentBootstrapError::IncompleteSnapshot { observed: None, .. })
    ));
    let whole = || match AgentBootstrapper::new((), 2).begin(head(1)).unwrap().accept_page(vec![
        numbered(1),
    ]) {
        Ok(SnapshotProgress::Complete(reader)) => reader,
        other => panic!("unexpected progress: {other:?}"),
    };
    assert!(matches!(
        whole().into_bootstrap(Err("torn".to_owned())),
        Err(AgentBootstrapError::Projection(message)) if message == "torn"
    ));
    let mut contradictory = SessionProjection::default();
    contradictory.pending_approval = Some(PendingApproval {
        turn: TurnNo::first(),
        step: StepNo::first(),
        data: harness::session::ApprovalRequested {
            approval_id: id("apr_1"),
            call_id: id("call_1"),
            reason: "r".to_owned(),
            risk: "r".to_owned(),
        },
    });
    assert!(matches!(
        whole().into_bootstrap(Ok(contradictory)),
        Err(AgentBootstrapError::Recovery(_))
    ));
}

#[test]
fn runtimes_check_their_settings() {
    assert!(AgentToolRuntime::new(ToolRegistry { registrations: Vec::new() }, 0).is_err());
    let runtime = AgentLlmRuntime::new(model_config(id("prv_1")), &id("prv_1")).unwrap();
    assert!(runtime.with_timeout_ms(0).is_err());
    assert!(AgentLlmRuntime::new(model_config(id("prv_1")), &id("prv_2")).is_err());
    let tools = tools(SideEffectClass::ReadOnly, IdempotencySupport::Unsupported);
    assert_eq!(tools.model_tool_specs().len(), 1);
    assert_eq!(tools.max_automatic_attempts(), 2);
}
