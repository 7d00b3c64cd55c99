//! The command line at work: what is typed, what is waited for, what is shown.

use harness::agent::recovery::{DurableCursor, ResumeDecision};
use harness::agent::state::{
    ActiveAgentOperation, AgentBootstrap, AgentState, ExecutionGate,
};
use harness::cli::{
    log_step, read_after, read_input, render_turn_events, run_outcome, session_banner,
    turn_is_over, typed_message, CliError, HistoryReader, InputStep, LogEvent, LogStep,
    RenderedLine, READ_PAGE_SIZE,
};
use harness::config::error::HarnessConfigError;
use harness::message::{ContentBlock, Message, MessageSource, PortableError};
use harness::session::{
    ApprovalRequested, AssistantMessage, ModelFailed, NewSessionEvent, PendingApproval,
    RecoveryBlock, RecoveryBlockKind, RecoveryBlocked, SessionEvent, SessionEventPayload,
    SessionHead, SessionProjection, StepPosition,
};
use harness::types::{Counter, ErrorCode, EventSeq, Identifier, Role, StepNo, TurnNo};

fn id(value: &str) -> Identifier {
    Identifier::new(value).unwrap()
}

fn seq(value: u64) -> EventSeq {
    EventSeq::new(value).unwrap()
}

fn event(at: u64, payload: SessionEventPayload) -> SessionEvent {
    SessionEvent::committed(
        id("ses_1"),
        seq(at),
        NewSessionEvent::new(
            id(&format!("evt_{at}")),
            "2026-08-20T15:00:00Z".to_owned(),
            payload,
        ),
    )
}

fn turn_started(at: u64) -> SessionEvent {
    event(at, SessionEventPayload::TurnStarted { turn: TurnNo::first() })
}

fn state(projection: SessionProjection, resume: ResumeDecision) -> AgentState {
    AgentState::from_bootstrap(
        id("agt_1"),
        AgentBootstrap {
            events: Vec::new(),
            head: SessionHead { session_id: id("ses_1"), seq: EventSeq::first() },
            projection,
            resume,
        },
    )
}

#[test]
fn a_line_is_said_unless_it_is_empty_or_quits() {
    assert_eq!(read_input(None), InputStep::Quit);
    assert_eq!(read_input(Some("/quit\n")), InputStep::Quit);
    assert_eq!(read_input(Some("/quit\r\n")), InputStep::Quit);
    assert_eq!(read_input(Some("\r\n\n")), InputStep::Ignore);
    assert_eq!(read_input(Some("")), InputStep::Ignore);
    assert_eq!(read_input(Some(" /quit\n")), InputStep::Say(" /quit".to_owned()));
    assert_eq!(read_input(Some("hello \r\n")), InputStep::Say("hello ".to_owned()));
}

#[test]
fn a_turn_is_over_when_nothing_is_left() {
    let resting = state(SessionProjection::default(), ResumeDecision::Clean);
    assert_eq!(turn_is_over(&resting), Ok(true));

    let mut open = SessionProjection::default();
    open.lifecycle.open_turn = Some(TurnNo::first());
    assert_eq!(turn_is_over(&state(open, ResumeDecision::Clean)), Ok(false));

    let mut busy = state(SessionProjection::default(), ResumeDecision::Clean);
    busy.active_operation = Some(ActiveAgentOperation::Model {
        position: StepPosition { turn: TurnNo::first(), step: StepNo::first() },
        request_id: id("req_1"),
        attempt: 1,
    });
    assert_eq!(turn_is_over(&busy), Ok(false));
}

#[test]
fn approvals_and_blocks_cannot_be_waited_for() {
    let mut asking = SessionProjection::default();
    asking.pending_approval = Some(PendingApproval {
        turn: TurnNo::first(),
        step: StepNo::first(),
        data: ApprovalRequested {
            approval_id: id("apr_1"),
            call_id: id("call_1"),
            reason: "why".to_owned(),
            risk: "low".to_owned(),
        },
    });
    let error = turn_is_over(&state(asking, ResumeDecision::Clean)).unwrap_err();
    assert_eq!(error, CliError::ApprovalPending);
    assert_eq!(
        error.message(),
        "session is waiting for an approval; CLI run cannot continue interactively"
    );

    let position = StepPosition { turn: TurnNo::first(), step: StepNo::first() };
    let block = RecoveryBlock {
        turn: position.turn,
        step: position.step,
        data: RecoveryBlocked {
            kind: RecoveryBlockKind::UnknownToolOutcome,
            call_id: id("call_1"),
            invocation_id: id("inv_1"),
            reason: "lost".to_owned(),
        },
    };
    let blocked = state(
        SessionProjection::default(),
        ResumeDecision::Blocked { block, cursor: DurableCursor::OpenStep { position } },
    );
    assert!(matches!(blocked.gate, ExecutionGate::Blocked(_)));
    assert_eq!(
        turn_is_over(&blocked).unwrap_err().message(),
        "session execution is recovery-blocked: RecoveryBlocked { kind: UnknownToolOutcome, \
         call_id: \"call_1\", invocation_id: \"inv_1\", reason: \"lost\" }"
    );
}

#[test]
fn a_turn_shows_what_the_assistant_says_and_how_the_model_failed() {
    let said = event(
        2,
        SessionEventPayload::AssistantMessage(AssistantMessage {
            request_id: id("req_1"),
            message: Message {
                id: id("msg_1"),
                role: Role::Assistant,
                source: MessageSource::Model { provider: id("prv_1"), model: "m".to_owned() },
                content: vec![
                    ContentBlock::text("one"),
                    ContentBlock::Reasoning { text: "hidden".to_owned() },
                    ContentBlock::text("two"),
                ],
            },
            usage: None,
        }),
    );
    let failed = event(
        3,
        SessionEventPayload::ModelFailed(ModelFailed {
            request_id: id("req_2"),
            failure: PortableError::new(ErrorCode::ModelRequestFailed, "down".to_owned()),
        }),
    );
    let lines = render_turn_events(&vec![turn_started(1), said, failed]);
    assert_eq!(lines.len(), 3);
    assert_eq!(lines[0], RenderedLine::Output("assistant> one".to_owned()));
    assert_eq!(lines[1], RenderedLine::Output("assistant> two".to_owned()));
    match &lines[2] {
        RenderedLine::Diagnostic(text) => {
            assert!(text.starts_with("model-error> "));
            assert!(text.ends_with(": down"));
        }
        other => panic!("unexpected line: {other:?}"),
    }
}

#[test]
fn histories_are_read_page_by_page_up_to_the_head() {
    assert_eq!(READ_PAGE_SIZE, 256);
    let mut reader = HistoryReader::new(seq(3), EventSeq::first());
    assert_eq!(reader.accept_page(vec![turn_started(1), turn_started(2)]), Ok(false));
    assert_eq!(reader.from, seq(3));
    assert_eq!(
        reader.accept_page(Vec::new()).unwrap_err().message(),
        "event sequence cannot advance while reading Session history: SessionStore returned an \
         empty page at seq 3 before head 3"
    );
    assert_eq!(reader.accept_page(vec![turn_started(3)]), Ok(true));
    assert_eq!(reader.events.len(), 3);

    let kept = read_after(reader.events, seq(1));
    assert_eq!(kept.iter().map(|event| event.seq.get()).collect::<Vec<_>>(), vec![2, 3]);
}

#[test]
fn a_session_is_greeted_and_spoken_to() {
    assert_eq!(
        session_banner(&id("ses_1"), "main", &None),
        "session ses_1 profile main workspace -; /quit to exit"
    );
    assert_eq!(
        session_banner(&id("ses_1"), "main", &Some("work".to_owned())),
        "session ses_1 profile main workspace work; /quit to exit"
    );
    let message = typed_message(id("msg_1"), "hello");
    assert_eq!(message.role, Role::User);
    assert_eq!(message.source, MessageSource::User);
    assert_eq!(message.content, vec![ContentBlock::text("hello")]);
}

#[test]
fn the_first_failure_of_a_run_counts() {
    let runtime = |text: &str| Err(text.to_owned());
    assert_eq!(run_outcome(Ok(()), Ok(()), Ok(())), Ok(()));
    assert_eq!(
        run_outcome(Err(CliError::ApprovalPending), runtime("close"), runtime("down")),
        Err(CliError::ApprovalPending)
    );
    assert_eq!(
        run_outcome(Ok(()), runtime("close"), runtime("down")),
        Err(CliError::Runtime("close".to_owned()))
    );
    assert_eq!(
        run_outcome(Ok(()), Ok(()), runtime("down")),
        Err(CliError::Runtime("down".to_owned()))
    );
}

#[test]
fn the_event_log_takes_what_is_waiting_before_it_ends() {
    assert_eq!(log_step(LogEvent::Received, false), LogStep::Write);
    assert_eq!(log_step(LogEvent::StopRequested, false), LogStep::Drain);
    assert_eq!(log_step(LogEvent::Received, true), LogStep::Write);
    assert_eq!(log_step(LogEvent::Empty, false), LogStep::Wait);
    assert_eq!(log_step(LogEvent::Empty, true), LogStep::Finish);
    assert_eq!(log_step(LogEvent::Closed, false), LogStep::Finish);
    assert_eq!(
        log_step(LogEvent::Lagged { skipped: 3 }, true),
        LogStep::Fail(CliError::ObservabilityLagged { skipped: 3 })
    );
}

#[test]
fn failures_are_told_in_words() {
    let cases = [
        (
            CliError::Config(HarnessConfigError::Invalid("x".to_owned())),
            "Harness configuration failed: invalid Harness config: x",
        ),
        (CliError::RuntimeBuild("x".to_owned()), "failed to compose Harness runtime: x"),
        (CliError::Runtime("x".to_owned()), "Harness runtime operation failed: x"),
        (CliError::Storage("x".to_owned()), "failed to open durable local storage: x"),
        (CliError::Session("x".to_owned()), "SessionStore operation failed: x"),
        (CliError::Agent("x".to_owned()), "Agent handle operation failed: x"),
        (CliError::ScopeSerialize("x".to_owned()), "failed to serialize resolved scope: x"),
        (
            CliError::ObservabilityLagged { skipped: 4 },
            "runtime event observer lagged and skipped 4 event(s)",
        ),
        (CliError::ObservabilityTask("x".to_owned()), "runtime event observer task failed: x"),
        (
            CliError::RuntimeEventSerialize { path: "p".to_owned(), source: "x".to_owned() },
            "failed to serialize RuntimeEvent for p: x",
        ),
        (
            CliError::Io { context: "reading stdin", source: "x".to_owned() },
            "I/O failure while reading stdin: x",
        ),
        (CliError::Serialize("x".to_owned()), "failed to serialize SessionEvent: x"),
    ];
    for (error, text) in cases {
        assert_eq!(error.message(), text);
    }
}
