//! Fixtures for scripted sessions, and identities.

use harness::agent::recovery::ResumeDecision;
use harness::agent::state::{AgentBootstrap, AgentState};
use harness::conformance::{
    awaits_approval, is_quiescent, join, model_config, take_page, text_script, tool_call_script,
    tool_definition, user_message, AppendFault, FaultInjectingSessionStore, ObjectValidator,
    ObservedAppend, ScriptedLlm, TestEventSource,
};
use harness::identity::{prefixed_with, UuidIdentitySource};
use harness::json::JsonText;
use harness::llm::assembler::{LlmStreamAssembler, LlmStreamOutcome};
use harness::message::ContentBlock;
use harness::session::{
    NewSessionEvent, SessionEvent, SessionEventPayload, SessionHead, SessionProjection,
};
use harness::types::{
    Counter, EventSeq, Identifier, Role, SideEffectClass, TurnNo, MAX_JSON_SAFE_INTEGER,
};

fn id(value: &str) -> Identifier {
    Identifier::new(value).unwrap()
}

fn seq(value: u64) -> EventSeq {
    EventSeq::new(value).unwrap()
}

fn commit(head: u64, types: &[&str]) -> ObservedAppend {
    ObservedAppend {
        expected_seq: seq(head),
        new_head: seq(head + 1),
        event_types: types.iter().map(|name| name.to_string()).collect(),
    }
}

#[test]
fn exactly_one_acknowledgement_is_lost() {
    let fault = AppendFault::after_event_type_occurrence("turn/started", 3);
    assert_eq!(fault.event_type(), "turn/started");
    assert_eq!(fault.occurrence(), 3);
    let mut store = FaultInjectingSessionStore::new(fault);

    assert_eq!(store.committed(commit(1, &["turn/started", "turn/ended"])), Ok(()));
    assert!(!store.triggered());
    assert_eq!(
        store.committed(commit(2, &["turn/started", "step/started", "turn/started"])),
        Err("Batch 20 injected post-commit acknowledgement loss after append [turn/started, \
             step/started, turn/started]"
            .to_owned())
    );
    assert!(store.triggered());
    assert_eq!(store.committed(commit(3, &["turn/started"])), Ok(()));
    assert_eq!(store.observed.len(), 3);

    assert_eq!(AppendFault::after_event_type("x").occurrence(), 1);
}

#[test]
fn names_are_joined_with_a_separator() {
    assert_eq!(join(&Vec::new(), ", "), "");
    assert_eq!(join(&vec!["a".to_owned()], ", "), "a");
    assert_eq!(join(&vec!["a".to_owned(), "b".to_owned()], ", "), "a, b");
}

#[test]
fn test_identities_come_in_a_row() {
    let mut source = TestEventSource::new(7);
    assert_eq!(source.next_event_id(), id("evt_conformance_7"));
    assert_eq!(source.next_event_id(), id("evt_conformance_8"));
    assert_eq!(source.now(), "2026-08-20T15:00:00Z");
    let mut last = TestEventSource::new(u64::MAX);
    assert_eq!(last.next_event_id(), id("evt_conformance_18446744073709551615"));
    assert_eq!(last.next_event_id(), id("evt_conformance_0"));
}

#[test]
fn scripts_are_complete_streams() {
    for script in [
        text_script("hello"),
        tool_call_script("call_1", "read", "{\"a\":1}").unwrap(),
    ] {
        let mut assembler = LlmStreamAssembler::new();
        for item in script {
            assembler.push(item.unwrap()).unwrap();
        }
        let LlmStreamOutcome::Assistant { content, .. } = assembler.finish().unwrap() else {
            panic!("expected an answer");
        };
        match content.as_slice() {
            [ContentBlock::Text { text }] => assert_eq!(text, "hello"),
            [ContentBlock::ToolCall { id: call, name, arguments_json }] => {
                assert_eq!(*call, id("call_1"));
                assert_eq!(name, "read");
                assert_eq!(arguments_json.as_str(), "{\"a\":1}");
            }
            other => panic!("unexpected content: {other:?}"),
        }
    }
    assert!(tool_call_script("", "read", "{}").is_none());
    assert!(tool_call_script("call_1", "read", "{").is_none());
}

#[test]
fn a_scripted_model_answers_in_order() {
    let config = model_config(id("prv_1"));
    assert_eq!(config.model, "conformance-model");
    let request = config
        .build(id("req_1"), id("ses_1"), vec![user_message("msg_1", "hi").unwrap()])
        .unwrap();
    let mut model =
        ScriptedLlm::new(id("prv_1"), vec![text_script("one"), text_script("two")]);
    assert_eq!(model.remaining_scripts(), 2);
    assert_eq!(model.stream(request), text_script("one"));
    assert_eq!(model.remaining_scripts(), 1);
    assert_eq!(model.requests.len(), 1);
}

#[test]
fn fixtures_have_the_agreed_content() {
    let message = user_message("msg_1", "hi").unwrap();
    assert_eq!(message.role, Role::User);
    assert!(user_message("", "hi").is_none());
    let tool = tool_definition("read", SideEffectClass::ReadOnly);
    assert_eq!(tool.description, "Batch 20 conformance tool read");
    assert_eq!(tool.default_timeout_ms, 5_000);
    assert!(JsonText::new(tool.input_schema.as_str().to_owned()).is_ok());

    let validator = ObjectValidator::default();
    assert_eq!(validator.validate(&JsonText::new("{}".to_owned()).unwrap()), Ok(()));
    assert_eq!(
        validator.validate(&JsonText::new("[]".to_owned()).unwrap()),
        Err("conformance tools require JSON object arguments".to_owned())
    );
    assert_eq!(validator.composition_identity(), "harness-conformance/object-validator/v1");
}

fn event(at: u64) -> SessionEvent {
    SessionEvent::committed(
        id("ses_1"),
        seq(at),
        NewSessionEvent::new(
            id(&format!("evt_{at}")),
            "2026-08-20T15:00:00Z".to_owned(),
            SessionEventPayload::TurnStarted { turn: TurnNo::first() },
        ),
    )
}

#[test]
fn pages_are_taken_up_to_the_head() {
    let mut events = Vec::new();
    assert_eq!(take_page(&mut events, vec![event(1), event(2)], seq(4)), Some(seq(3)));
    assert_eq!(take_page(&mut events, vec![event(3), event(4), event(5)], seq(4)), None);
    assert_eq!(events.iter().map(|event| event.seq.get()).collect::<Vec<_>>(), vec![1, 2, 3, 4]);
    let last = MAX_JSON_SAFE_INTEGER;
    assert_eq!(take_page(&mut events, vec![event(last)], seq(last)), None);
    assert_eq!(events.len(), 5);
}

#[test]
fn quiescence_counts_messages() {
    let mut projection = SessionProjection::default();
    projection.model_messages.push(user_message("msg_1", "hi").unwrap());
    let mut state = AgentState::from_bootstrap(
        id("agt_1"),
        AgentBootstrap {
            events: Vec::new(),
            head: SessionHead { session_id: id("ses_1"), seq: EventSeq::first() },
            projection,
            resume: ResumeDecision::Clean,
        },
    );
    assert!(is_quiescent(&state, 1));
    assert!(!is_quiescent(&state, 2));
    assert!(!awaits_approval(&state));
    state.projection.lifecycle.open_turn = Some(TurnNo::first());
    assert!(!is_quiescent(&state, 1));
}

#[test]
fn random_identities_have_a_prefix_and_a_simple_uuid() {
    let source = UuidIdentitySource;
    let cases = [
        (source.next_message_id(), source.next_message_id(), "msg_"),
        (source.next_event_id(), source.next_event_id(), "evt_"),
        (source.next_session_id(), source.next_session_id(), "ses_"),
        (source.next_agent_instance_id(), source.next_agent_instance_id(), "agt_"),
    ];
    for (first, second, prefix) in cases {
        let suffix = first.as_str().strip_prefix(prefix).unwrap();
        assert_eq!(suffix.len(), 32);
        assert!(suffix.chars().all(|c| c.is_ascii_digit() || ('a'..='f').contains(&c)));
        assert_eq!(&suffix[12..13], "4");
        assert_ne!(first, second);
    }
    assert_eq!(prefixed_with("evt", "1"), id("evt_1"));
}
