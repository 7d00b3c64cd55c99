//! Model requests and the assembly of streamed answers.

use harness::agent::llm_runtime::{AgentLlmRuntime, DEFAULT_LLM_TIMEOUT_MS};
use harness::agent::operation::{
    model_timeout_failure, stream_step, tool_timeout_failure, StreamProgress,
};
use harness::conformance::{model_config, text_script, tool_call_script};
use harness::json::JsonText;
use harness::llm::assembler::{LlmStreamAssembler, LlmStreamOutcome, StreamAssemblyError};
use harness::llm::request::{
    ModelOptions, ModelRequestConfig, ModelRequestError, ModelToolSpec,
};
use harness::llm::stream::{
    BlockType, FinishEvent, FinishReason, SequencedStreamEvent, StreamEvent,
};
use harness::message::{ContentBlock, Message, MessageSource, PortableError, TokenUsage};
use harness::types::{ErrorCode, Identifier, Role, StreamSeq, ToolCallId};

fn seq(value: u64) -> StreamSeq {
    StreamSeq::new(value).unwrap()
}

fn id(value: &str) -> Identifier {
    Identifier::new(value).unwrap()
}

fn at(value: u64, event: StreamEvent) -> SequencedStreamEvent {
    SequencedStreamEvent::new(seq(value), event)
}

fn text_start(index: u32) -> StreamEvent {
    StreamEvent::BlockStart { index, block_type: BlockType::Text }
}

fn text_delta(index: u32, text: &str) -> StreamEvent {
    StreamEvent::TextDelta { index, text: text.to_owned() }
}

fn text_end(index: u32, text: &str) -> StreamEvent {
    StreamEvent::BlockEnd { index, block: ContentBlock::text(text) }
}

fn call_delta(index: u32, call_id: &str, name: Option<&str>, arguments: &str) -> StreamEvent {
    StreamEvent::ToolCallDelta {
        index,
        call_id: id(call_id),
        name: name.map(str::to_owned),
        arguments_delta: arguments.to_owned(),
    }
}

fn call_block(call_id: &str, name: &str, arguments: &str) -> ContentBlock {
    ContentBlock::ToolCall {
        id: id(call_id),
        name: name.to_owned(),
        arguments_json: JsonText::new(arguments.to_owned()).unwrap(),
    }
}

/// Pushes events numbered from one and gives the first error.
fn first_error(events: Vec<StreamEvent>) -> Option<StreamAssemblyError> {
    let mut assembler = LlmStreamAssembler::new();
    for (i, event) in events.into_iter().enumerate() {
        if let Err(error) = assembler.push(at(i as u64 + 1, event)) {
            return Some(error);
        }
    }
    None
}

#[test]
fn assembles_text_stream_and_requires_finish() {
    let mut assembler = LlmStreamAssembler::new();
    assembler.push(at(1, text_start(0))).unwrap();
    assembler.push(at(2, text_delta(0, "hel"))).unwrap();
    assembler.push(at(3, text_delta(0, "lo"))).unwrap();
    assembler.push(at(4, text_end(0, "hello"))).unwrap();
    assembler.push(at(5, StreamEvent::Finish(FinishEvent::completed()))).unwrap();

    let outcome = assembler.finish().unwrap();
    assert!(matches!(
        outcome,
        LlmStreamOutcome::Assistant { content, .. }
            if content == vec![ContentBlock::text("hello")]
    ));
}

#[test]
fn rejects_non_contiguous_stream_sequence() {
    let mut assembler = LlmStreamAssembler::new();
    let error = assembler
        .push(at(2, StreamEvent::Finish(FinishEvent::completed())))
        .unwrap_err();
    assert!(matches!(error, StreamAssemblyError::InvalidSequence { .. }));
    assert_eq!(
        error.message(),
        "stream sequence must start at 1 and increase by exactly one; expected 1, got 2"
    );
}

#[test]
fn assembler_cancelled_finish_requires_cancelled_error_code() {
    let mut assembler = LlmStreamAssembler::new();
    let error = assembler
        .push(at(
            1,
            StreamEvent::Finish(FinishEvent::cancelled(PortableError::new(
                ErrorCode::Internal,
                "wrong normalized code".to_owned(),
            ))),
        ))
        .unwrap_err();
    assert!(matches!(
        error,
        StreamAssemblyError::InvalidFinishFailure(FinishReason::Cancelled)
    ));
}

#[test]
fn validates_tool_call_delta_against_complete_block() {
    let call_id = ToolCallId::new("call_1").unwrap();
    let mut assembler = LlmStreamAssembler::new();
    assembler
        .push(at(1, StreamEvent::BlockStart { index: 0, block_type: BlockType::ToolCall }))
        .unwrap();
    assembler
        .push(at(
            2,
            StreamEvent::ToolCallDelta {
                index: 0,
                call_id: call_id.clone(),
                name: Some("read_file".to_owned()),
                arguments_delta: "{\"path\":".to_owned(),
            },
        ))
        .unwrap();
    assembler
        .push(at(
            3,
            StreamEvent::ToolCallDelta {
                index: 0,
                call_id: call_id.clone(),
                name: None,
                arguments_delta: "\"README.md\"}".to_owned(),
            },
        ))
        .unwrap();
    let block = ContentBlock::ToolCall {
        id: call_id,
        name: "read_file".to_owned(),
        arguments_json: JsonText::new(r#"{"path":"README.md"}"#.to_owned()).unwrap(),
    };
    assembler.push(at(4, StreamEvent::BlockEnd { index: 0, block })).unwrap();
    assembler.push(at(5, StreamEvent::Finish(FinishEvent::completed()))).unwrap();
    assert!(matches!(assembler.finish().unwrap(), LlmStreamOutcome::Assistant { .. }));
}

#[test]
fn blocks_come_out_in_the_order_of_their_indices() {
    let mut assembler = LlmStreamAssembler::new();
    let events = vec![
        text_start(7),
        text_start(2),
        text_delta(7, "late"),
        text_delta(2, "early"),
        text_end(7, "late"),
        text_end(2, "early"),
        StreamEvent::Usage(TokenUsage {
            input_tokens: 3,
            output_tokens: 4,
            extensions: Vec::new(),
        }),
        StreamEvent::Finish(FinishEvent::max_tokens()),
    ];
    for (i, event) in events.into_iter().enumerate() {
        assembler.push(at(i as u64 + 1, event)).unwrap();
    }
    let LlmStreamOutcome::Assistant { content, usage, finish_reason } = assembler.finish().unwrap()
    else {
        panic!("expected an answer");
    };
    assert_eq!(content, vec![ContentBlock::text("early"), ContentBlock::text("late")]);
    assert_eq!(usage.unwrap().output_tokens, 4);
    assert_eq!(finish_reason, FinishReason::MaxTokens);
}

#[test]
fn broken_streams_are_told_apart() {
    let done = || StreamEvent::Finish(FinishEvent::completed());
    let usage = || {
        StreamEvent::Usage(TokenUsage {
            input_tokens: 1,
            output_tokens: 1,
            extensions: Vec::new(),
        })
    };
    let tool_start = || StreamEvent::BlockStart { index: 0, block_type: BlockType::ToolCall };

    assert_eq!(
        first_error(vec![done(), text_start(0)]),
        Some(StreamAssemblyError::EventAfterFinish)
    );
    assert_eq!(
        first_error(vec![text_start(0), text_start(0)]),
        Some(StreamAssemblyError::DuplicateBlock(0))
    );
    assert_eq!(
        first_error(vec![text_delta(3, "x")]),
        Some(StreamAssemblyError::MissingOpenBlock(3))
    );
    assert_eq!(
        first_error(vec![
            text_start(0),
            StreamEvent::ReasoningDelta { index: 0, text: "x".to_owned() },
        ]),
        Some(StreamAssemblyError::DeltaKindMismatch(0))
    );
    assert!(matches!(
        first_error(vec![
            tool_start(),
            call_delta(0, "call_1", Some("t"), ""),
            call_delta(0, "call_2", None, ""),
        ]),
        Some(StreamAssemblyError::ToolCallIdChanged { index: 0, .. })
    ));
    assert!(matches!(
        first_error(vec![
            tool_start(),
            call_delta(0, "call_1", Some("t"), ""),
            call_delta(0, "call_1", Some("u"), ""),
        ]),
        Some(StreamAssemblyError::ToolCallNameChanged { index: 0, .. })
    ));
    let ended = || StreamEvent::BlockEnd { index: 0, block: call_block("call_1", "t", "{}") };
    assert_eq!(
        first_error(vec![tool_start(), ended()]),
        Some(StreamAssemblyError::MissingToolCallId(0))
    );
    assert_eq!(
        first_error(vec![tool_start(), call_delta(0, "call_1", None, "{}"), ended()]),
        Some(StreamAssemblyError::MissingToolCallName(0))
    );
    assert!(matches!(
        first_error(vec![tool_start(), call_delta(0, "call_1", Some("t"), "{"), ended()]),
        Some(StreamAssemblyError::InvalidToolCallJson { index: 0, .. })
    ));
    assert_eq!(
        first_error(vec![text_start(0), text_delta(0, "a"), text_end(0, "b")]),
        Some(StreamAssemblyError::BlockEndMismatch(0))
    );
    assert_eq!(first_error(vec![usage(), usage()]), Some(StreamAssemblyError::DuplicateUsage));
    assert_eq!(
        first_error(vec![text_start(0), usage()]),
        Some(StreamAssemblyError::UsageWhileBlockOpen)
    );
    assert_eq!(
        first_error(vec![text_start(0), done()]),
        Some(StreamAssemblyError::FinishWhileBlockOpen)
    );
    assert_eq!(
        LlmStreamAssembler::new().finish().unwrap_err(),
        StreamAssemblyError::MissingFinish
    );
}

#[test]
fn a_failed_stream_carries_its_failure() {
    let mut assembler = LlmStreamAssembler::new();
    let failure = PortableError::new(ErrorCode::ModelRequestFailed, "overloaded".to_owned());
    assembler.push(at(1, StreamEvent::Finish(FinishEvent::error(failure)))).unwrap();
    assert!(matches!(
        assembler.finish().unwrap(),
        LlmStreamOutcome::Failure { failure, finish_reason: FinishReason::Error }
            if failure.message == "overloaded"
    ));
}

#[test]
fn scripts_assemble_to_what_they_say() {
    for (script, expected) in [
        (text_script("hello"), ContentBlock::text("hello")),
        (
            tool_call_script("call_1", "echo", r#"{"text":"hi"}"#).unwrap(),
            call_block("call_1", "echo", r#"{"text":"hi"}"#),
        ),
    ] {
        let mut progress = StreamProgress::Open(LlmStreamAssembler::new());
        for item in script {
            let StreamProgress::Open(assembler) = progress else {
                panic!("stream ended early");
            };
            progress = stream_step(assembler, Some(item));
        }
        let StreamProgress::Open(assembler) = progress else {
            panic!("stream ended early");
        };
        let StreamProgress::Ended(Ok(LlmStreamOutcome::Assistant { content, .. })) =
            stream_step(assembler, None)
        else {
            panic!("expected an answer");
        };
        assert_eq!(content, vec![expected]);
    }
    assert!(tool_call_script("", "echo", "{}").is_none());
    assert!(tool_call_script("call_1", "echo", "{").is_none());
}

#[test]
fn a_stream_that_just_ends_breaks_the_protocol() {
    let StreamProgress::Ended(Err(failure)) = stream_step(LlmStreamAssembler::new(), None) else {
        panic!("expected a failure");
    };
    assert_eq!(failure.code, ErrorCode::ProviderProtocolError);
    assert_eq!(failure.message, "stream ended without exactly one finish event");

    let StreamProgress::Ended(Err(failure)) = stream_step(
        LlmStreamAssembler::new(),
        Some(Err(PortableError::new(ErrorCode::ProviderUnavailable, "gone".to_owned()))),
    ) else {
        panic!("expected a failure");
    };
    assert_eq!(failure.code, ErrorCode::ProviderUnavailable);
}

#[test]
fn request_duplicate_tool_names_are_rejected() {
    let tool = ModelToolSpec {
        name: "read_file".to_owned(),
        description: "read".to_owned(),
        input_schema: JsonText::new(r#"{"type":"object"}"#.to_owned()).unwrap(),
    };
    let config = ModelRequestConfig {
        provider: id("prv_test"),
        model: "model-x".to_owned(),
        system: None,
        tools: vec![tool.clone(), tool],
        options: ModelOptions::default(),
    };

    assert!(matches!(
        config.validate(),
        Err(ModelRequestError::DuplicateToolName(name)) if name == "read_file"
    ));
}

#[test]
fn requests_are_refused_for_each_fault() {
    let mut config = model_config(id("prv_test"));
    assert!(config.validate().is_ok());
    config.options.max_output_tokens = Some(0);
    assert_eq!(config.validate(), Err(ModelRequestError::ZeroMaxOutputTokens));
    config.tools.push(ModelToolSpec {
        name: String::new(),
        description: String::new(),
        input_schema: JsonText::new("{}".to_owned()).unwrap(),
    });
    assert_eq!(config.validate(), Err(ModelRequestError::ZeroMaxOutputTokens));
    config.options.max_output_tokens = None;
    assert_eq!(config.validate(), Err(ModelRequestError::EmptyToolName));
    config.model = String::new();
    assert_eq!(config.validate(), Err(ModelRequestError::EmptyModel));
    assert_eq!(ModelRequestError::EmptyModel.message(), "model name must not be empty");
}

#[test]
fn built_requests_keep_everything_that_was_configured() {
    let config = ModelRequestConfig {
        provider: id("prv_test"),
        model: "model-x".to_owned(),
        system: Some("system".to_owned()),
        tools: Vec::new(),
        options: ModelOptions { max_output_tokens: Some(128) },
    };
    let message = Message {
        id: id("msg_1"),
        role: Role::User,
        source: MessageSource::User,
        content: vec![ContentBlock::text("hello")],
    };
    let request = config.build(id("req_1"), id("ses_1"), vec![message.clone()]).unwrap();
    assert!(request.validate().is_ok());
    assert_eq!(request.request_id, id("req_1"));
    assert_eq!(request.session_id, id("ses_1"));
    assert_eq!(request.provider, id("prv_test"));
    assert_eq!(request.model, "model-x");
    assert_eq!(request.system, Some("system".to_owned()));
    assert_eq!(request.messages, vec![message]);
    assert_eq!(request.options.max_output_tokens, Some(128));
}

#[test]
fn a_model_runs_only_under_its_own_provider() {
    let runtime = AgentLlmRuntime::new(model_config(id("prv_a")), &id("prv_a")).unwrap();
    assert_eq!(runtime.timeout_ms(), DEFAULT_LLM_TIMEOUT_MS);
    assert_eq!(
        AgentLlmRuntime::new(model_config(id("prv_a")), &id("prv_b")).unwrap_err().message(),
        "configured LLM provider prv_a does not match runtime provider prv_b"
    );
    assert_eq!(
        runtime.with_timeout_ms(0).unwrap_err().message(),
        "LLM timeout must be greater than zero milliseconds"
    );
}

#[test]
fn operations_that_take_too_long_say_so() {
    let failure = model_timeout_failure(&id("req_1"), 250);
    assert_eq!(failure.code, ErrorCode::DeadlineExceeded);
    assert!(failure.message.contains("req_1") && failure.message.contains("250"));
    let failure = tool_timeout_failure(&id("inv_1"), &id("call_1"), 99);
    assert_eq!(failure.code, ErrorCode::DeadlineExceeded);
    assert!(failure.message.contains("call_1") && failure.message.contains("99"));
}
