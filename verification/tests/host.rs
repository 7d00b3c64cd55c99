//! Hosting providers: conversion, binding, routing and slots.

use harness::host::adapter::{
    domain_block, domain_cancel_cause, domain_content, domain_side_effect, map_llm_stream_item,
    map_tool_outcome, tool_call_block, wire_cancel_cause, wire_content, wire_request,
    LlmStreamItem,
};
use harness::host::binding::{
    validate_tool_manifest, ProviderHostLlmAdapter, ProviderHostToolAdapter,
};
use harness::host::connection::{
    Inbound, PendingFailure, ProviderHost, ProviderHostConfig, ShutdownStart,
    RETIRED_RPC_ID_LIMIT,
};
use harness::host::error::{
    map_host_error, map_llm_host_error, map_stream_error, map_tool_host_error,
    ProviderAdapterError, ProviderHostError, ProviderSlotError, ProviderSlotStatus, ProviderState,
    ProviderStreamError,
};
use harness::host::slot::{manifest_shape, manifests_semantically_equal, ProviderSlot};
use harness::json::JsonText;
use harness::llm::request::{ModelOptions, ModelRequest, ModelToolSpec};
use harness::llm::stream::StreamEvent;
use harness::message::{ContentBlock, Message, MessageSource, ToolOutcome};
use harness::protocol::common::{
    WireBlobRef, WireCancelCauseKind, WireContentBlock, WireErrorCode, WirePortableError,
    WireTokenUsage,
};
use harness::protocol::jsonrpc::{RpcErrorObject, RpcId};
use harness::protocol::lifecycle::{PingResult, RuntimeInfo, ShutdownResult};
use harness::protocol::llm::{
    LlmEventParams, LlmStartResult, WireBlockType, WireFinishReason, WireLlmStreamEvent,
};
use harness::protocol::manifest::{
    CapabilityDescriptor, ProviderManifest, WireSideEffectClass, PROTOCOL_VERSION,
};
use harness::protocol::tool::{ProviderToolOutcome, ToolInvokeParams, ToolInvokeResult};
use harness::tools::{IdempotencySupport, ToolDefinition, ToolInvocation};
use harness::types::{
    CancelCause, ErrorCode, Identifier, Role, SideEffectClass, StepNo, TurnNo,
};

fn id(value: &str) -> Identifier {
    Identifier::new(value).unwrap()
}

fn json(value: &str) -> JsonText {
    JsonText::new(value.to_owned()).unwrap()
}

fn echo_tool() -> CapabilityDescriptor {
    CapabilityDescriptor::Tool {
        name: "echo".to_owned(),
        version: "1".to_owned(),
        parallel_safe: true,
        side_effect: WireSideEffectClass::ReadOnly,
        supports_idempotency_key: false,
    }
}

fn manifest(capabilities: Vec<CapabilityDescriptor>) -> ProviderManifest {
    ProviderManifest {
        provider_id: "provider".to_owned(),
        provider_version: "1.0.0".to_owned(),
        protocol_version: PROTOCOL_VERSION.to_owned(),
        capabilities,
    }
}

fn models(names: &[&str]) -> CapabilityDescriptor {
    CapabilityDescriptor::Llm { models: names.iter().map(|name| name.to_string()).collect() }
}

#[test]
fn manifest_compatibility_ignores_capability_and_model_order() {
    let tool = CapabilityDescriptor::Tool {
        name: "echo".to_owned(),
        version: "1".to_owned(),
        parallel_safe: true,
        side_effect: WireSideEffectClass::ReadOnly,
        supports_idempotency_key: false,
    };
    let left = ProviderManifest {
        provider_id: "provider".to_owned(),
        provider_version: "1.0.0".to_owned(),
        protocol_version: PROTOCOL_VERSION.to_owned(),
        capabilities: vec![
            tool.clone(),
            CapabilityDescriptor::Llm { models: vec!["b".to_owned(), "a".to_owned()] },
        ],
    };
    let right = ProviderManifest {
        provider_id: "provider".to_owned(),
        provider_version: "1.0.0".to_owned(),
        protocol_version: PROTOCOL_VERSION.to_owned(),
        capabilities: vec![
            CapabilityDescriptor::Llm { models: vec!["a".to_owned(), "b".to_owned()] },
            tool,
        ],
    };
    assert!(manifests_semantically_equal(&left, &right));
}

#[test]
fn manifests_that_declare_something_else_differ() {
    let base = manifest(vec![echo_tool(), models(&["a", "b"])]);
    assert!(manifests_semantically_equal(
        &base,
        &manifest(vec![models(&["b"]), models(&["a"]), echo_tool()])
    ));
    assert!(!manifests_semantically_equal(&base, &manifest(vec![echo_tool(), models(&["a"])])));
    assert!(!manifests_semantically_equal(&base, &manifest(vec![models(&["a", "b"])])));
    let mut versioned = base.clone();
    versioned.provider_version = "1.0.1".to_owned();
    assert!(!manifests_semantically_equal(&base, &versioned));
    let changed = CapabilityDescriptor::Tool {
        name: "echo".to_owned(),
        version: "1".to_owned(),
        parallel_safe: false,
        side_effect: WireSideEffectClass::ReadOnly,
        supports_idempotency_key: false,
    };
    assert!(!manifests_semantically_equal(&base, &manifest(vec![changed, models(&["a", "b"])])));
    let shape = manifest_shape(&base);
    assert_eq!(shape.tools.len(), 1);
    assert_eq!(shape.models, vec!["a".to_owned(), "b".to_owned()]);
}

#[test]
fn content_transcode_preserves_arguments_json_string() {
    let block = WireContentBlock::ToolCall {
        id: "call_1".to_owned(),
        name: "echo".to_owned(),
        arguments_json: r#"{"text":"hello"}"#.to_owned(),
    };
    let mapped: ContentBlock = domain_block(&block).unwrap();
    assert!(matches!(
        mapped,
        ContentBlock::ToolCall { id, name, arguments_json }
            if id.as_str() == "call_1"
                && name == "echo"
                && arguments_json.as_str() == r#"{"text":"hello"}"#
    ));
}

#[test]
fn content_survives_the_wire_both_ways() {
    let content = vec![
        ContentBlock::text("hi"),
        ContentBlock::Reasoning { text: "hm".to_owned() },
        ContentBlock::ToolResult {
            tool_call_id: id("call_1"),
            content: vec![ContentBlock::ToolCall {
                id: id("call_2"),
                name: "t".to_owned(),
                arguments_json: json("{ \"a\" : 1 }"),
            }],
            is_error: true,
        },
    ];
    assert_eq!(domain_content(&wire_content(&content)).unwrap(), content);
}

#[test]
fn content_that_cannot_be_taken_is_refused() {
    assert_eq!(
        domain_block(&WireContentBlock::ToolCall {
            id: String::new(),
            name: "t".to_owned(),
            arguments_json: "{}".to_owned(),
        }),
        Err("identifier must not be empty".to_owned())
    );
    let blob = |id: &str, sha256: String| WireBlobRef {
        id: id.to_owned(),
        sha256,
        size: 1,
        media_type: None,
    };
    let digest = "sha256 digest must contain exactly 64 lowercase hexadecimal characters";
    for (blob, obstacle) in [
        (blob("", "0".repeat(64)), "identifier must not be empty"),
        (blob("", String::new()), "identifier must not be empty"),
        (blob("b", "0".repeat(63)), digest),
        (blob("b", "A".repeat(64)), digest),
        (blob("b", "g".repeat(64)), digest),
    ] {
        assert_eq!(
            domain_block(&WireContentBlock::Image { blob: blob.clone() }),
            Err(obstacle.to_owned())
        );
        assert_eq!(
            map_tool_outcome(ProviderToolOutcome::Success {
                content: vec![WireContentBlock::Blob { blob: blob.clone() }],
            })
            .unwrap_err()
            .message,
            format!("failed to decode provider Tool content: {obstacle}")
        );
        assert_eq!(
            map_llm_stream_item(LlmStreamItem {
                seq: 1,
                event: WireLlmStreamEvent::BlockEnd {
                    index: 0,
                    block: WireContentBlock::Blob { blob },
                },
            })
            .unwrap_err()
            .message,
            format!("failed to decode provider ContentBlock: {obstacle}")
        );
    }
    match domain_block(&WireContentBlock::Image { blob: blob("b", "0123abcd".repeat(8)) }) {
        Ok(ContentBlock::Image { blob }) => assert_eq!(blob.sha256, "0123abcd".repeat(8)),
        other => panic!("unexpected outcome: {other:?}"),
    }
    assert_eq!(
        tool_call_block("", "t".to_owned(), "{".to_owned(), Err("bad".to_owned())),
        Err("bad".to_owned())
    );
    let nested = WireContentBlock::ToolResult {
        tool_call_id: "call_1".to_owned(),
        content: vec![WireContentBlock::ToolCall {
            id: "call_2".to_owned(),
            name: "t".to_owned(),
            arguments_json: "nope".to_owned(),
        }],
        is_error: false,
    };
    assert!(domain_block(&nested).is_err());
    assert_eq!(
        tool_call_block("c", "t".to_owned(), "{".to_owned(), Err("bad".to_owned())),
        Err("bad".to_owned())
    );
}

#[test]
fn causes_and_classes_go_over_the_wire_and_back() {
    for cause in [
        CancelCause::User,
        CancelCause::Parent,
        CancelCause::Timeout,
        CancelCause::Policy,
        CancelCause::Shutdown,
        CancelCause::Disposed,
    ] {
        assert_eq!(domain_cancel_cause(wire_cancel_cause(cause).kind), cause);
    }
    assert_eq!(
        domain_side_effect(WireSideEffectClass::IdempotentWrite),
        SideEffectClass::IdempotentWrite
    );
}

#[test]
fn requests_keep_everything_on_the_wire() {
    let request = ModelRequest {
        request_id: id("req_1"),
        session_id: id("ses_1"),
        provider: id("prv_1"),
        model: "m".to_owned(),
        system: Some("s".to_owned()),
        messages: vec![Message {
            id: id("msg_1"),
            role: Role::Assistant,
            source: MessageSource::Model { provider: id("prv_1"), model: "m".to_owned() },
            content: vec![ContentBlock::text("hi")],
        }],
        tools: vec![ModelToolSpec {
            name: "t".to_owned(),
            description: "d".to_owned(),
            input_schema: json("{}"),
        }],
        options: ModelOptions { max_output_tokens: Some(9) },
    };
    let wire = wire_request(&request);
    assert!(wire.validate().is_ok());
    assert_eq!(wire.request_id, "req_1");
    assert_eq!(wire.messages.len(), 1);
    assert_eq!(wire.messages[0].id, "msg_1");
    assert_eq!(wire.tools[0].input_schema.as_str(), "{}");
    assert_eq!(wire.options.max_output_tokens, Some(9));
}

#[test]
fn stream_items_become_domain_events() {
    let item = |seq: u64, event: WireLlmStreamEvent| LlmStreamItem { seq, event };
    let mapped = map_llm_stream_item(item(
        4,
        WireLlmStreamEvent::TextDelta { index: 1, text: "x".to_owned() },
    ))
    .unwrap();
    assert_eq!(mapped.seq.get(), 4);
    assert_eq!(mapped.event, StreamEvent::TextDelta { index: 1, text: "x".to_owned() });

    let failure = map_llm_stream_item(item(
        0,
        WireLlmStreamEvent::BlockStart { index: 0, block_type: WireBlockType::Text },
    ))
    .unwrap_err();
    assert_eq!(failure.code, ErrorCode::ProviderProtocolError);
    assert_eq!(
        failure.message,
        "provider LLM stream sequence cannot be represented by Harness: counter must start at one"
    );

    let failure = map_llm_stream_item(item(
        1,
        WireLlmStreamEvent::ToolCallDelta {
            index: 0,
            call_id: String::new(),
            name: None,
            arguments_delta: String::new(),
        },
    ))
    .unwrap_err();
    assert_eq!(
        failure.message,
        "provider emitted invalid ToolCallId: identifier must not be empty"
    );

    let mapped = map_llm_stream_item(item(
        2,
        WireLlmStreamEvent::Usage {
            usage: WireTokenUsage { input_tokens: 1, output_tokens: 2, extensions: Vec::new() },
        },
    ))
    .unwrap();
    assert!(matches!(mapped.event, StreamEvent::Usage(usage) if usage.output_tokens == 2));

    let mapped = map_llm_stream_item(item(
        3,
        WireLlmStreamEvent::Finish {
            reason: WireFinishReason::Error,
            failure: Some(WirePortableError {
                code: WireErrorCode::NotFound,
                message: "no model".to_owned(),
                details: Vec::new(),
            }),
        },
    ))
    .unwrap();
    assert!(matches!(
        mapped.event,
        StreamEvent::Finish(finish)
            if finish.failure.as_ref().is_some_and(|f| f.code == ErrorCode::NotFound)
    ));
}

#[test]
fn tool_outcomes_become_domain_outcomes() {
    assert_eq!(
        map_tool_outcome(ProviderToolOutcome::Cancelled { cause: WireCancelCauseKind::Policy }),
        Ok(ToolOutcome::Cancelled { cause: CancelCause::Policy })
    );
    assert_eq!(
        map_tool_outcome(ProviderToolOutcome::Error {
            code: "E".to_owned(),
            message: "m".to_owned(),
            content: vec![WireContentBlock::Text { text: "t".to_owned() }],
        }),
        Ok(ToolOutcome::Error {
            code: "E".to_owned(),
            message: "m".to_owned(),
            content: vec![ContentBlock::text("t")],
        })
    );
    let failure = map_tool_outcome(ProviderToolOutcome::Success {
        content: vec![WireContentBlock::ToolResult {
            tool_call_id: String::new(),
            content: Vec::new(),
            is_error: false,
        }],
    })
    .unwrap_err();
    assert_eq!(
        failure.message,
        "failed to decode provider Tool content: identifier must not be empty"
    );
}

#[test]
fn host_errors_are_reported_under_their_codes() {
    let code = |error: ProviderHostError| map_host_error(error, ErrorCode::Internal).code;
    assert_eq!(
        code(ProviderHostError::Protocol("x".to_owned())),
        ErrorCode::ProviderProtocolError
    );
    assert_eq!(code(ProviderHostError::Io("x".to_owned())), ErrorCode::ProviderUnavailable);
    assert_eq!(
        code(ProviderHostError::RequestTimeout { method: "m".to_owned() }),
        ErrorCode::DeadlineExceeded
    );
    assert_eq!(code(ProviderHostError::InvalidConfig("x".to_owned())), ErrorCode::InvalidArgument);
    let rpc = |code: i64| ProviderHostError::Rpc { code, message: "m".to_owned(), data: None };
    assert_eq!(code(rpc(-32602)), ErrorCode::InvalidArgument);
    assert_eq!(code(rpc(-32601)), ErrorCode::NotFound);
    assert_eq!(map_llm_host_error(rpc(-1)).code, ErrorCode::ModelRequestFailed);
    assert_eq!(map_tool_host_error(rpc(-1)).code, ErrorCode::ToolExecutionFailed);
    assert_eq!(
        map_tool_host_error(rpc(-32000)).message,
        "provider returned JSON-RPC error -32000: m"
    );
    assert_eq!(code(ProviderHostError::Serialize("x".to_owned())), ErrorCode::Internal);
    assert_eq!(
        map_stream_error(ProviderStreamError::ProviderUnavailable("gone".to_owned())).message,
        "gone"
    );
    assert_eq!(
        ProviderStreamError::Protocol("p".to_owned()).message(),
        "provider stream protocol violation: p"
    );
    assert_eq!(
        ProviderHostError::InvalidState {
            expected: ProviderState::Ready,
            actual: ProviderState::Stopped,
        }
        .message(),
        "provider state is Stopped, expected Ready"
    );
}

fn definition() -> ToolDefinition {
    ToolDefinition {
        name: "echo".to_owned(),
        description: "Echo".to_owned(),
        version: "1".to_owned(),
        input_schema: json("{}"),
        output_schema: None,
        side_effect: SideEffectClass::ReadOnly,
        parallel_safe: true,
        default_timeout_ms: 1_000,
    }
}

fn invocation(tool_name: &str) -> ToolInvocation {
    ToolInvocation {
        invocation_id: id("inv_1"),
        call_id: id("call_1"),
        session_id: id("ses_1"),
        turn: TurnNo::first(),
        step: StepNo::first(),
        tool_name: tool_name.to_owned(),
        arguments_json: json(r#"{"text":"x"}"#),
        attempt: 2,
        idempotency_key: id("idem_1"),
    }
}

#[test]
fn tools_are_bound_to_what_the_manifest_declares() {
    let manifest = manifest(vec![echo_tool()]);
    let adapter =
        ProviderHostToolAdapter::from_definition(Some(&manifest), &definition()).unwrap();
    assert_eq!(adapter.tool_name(), "echo");
    assert_eq!(adapter.manifest_side_effect(), SideEffectClass::ReadOnly);
    assert_eq!(adapter.idempotency_support, IdempotencySupport::Unsupported);
    assert_eq!(
        validate_tool_manifest(&manifest, &definition()),
        Ok(IdempotencySupport::Unsupported)
    );

    let params = adapter.invoke_params(invocation("echo")).unwrap();
    assert_eq!(params.operation_id, "inv_1");
    assert_eq!(params.arguments_json, r#"{"text":"x"}"#);
    assert_eq!(params.attempt, 2);
    assert!(params.validate().is_ok());
    assert_eq!(
        adapter.invoke_params(invocation("other")).unwrap_err().message,
        "ProviderHostToolAdapter is bound to echo, received other"
    );
}

#[test]
fn bindings_are_refused_for_each_fault() {
    let declared = manifest(vec![echo_tool()]);
    let name = "echo".to_owned();
    assert_eq!(
        ProviderHostToolAdapter::new(None, &String::new()),
        Err(ProviderAdapterError::EmptyToolName)
    );
    assert_eq!(
        ProviderHostToolAdapter::new(None, &name),
        Err(ProviderAdapterError::ManifestUnavailable)
    );
    assert_eq!(
        ProviderHostLlmAdapter::new(None),
        Err(ProviderAdapterError::ManifestUnavailable)
    );
    let mut unnamed = declared.clone();
    unnamed.provider_id = String::new();
    assert!(matches!(
        ProviderHostLlmAdapter::new(Some(&unnamed)),
        Err(ProviderAdapterError::InvalidProviderId { .. })
    ));
    assert_eq!(
        ProviderHostToolAdapter::new(Some(&declared), &"other".to_owned()),
        Err(ProviderAdapterError::ToolNotDeclared("other".to_owned()))
    );
    let mut drifted = definition();
    drifted.version = "2".to_owned();
    let error =
        ProviderHostToolAdapter::from_definition(Some(&declared), &drifted).unwrap_err();
    assert_eq!(
        error.message(),
        "Tool definition mismatch for echo: field version is \"2\" in Core but \"1\" in provider manifest"
    );
    let mut drifted = definition();
    drifted.side_effect = SideEffectClass::IdempotentWrite;
    assert!(matches!(
        validate_tool_manifest(&declared, &drifted),
        Err(ProviderAdapterError::DefinitionMismatch { field: "sideEffect", .. })
    ));
    let mut drifted = definition();
    drifted.parallel_safe = false;
    assert!(matches!(
        validate_tool_manifest(&declared, &drifted),
        Err(ProviderAdapterError::DefinitionMismatch { field: "parallelSafe", .. })
    ));
    assert_eq!(
        ProviderAdapterError::ManifestUnavailable.into_portable().message,
        "provider generation adapter is unavailable: provider manifest is not available"
    );
}

fn host_config() -> ProviderHostConfig {
    ProviderHostConfig::new(
        "provider",
        RuntimeInfo { name: "harness".to_owned(), version: "1".to_owned() },
    )
}

fn ready_host() -> ProviderHost {
    let mut host = ProviderHost::start(&host_config()).unwrap();
    assert_eq!(host.state(), ProviderState::Starting);
    host.initialized(manifest(vec![echo_tool(), models(&["m"])])).unwrap();
    assert_eq!(host.state(), ProviderState::Ready);
    host
}

#[test]
fn host_configurations_are_checked() {
    let config = host_config()
        .arg("--x")
        .env("A", "1")
        .env("B", "2")
        .env("A", "3")
        .current_dir("/tmp")
        .request_timeout(10)
        .shutdown_timeout(20);
    assert!(config.validate().is_ok());
    assert_eq!(config.args, vec!["--x".to_owned()]);
    assert_eq!(
        config.env,
        vec![("A".to_owned(), "3".to_owned()), ("B".to_owned(), "2".to_owned())]
    );
    assert_eq!(config.initialize_params().protocol_version, PROTOCOL_VERSION);
    assert!(host_config().request_timeout(0).validate().is_err());
    let mut bad = host_config();
    bad.program = String::new();
    assert_eq!(
        bad.validate().unwrap_err().message(),
        "invalid ProviderHost configuration: provider program must not be empty"
    );
    let mut bad = host_config();
    bad.runtime.name = "  ".to_owned();
    assert!(bad.validate().is_err());
    let mut bad = host_config();
    bad.stderr_history_lines = 0;
    assert!(ProviderHost::start(&bad).is_err());
}

#[test]
fn replies_find_their_requests() {
    let mut host = ready_host();
    let first = host.begin_request();
    let second = host.begin_request();
    assert_eq!(first.as_str(), "rpc_1");
    assert_eq!(second.as_str(), "rpc_2");
    let inbound = host
        .inbound_line("{\"jsonrpc\":\"2.0\",\"id\":\"rpc_2\",\"result\":{\"ok\":true}}\n")
        .unwrap();
    let Inbound::Reply { id, reply } = inbound else {
        panic!("expected a reply");
    };
    assert_eq!(id, second);
    assert_eq!(
        ProviderHost::take_reply("provider.ping", Some(reply)).unwrap().as_str(),
        r#"{"ok":true}"#
    );
    let inbound = host
        .inbound_line(
            r#"{"jsonrpc":"2.0","id":"rpc_1","error":{"code":-32601,"message":"no","data":[1]}}"#,
        )
        .unwrap();
    let Inbound::Reply { reply, .. } = inbound else {
        panic!("expected a reply");
    };
    assert_eq!(
        ProviderHost::take_reply("provider.ping", Some(reply)),
        Err(ProviderHostError::Rpc {
            code: -32601,
            message: "no".to_owned(),
            data: Some(json("[1]")),
        })
    );
    assert_eq!(
        host.inbound_line(r#"{"jsonrpc":"2.0","id":"rpc_1","result":null}"#),
        Err("provider response id rpc_1 does not correlate to an active request".to_owned())
    );
    assert_eq!(
        ProviderHost::take_reply("provider.ping", None).unwrap_err().message(),
        "provider is unavailable: response channel closed while waiting for provider.ping"
    );
}

#[test]
fn late_responses_are_dropped_once() {
    let mut host = ready_host();
    let late = host.begin_request();
    assert_eq!(
        host.request_timed_out(&late, "tool.invoke").message(),
        "provider request tool.invoke timed out"
    );
    let line = r#"{"jsonrpc":"2.0","id":"rpc_1","result":null}"#;
    assert_eq!(host.inbound_line(line), Ok(Inbound::Late));
    assert!(host.inbound_line(line).is_err());
}

#[test]
fn retired_requests_are_bounded() {
    let mut host = ready_host();
    for _ in 0..RETIRED_RPC_ID_LIMIT + 5 {
        let request = host.begin_request();
        let _ = host.request_timed_out(&request, "m");
    }
    assert_eq!(host.retired_rpc_ids.len(), RETIRED_RPC_ID_LIMIT);
    assert_eq!(host.retired_rpc_ids[0], RpcId::new("rpc_6").unwrap());
    assert!(host.pending.is_empty());
    let request = host.begin_request();
    host.abandon_request(&request);
    assert!(host.pending.is_empty());
}

#[test]
fn unexpected_messages_break_the_protocol() {
    let mut host = ready_host();
    assert_eq!(
        host.inbound_line(r#"{"jsonrpc":"2.0","method":"log","params":{}}"#),
        Err("provider sent unsupported notification method log".to_owned())
    );
    assert_eq!(
        host.inbound_line(r#"{"jsonrpc":"2.0","id":"a","method":"ask"}"#),
        Err(
            "provider-to-Core JSON-RPC requests are not supported in protocol v1: ask (a)"
                .to_owned()
        )
    );
    assert_eq!(host.inbound_line("\n"), Err("NDJSON frame is empty".to_owned()));
    host.max_stdout_line_bytes = 4;
    assert_eq!(
        host.inbound_line("héé"),
        Err("provider stdout frame exceeded 4 bytes".to_owned())
    );
}

fn started_stream(host: &mut ProviderHost) -> String {
    let request = ModelRequest {
        request_id: id("req_1"),
        session_id: id("ses_1"),
        provider: id("provider"),
        model: "m".to_owned(),
        system: None,
        messages: Vec::new(),
        tools: Vec::new(),
        options: ModelOptions { max_output_tokens: None },
    };
    let params = host.begin_llm("req_1".to_owned(), wire_request(&request), None).unwrap();
    params.stream_id
}

fn event(stream_id: &str, seq: u64, event: WireLlmStreamEvent) -> LlmEventParams {
    LlmEventParams { stream_id: stream_id.to_owned(), seq, event }
}

fn delta() -> WireLlmStreamEvent {
    WireLlmStreamEvent::TextDelta { index: 0, text: "x".to_owned() }
}

fn finish() -> WireLlmStreamEvent {
    WireLlmStreamEvent::Finish { reason: WireFinishReason::Completed, failure: None }
}

#[test]
fn events_reach_their_streams_in_order() {
    let mut host = ready_host();
    let first = started_stream(&mut host);
    let second = started_stream(&mut host);
    assert_eq!(first, "str_1");
    assert_eq!(second, "str_2");
    assert!(host
        .llm_started(
            &first,
            LlmStartResult { accepted: true, stream_id: first.clone(), reason: None },
        )
        .is_ok());
    let delivery = host.route_llm_event(event(&first, 1, delta())).unwrap();
    assert_eq!(delivery.stream_id, first);
    assert_eq!(delivery.item.seq, 1);
    host.route_llm_event(event(&second, 1, delta())).unwrap();
    host.route_llm_event(event(&first, 2, finish())).unwrap();
    assert_eq!(
        host.route_llm_event(event(&first, 3, delta())).unwrap_err().message,
        "llm.event references unknown streamId str_1"
    );
    let fault = host.route_llm_event(event(&second, 3, delta())).unwrap_err();
    assert_eq!(fault.message, "llm.event stream str_2 expected seq 2, received 3");
    assert!(fault.tells_stream);
    assert!(host.streams.is_empty());
    let fault = host.route_llm_event(event("", 1, delta())).unwrap_err();
    assert_eq!(fault.message, "invalid llm.event: LLM wire field streamId must not be empty");
    assert!(!fault.tells_stream);
}

#[test]
fn streams_are_refused_before_and_after_they_are_asked_for() {
    let mut starting = ProviderHost::start(&host_config()).unwrap();
    let request = wire_request(&ModelRequest {
        request_id: id("req_1"),
        session_id: id("ses_1"),
        provider: id("provider"),
        model: "unknown".to_owned(),
        system: None,
        messages: Vec::new(),
        tools: Vec::new(),
        options: ModelOptions { max_output_tokens: None },
    });
    let mut other = wire_request(&ModelRequest {
        request_id: id("req_1"),
        session_id: id("ses_1"),
        provider: id("elsewhere"),
        model: "m".to_owned(),
        system: None,
        messages: Vec::new(),
        tools: Vec::new(),
        options: ModelOptions { max_output_tokens: None },
    });
    other.system = Some("s".to_owned());
    let mut host = ready_host();
    assert_eq!(
        host.begin_llm("req_1".to_owned(), request, None).unwrap_err().message(),
        "invalid provider request: provider manifest does not declare LLM model unknown"
    );
    assert_eq!(
        host.begin_llm("req_1".to_owned(), other, None).unwrap_err().message(),
        "invalid provider request: LLM request provider elsewhere does not match manifest provider provider"
    );
    let stream = started_stream(&mut host);
    assert_eq!(stream, "str_3");
    let (error, failures) = host
        .llm_started(
            &stream,
            LlmStartResult { accepted: false, stream_id: stream.clone(), reason: None },
        )
        .unwrap_err();
    assert_eq!(error.message(), "provider rejected LLM stream: provider rejected LLM stream");
    assert!(failures.is_none() && host.streams.is_empty());
    let stream = started_stream(&mut host);
    let waiting = host.begin_request();
    let (error, failures) = host
        .llm_started(
            &stream,
            LlmStartResult { accepted: true, stream_id: "str_9".to_owned(), reason: None },
        )
        .unwrap_err();
    assert_eq!(
        error.message(),
        "provider protocol violation: llm.start echoed streamId str_9, expected str_4"
    );
    assert_eq!(failures.unwrap().pending, vec![waiting]);
    assert_eq!(host.state(), ProviderState::Unhealthy);
    assert!(matches!(
        starting.begin_llm(
            "x".to_owned(),
            wire_request(&ModelRequest {
                request_id: id("x"),
                session_id: id("s"),
                provider: id("provider"),
                model: "m".to_owned(),
                system: None,
                messages: Vec::new(),
                tools: Vec::new(),
                options: ModelOptions { max_output_tokens: None },
            }),
            None,
        ),
        Err(ProviderHostError::InvalidState { .. })
    ));
    assert_eq!(starting.next_stream_id, 1);
}

#[test]
fn a_fault_ends_everything_under_way() {
    let mut host = ready_host();
    let request = host.begin_request();
    let stream = started_stream(&mut host);
    let failures = host.protocol_fault("bad".to_owned());
    assert_eq!(failures.pending, vec![request]);
    assert_eq!(failures.streams[0].stream_id, stream);
    assert_eq!(failures.pending_failure, PendingFailure::Protocol("bad".to_owned()));
    assert_eq!(failures.stream_failure, ProviderStreamError::Protocol("bad".to_owned()));
    assert!(host.pending.is_empty() && host.streams.is_empty());
    assert_eq!(host.state(), ProviderState::Unhealthy);

    let mut host = ready_host();
    let (error, failures) = host.write_failed("pipe".to_owned());
    assert_eq!(error.message(), "provider process I/O failed: pipe");
    assert_eq!(
        failures.pending_failure,
        PendingFailure::Transport("provider stdin write failed: pipe".to_owned())
    );
    let mut host = ready_host();
    assert_eq!(
        host.read_failed("utf-8", true).stream_failure,
        ProviderStreamError::Protocol("provider stdout read failed: utf-8".to_owned())
    );
    let mut host = ready_host();
    let (error, _) = host.invalid_result("tool.invoke", "missing".to_owned());
    assert_eq!(error.message(), "failed to decode provider response result: missing");
}

#[test]
fn a_provider_stops_once() {
    let mut host = ready_host();
    assert_eq!(host.begin_shutdown(), ShutdownStart::AskFirst);
    assert_eq!(host.state(), ProviderState::Stopping);
    assert!(ProviderHost::shutdown_outcome(Ok(ShutdownResult { accepted: true })).is_ok());
    assert_eq!(
        ProviderHost::shutdown_outcome(Ok(ShutdownResult { accepted: false }))
            .unwrap_err()
            .message(),
        "provider returned an unexpected response: provider.shutdown returned accepted=false"
    );
    let failures = host.output_ended();
    assert_eq!(host.state(), ProviderState::Stopped);
    assert!(failures.pending.is_empty());
    let _ = host.protocol_fault("late".to_owned());
    assert_eq!(host.state(), ProviderState::Stopped);
    assert_eq!(host.begin_shutdown(), ShutdownStart::AlreadyStopped);

    let mut unready = ProviderHost::start(&host_config()).unwrap();
    assert_eq!(unready.begin_shutdown(), ShutdownStart::StopNow);
    let _ = unready.finish_shutdown();
    assert_eq!(unready.state(), ProviderState::Stopped);
}

#[test]
fn tool_calls_are_checked_on_the_way_out_and_back() {
    let mut host = ready_host();
    let mut params = ToolInvokeParams {
        operation_id: "inv_1".to_owned(),
        invocation_id: "inv_1".to_owned(),
        call_id: "call_1".to_owned(),
        session_id: "ses_1".to_owned(),
        tool: "echo".to_owned(),
        arguments_json: "{}".to_owned(),
        attempt: 1,
        idempotency_key: "idem".to_owned(),
        deadline: None,
    };
    assert!(host.begin_tool_call(&params).is_ok());
    params.tool = "other".to_owned();
    assert_eq!(
        host.begin_tool_call(&params).unwrap_err().message(),
        "invalid provider request: provider manifest does not declare tool other"
    );
    let good = ToolInvokeResult {
        outcome: ProviderToolOutcome::Success {
            content: vec![WireContentBlock::Text { text: "ok".to_owned() }],
        },
    };
    assert!(host.finish_tool_call(good).is_ok());
    let bad = ToolInvokeResult {
        outcome: ProviderToolOutcome::Error {
            code: String::new(),
            message: "m".to_owned(),
            content: Vec::new(),
        },
    };
    let (error, _) = host.finish_tool_call(bad).unwrap_err();
    assert_eq!(
        error.message(),
        "provider protocol violation: provider returned invalid tool.invoke result: tool result error outcome code must not be empty"
    );
    assert_eq!(host.state(), ProviderState::Unhealthy);
    assert!(matches!(
        host.cancel("op".to_owned(), wire_cancel_cause(CancelCause::User)),
        Err(ProviderHostError::InvalidState { .. })
    ));
}

#[test]
fn cancellations_and_pings_are_checked() {
    let host = ready_host();
    let params = host.cancel("op".to_owned(), wire_cancel_cause(CancelCause::Timeout)).unwrap();
    assert_eq!(params.cause.kind, WireCancelCauseKind::Timeout);
    assert_eq!(
        host.cancel(String::new(), wire_cancel_cause(CancelCause::User)).unwrap_err().message(),
        "invalid provider request: capability.cancel operationId must not be empty"
    );
    assert!(ProviderHost::ping_outcome(PingResult { ok: true }).is_ok());
    assert!(ProviderHost::ping_outcome(PingResult { ok: false }).is_err());
}

#[test]
fn error_output_is_bounded() {
    let mut config = host_config();
    config.stderr_history_lines = 2;
    let mut host = ProviderHost::start(&config).unwrap();
    for line in ["a", "b", "c"] {
        host.stderr_line(line.to_owned());
    }
    assert_eq!(*host.recent_stderr(), vec!["b".to_owned(), "c".to_owned()]);
    let mut bad = manifest(vec![echo_tool()]);
    bad.protocol_version = "9".to_owned();
    assert_eq!(
        host.initialized(bad).unwrap_err().message(),
        "provider manifest is invalid: unsupported provider protocol version 9"
    );
    assert!(host.manifest().is_none());
}

fn slot() -> ProviderSlot<u32> {
    ProviderSlot::new(id("provider"), 10, manifest(vec![echo_tool()])).unwrap()
}

#[test]
fn a_slot_goes_through_its_generations() {
    let mut slot = slot();
    assert_eq!(slot.status(), ProviderSlotStatus::Ready { generation: 1 });
    assert_eq!(slot.current().unwrap().host(), &10);
    assert!(!slot.mark_unavailable(2));
    assert!(!slot.observe(1, true, ProviderState::Ready));
    assert!(slot.observe(1, true, ProviderState::Unhealthy));
    assert_eq!(slot.status(), ProviderSlotStatus::Unavailable { generation: 1 });
    assert_eq!(slot.host_for_shutdown(), Some(&10));
    assert_eq!(slot.provider_id(), &id("provider"));
    assert_eq!(slot.baseline_manifest(), &manifest(vec![echo_tool()]));
    assert!(matches!(slot.poll_ready(), Ok(None)));
    assert_eq!(
        slot.replace(3, 11, manifest(vec![echo_tool()])).unwrap_err().message(),
        "provider slot expected generation 2, received 3"
    );
    assert_eq!(
        slot.replace(2, 11, manifest(vec![models(&["m"])])),
        Err(ProviderSlotError::ManifestDrift)
    );
    slot.replace(2, 11, manifest(vec![echo_tool()])).unwrap();
    assert_eq!(slot.poll_ready().unwrap().unwrap().generation(), 2);
    assert_eq!(
        slot.replace(3, 12, manifest(vec![echo_tool()])).unwrap_err().message(),
        "provider slot cannot transition from Ready { generation: 2 } to ready"
    );
    assert!(!slot.quarantine(1));
    assert!(slot.quarantine(2));
    assert_eq!(slot.poll_ready(), Err(ProviderSlotError::Quarantined { generation: 2 }));
    assert_eq!(slot.host_for_shutdown(), None);
    slot.mark_stopped();
    assert!(!slot.quarantine(2));
    assert_eq!(
        slot.poll_ready().unwrap_err().into_portable().message,
        "provider generation 2 is stopped"
    );
}

#[test]
fn a_slot_takes_its_own_provider_only() {
    assert_eq!(
        ProviderSlot::new(id("other"), 1, manifest(vec![echo_tool()])).unwrap_err().message(),
        "provider slot identity mismatch: expected other, manifest declared provider"
    );
    assert!(matches!(
        ProviderSlot::new(id("provider"), 1, manifest(vec![echo_tool(), echo_tool()])),
        Err(ProviderSlotError::InvalidManifest(_))
    ));
    let slot = slot();
    assert!(slot.manifest_compatible(&manifest(vec![echo_tool()])));
    assert!(!slot.manifest_compatible(&manifest(vec![echo_tool(), echo_tool()])));
}

#[test]
fn rpc_errors_carry_data() {
    let error = RpcErrorObject::new(RpcErrorObject::INTERNAL_ERROR, "m").with_data(json("1"));
    assert_eq!(
        ProviderHostError::rpc(error),
        ProviderHostError::Rpc { code: -32603, message: "m".to_owned(), data: Some(json("1")) }
    );
}
