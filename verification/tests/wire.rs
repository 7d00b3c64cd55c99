//! Every way in which the wire protocol refuses, and what it accepts.

use harness::json::JsonText;
use harness::protocol::codec::{
    decode_inbound_line, encode_ndjson, OutboundMessage, ProtocolCodecError,
};
use harness::protocol::common::{
    is_utc_rfc3339, CommonWireValidationError, WireBlobRef, WireContentBlock, WireErrorCode,
    WireMessage, WireMessageSource, WirePortableError, WireRole, WireTokenUsage,
};
use harness::protocol::jsonrpc::{
    InboundMessage, RpcErrorObject, RpcErrorResponse, RpcId, RpcNotification, RpcRequest,
    RpcResponseOutcome, RpcSuccessResponse,
};
use harness::protocol::common::WireCancelCauseKind;
use harness::protocol::llm::{
    LlmEventParams, LlmStartParams, LlmWireValidationError, WireFinishReason, WireLlmStreamEvent,
    WireModelOptions, WireModelRequest, WireModelToolSpec,
};
use harness::protocol::manifest::{
    CapabilityDescriptor, ManifestValidationError, ProviderManifest, WireSideEffectClass,
    PROTOCOL_VERSION,
};
use harness::protocol::tool::{
    ProviderToolOutcome, ToolInvokeParams, ToolInvokeResult, ToolInvokeValidationError,
};
use harness::types::MAX_JSON_SAFE_INTEGER;

fn json(text: &str) -> JsonText {
    JsonText::new(text.to_owned()).unwrap()
}

fn rpc_id(value: &str) -> RpcId {
    RpcId::new(value).unwrap()
}

fn encoded(message: OutboundMessage) -> String {
    String::from_utf8(encode_ndjson(&message).unwrap()).unwrap()
}

#[test]
fn frames_have_a_fixed_layout() {
    assert_eq!(
        encoded(OutboundMessage::Request(RpcRequest::new(
            rpc_id("rpc_1"),
            "provider.ping",
            json("{ \"b\" : [ 1 , \"x\\ny\" ] }"),
        ))),
        "{\"jsonrpc\":\"2.0\",\"id\":\"rpc_1\",\"method\":\"provider.ping\",\"params\":\
         {\"b\":[1,\"x\\ny\"]}}\n"
    );
    assert_eq!(
        encoded(OutboundMessage::Notification(RpcNotification::new("a.b", json("null")))),
        "{\"jsonrpc\":\"2.0\",\"method\":\"a.b\",\"params\":null}\n"
    );
    assert_eq!(
        encoded(OutboundMessage::Success(RpcSuccessResponse::new(rpc_id("a\"b"), json("true")))),
        "{\"jsonrpc\":\"2.0\",\"id\":\"a\\\"b\",\"result\":true}\n"
    );
    let error = RpcErrorObject::new(-32601, "line\nbreak").with_data(json("[ ]"));
    assert_eq!(
        encoded(OutboundMessage::Error(RpcErrorResponse::new(rpc_id("r"), error))),
        "{\"jsonrpc\":\"2.0\",\"id\":\"r\",\"error\":{\"code\":-32601,\"message\":\"line\\nbreak\",\
         \"data\":[]}}\n"
    );
}

#[test]
fn what_is_written_can_be_read() {
    let line = encoded(OutboundMessage::Request(RpcRequest::new(
        rpc_id("rpc_1"),
        "tool.invoke",
        json("{\"a\":1}"),
    )));
    match decode_inbound_line(&line).unwrap() {
        InboundMessage::Request(request) => {
            assert_eq!(request.id.as_str(), "rpc_1");
            assert_eq!(request.method, "tool.invoke");
            assert_eq!(request.params.as_str(), "{\"a\":1}");
        }
        other => panic!("unexpected message: {other:?}"),
    }
    let line = encoded(OutboundMessage::Error(RpcErrorResponse::new(
        rpc_id("rpc_2"),
        RpcErrorObject::new(7, "no"),
    )));
    match decode_inbound_line(&line).unwrap() {
        InboundMessage::Response(response) => match response.outcome {
            RpcResponseOutcome::Error(error) => {
                assert_eq!(error.code, 7);
                assert_eq!(error.message, "no");
                assert!(error.data.is_none());
            }
            other => panic!("unexpected outcome: {other:?}"),
        },
        other => panic!("unexpected message: {other:?}"),
    }
}

#[test]
fn lines_that_are_no_message_are_refused() {
    let cases = [
        ("\r\n", ProtocolCodecError::EmptyFrame),
        ("{}\n{}", ProtocolCodecError::MultipleFrames),
        ("[]", ProtocolCodecError::EnvelopeMustBeObject),
        ("{\"id\":\"a\",\"result\":1}", ProtocolCodecError::InvalidJsonRpcVersion),
        (
            "{\"jsonrpc\":\"1.0\",\"id\":\"a\",\"result\":1}",
            ProtocolCodecError::InvalidJsonRpcVersion,
        ),
        ("{\"jsonrpc\":\"2.0\",\"result\":1}", ProtocolCodecError::MissingResponseId),
        (
            "{\"jsonrpc\":\"2.0\",\"id\":null,\"result\":1}",
            ProtocolCodecError::RpcIdMustBeString,
        ),
        ("{\"jsonrpc\":\"2.0\",\"method\":\"\"}", ProtocolCodecError::EmptyMethod),
        ("{\"jsonrpc\":\"2.0\",\"id\":\"a\"}", ProtocolCodecError::InvalidResponseShape),
        (
            "{\"jsonrpc\":\"2.0\",\"id\":\"a\",\"result\":1,\"error\":{\"code\":1,\"message\":\"m\"}}",
            ProtocolCodecError::InvalidResponseShape,
        ),
    ];
    for (line, error) in cases {
        assert_eq!(decode_inbound_line(line).unwrap_err(), error, "{line}");
    }
    for line in [
        "{",
        "{\"jsonrpc\":\"2.0\",\"id\":\"a\",\"error\":1}",
        "{\"jsonrpc\":\"2.0\",\"id\":\"a\",\"error\":{\"message\":\"m\"}}",
        "{\"jsonrpc\":\"2.0\",\"id\":\"a\",\"error\":{\"code\":1.5,\"message\":\"m\"}}",
        "{\"jsonrpc\":\"2.0\",\"id\":\"a\",\"error\":{\"code\":1,\"message\":2}}",
    ] {
        let error = decode_inbound_line(line).unwrap_err();
        assert!(matches!(error, ProtocolCodecError::Deserialize(_)), "{line}");
        assert!(error.message().starts_with("cannot decode JSON-RPC message: "));
    }
    assert_eq!(
        ProtocolCodecError::EmptyFrame.message(),
        "NDJSON frame is empty"
    );
}

#[test]
fn notifications_have_no_id() {
    match decode_inbound_line("{\"jsonrpc\":\"2.0\",\"method\":\"llm.event\"}\r\n").unwrap() {
        InboundMessage::Notification(notification) => {
            assert_eq!(notification.method, "llm.event");
            assert_eq!(notification.params.as_str(), "null");
        }
        other => panic!("unexpected message: {other:?}"),
    }
}

fn blob() -> WireBlobRef {
    WireBlobRef {
        id: "blob_1".to_owned(),
        sha256: "0123456789abcdef".repeat(4),
        size: 1,
        media_type: Some("text/plain".to_owned()),
    }
}

#[test]
fn blobs_name_their_content() {
    assert_eq!(blob().validate(), Ok(()));
    let mut unnamed = blob();
    unnamed.id.clear();
    assert_eq!(unnamed.validate(), Err(CommonWireValidationError::EmptyField("blob.id")));
    assert_eq!(unnamed.validate().unwrap_err().message(), "wire field blob.id must not be empty");
    let mut short = blob();
    short.sha256.pop();
    assert_eq!(short.validate(), Err(CommonWireValidationError::InvalidSha256));
    let mut large = blob();
    large.size = MAX_JSON_SAFE_INTEGER + 1;
    assert_eq!(
        large.validate(),
        Err(CommonWireValidationError::UnsafeJsonInteger("blob.size"))
    );
    let mut untyped = blob();
    untyped.media_type = Some(String::new());
    assert_eq!(untyped.validate(), Err(CommonWireValidationError::EmptyField("blob.mediaType")));
}

#[test]
fn content_is_checked_to_the_bottom() {
    let nested = WireContentBlock::ToolResult {
        tool_call_id: "call_1".to_owned(),
        content: vec![
            WireContentBlock::Text { text: String::new() },
            WireContentBlock::ToolResult {
                tool_call_id: String::new(),
                content: Vec::new(),
                is_error: false,
            },
        ],
        is_error: false,
    };
    assert_eq!(
        nested.validate(),
        Err(CommonWireValidationError::EmptyField("toolResult.toolCallId"))
    );
    let call = |id: &str, name: &str, arguments: &str| {
        WireContentBlock::ToolCall {
            id: id.to_owned(),
            name: name.to_owned(),
            arguments_json: arguments.to_owned(),
        }
        .validate()
    };
    assert_eq!(call("", "n", "{}"), Err(CommonWireValidationError::EmptyField("toolCall.id")));
    assert_eq!(call("c", "", "{}"), Err(CommonWireValidationError::EmptyField("toolCall.name")));
    assert!(matches!(
        call("c", "n", "{"),
        Err(CommonWireValidationError::InvalidArgumentsJson(_))
    ));
    assert_eq!(call("c", "n", "[]"), Ok(()));
    assert_eq!(WireContentBlock::Image { blob: blob() }.validate(), Ok(()));
}

fn message() -> WireMessage {
    WireMessage {
        id: "msg_1".to_owned(),
        role: WireRole::User,
        source: WireMessageSource::User,
        content: vec![WireContentBlock::Text { text: "hi".to_owned() }],
    }
}

#[test]
fn messages_failures_and_usage_are_checked() {
    assert_eq!(message().validate(), Ok(()));
    let mut unnamed = message();
    unnamed.id.clear();
    assert_eq!(unnamed.validate(), Err(CommonWireValidationError::EmptyField("message.id")));
    let mut modelled = message();
    modelled.source = WireMessageSource::Model { provider: String::new(), model: "m".to_owned() };
    assert_eq!(
        modelled.validate(),
        Err(CommonWireValidationError::EmptyField("message.source.provider"))
    );
    modelled.source = WireMessageSource::Model { provider: "p".to_owned(), model: String::new() };
    assert_eq!(
        modelled.validate(),
        Err(CommonWireValidationError::EmptyField("message.source.model"))
    );
    assert_eq!(
        failure(WireErrorCode::Internal, "").validate(),
        Err(CommonWireValidationError::EmptyField("error.message"))
    );
    let usage = |input_tokens: u64, output_tokens: u64| WireTokenUsage {
        input_tokens,
        output_tokens,
        extensions: Vec::new(),
    };
    assert_eq!(usage(1, MAX_JSON_SAFE_INTEGER).validate(), Ok(()));
    assert_eq!(
        usage(u64::MAX, 0).validate(),
        Err(CommonWireValidationError::UnsafeJsonInteger("usage.inputTokens"))
    );
    assert_eq!(
        usage(0, u64::MAX).validate(),
        Err(CommonWireValidationError::UnsafeJsonInteger("usage.outputTokens"))
    );
}

#[test]
fn only_utc_times_are_utc() {
    assert!(is_utc_rfc3339("2026-08-20T04:00:00Z"));
    assert!(is_utc_rfc3339("2026-08-20T04:00:00+00:00"));
    assert!(!is_utc_rfc3339("2026-08-20T04:00:00-00:30"));
    assert!(!is_utc_rfc3339("2026-08-20"));
    assert!(!is_utc_rfc3339(""));
}

fn tool(name: &str, version: &str, side_effect: WireSideEffectClass) -> CapabilityDescriptor {
    CapabilityDescriptor::Tool {
        name: name.to_owned(),
        version: version.to_owned(),
        parallel_safe: true,
        side_effect,
        supports_idempotency_key: false,
    }
}

fn manifest(capabilities: Vec<CapabilityDescriptor>) -> ProviderManifest {
    ProviderManifest {
        provider_id: "prv_1".to_owned(),
        provider_version: "1".to_owned(),
        protocol_version: PROTOCOL_VERSION.to_owned(),
        capabilities,
    }
}

#[test]
fn manifests_are_refused_for_one_reason() {
    let read = WireSideEffectClass::ReadOnly;
    let write = WireSideEffectClass::IdempotentWrite;
    let models = |names: &[&str]| CapabilityDescriptor::Llm {
        models: names.iter().map(|name| name.to_string()).collect(),
    };
    let good = manifest(vec![tool("a", "1", read), models(&["m", "n"])]);
    assert_eq!(good.validate(), Ok(()));
    assert!(good.declares_tool(&"a".to_owned()));
    assert!(!good.declares_tool(&"m".to_owned()));
    assert!(good.declares_model(&"n".to_owned()));

    let cases = [
        (vec![tool(" ", "1", read)], ManifestValidationError::EmptyToolName),
        (
            vec![tool("a", "", read)],
            ManifestValidationError::EmptyToolVersion("a".to_owned()),
        ),
        (
            vec![tool("a", "1", write)],
            ManifestValidationError::IdempotentWriteWithoutKeySupport("a".to_owned()),
        ),
        (vec![models(&[])], ManifestValidationError::EmptyModelSet),
        (vec![models(&[""])], ManifestValidationError::EmptyModelName),
        (
            vec![models(&["m"]), models(&["n", "m"])],
            ManifestValidationError::DuplicateModel("m".to_owned()),
        ),
    ];
    for (capabilities, error) in cases {
        assert_eq!(manifest(capabilities).validate(), Err(error));
    }
    let mut nameless = manifest(Vec::new());
    nameless.provider_id = "  ".to_owned();
    assert_eq!(nameless.validate(), Err(ManifestValidationError::EmptyProviderId));
    let mut versionless = manifest(Vec::new());
    versionless.provider_version.clear();
    assert_eq!(versionless.validate(), Err(ManifestValidationError::EmptyProviderVersion));
    let mut foreign = manifest(Vec::new());
    foreign.protocol_version = "9.9".to_owned();
    assert_eq!(
        foreign.validate().unwrap_err().message(),
        "unsupported provider protocol version 9.9"
    );
}

fn params() -> ToolInvokeParams {
    ToolInvokeParams {
        operation_id: "inv_1".to_owned(),
        invocation_id: "inv_1".to_owned(),
        call_id: "call_1".to_owned(),
        session_id: "ses_1".to_owned(),
        tool: "read".to_owned(),
        arguments_json: "{}".to_owned(),
        attempt: 1,
        idempotency_key: "idem_1".to_owned(),
        deadline: Some("2026-08-20T04:00:00Z".to_owned()),
    }
}

#[test]
fn invocations_are_checked_field_by_field() {
    assert_eq!(params().validate(), Ok(()));
    let mut p = params();
    p.tool.clear();
    assert_eq!(p.validate(), Err(ToolInvokeValidationError::EmptyField("tool")));
    let mut p = params();
    p.operation_id = "inv_2".to_owned();
    assert_eq!(p.validate(), Err(ToolInvokeValidationError::OperationInvocationMismatch));
    let mut p = params();
    p.attempt = 0;
    assert_eq!(p.validate(), Err(ToolInvokeValidationError::ZeroAttempt));
    let mut p = params();
    p.deadline = Some(String::new());
    assert_eq!(p.validate(), Err(ToolInvokeValidationError::EmptyDeadline));
    let mut p = params();
    p.deadline = Some("tomorrow".to_owned());
    assert_eq!(
        p.validate().unwrap_err().message(),
        "tool.invoke deadline must be RFC3339 with a UTC offset"
    );
}

#[test]
fn results_are_checked() {
    let result = |outcome: ProviderToolOutcome| ToolInvokeResult { outcome }.validate();
    let failed = |code: &str, message: &str| ProviderToolOutcome::Error {
        code: code.to_owned(),
        message: message.to_owned(),
        content: Vec::new(),
    };
    assert_eq!(result(failed("E", "m")), Ok(()));
    assert_eq!(
        result(failed("", "m")),
        Err(ToolInvokeValidationError::EmptyOutcomeErrorCode)
    );
    assert_eq!(
        result(failed("E", "")),
        Err(ToolInvokeValidationError::EmptyOutcomeErrorMessage)
    );
    let mut broken = blob();
    broken.sha256.clear();
    assert_eq!(
        result(ProviderToolOutcome::Success {
            content: vec![WireContentBlock::Blob { blob: broken }],
        }),
        Err(ToolInvokeValidationError::InvalidOutcomeContent(
            "blob sha256 must contain exactly 64 lowercase hexadecimal characters".to_owned()
        ))
    );
    assert_eq!(
        result(ProviderToolOutcome::Cancelled { cause: WireCancelCauseKind::User }),
        Ok(())
    );
}

fn failure(code: WireErrorCode, message: &str) -> WirePortableError {
    WirePortableError { code, message: message.to_owned(), details: Vec::new() }
}

#[test]
fn llm_cancelled_finish_requires_cancelled_error_code() {
    let event = WireLlmStreamEvent::Finish {
        reason: WireFinishReason::Cancelled,
        failure: Some(failure(WireErrorCode::Internal, "wrong")),
    };
    assert!(matches!(
        event.validate(),
        Err(LlmWireValidationError::CancelledFinishWrongCode)
    ));
}

#[test]
fn a_finish_agrees_with_its_failure() {
    let finish = |reason: WireFinishReason, failure: Option<WirePortableError>| {
        WireLlmStreamEvent::Finish { reason, failure }.validate()
    };
    let cancelled = || Some(failure(WireErrorCode::Cancelled, "stop"));
    assert_eq!(finish(WireFinishReason::Completed, None), Ok(()));
    assert_eq!(finish(WireFinishReason::Cancelled, cancelled()), Ok(()));
    assert_eq!(
        finish(WireFinishReason::MaxTokens, cancelled()),
        Err(LlmWireValidationError::SuccessFinishHasFailure)
    );
    assert_eq!(
        finish(WireFinishReason::Error, None),
        Err(LlmWireValidationError::FailureFinishMissingFailure)
    );
    assert_eq!(
        finish(WireFinishReason::Error, cancelled()),
        Err(LlmWireValidationError::ErrorFinishCancelledCode)
    );
    assert!(matches!(
        finish(WireFinishReason::Error, Some(failure(WireErrorCode::Internal, ""))),
        Err(LlmWireValidationError::InvalidFailure(_))
    ));
}

fn request() -> WireModelRequest {
    WireModelRequest {
        request_id: "req_1".to_owned(),
        session_id: "ses_1".to_owned(),
        provider: "prv_1".to_owned(),
        model: "m".to_owned(),
        system: None,
        messages: vec![message()],
        tools: vec![WireModelToolSpec {
            name: "read".to_owned(),
            description: String::new(),
            input_schema: json("{}"),
        }],
        options: WireModelOptions { max_output_tokens: Some(1) },
    }
}

fn start() -> LlmStartParams {
    LlmStartParams {
        operation_id: "req_1".to_owned(),
        stream_id: "stream_1".to_owned(),
        request: request(),
        deadline: None,
    }
}

#[test]
fn requests_and_starts_are_checked() {
    assert_eq!(request().validate(), Ok(()));
    assert_eq!(start().validate(), Ok(()));

    let mut r = request();
    r.model.clear();
    assert_eq!(r.validate(), Err(LlmWireValidationError::EmptyField("model")));
    let mut r = request();
    r.options.max_output_tokens = Some(0);
    assert_eq!(r.validate(), Err(LlmWireValidationError::ZeroMaxOutputTokens));
    let mut r = request();
    r.messages[0].id.clear();
    assert_eq!(
        r.validate().unwrap_err().message(),
        "LLM message is invalid: wire field message.id must not be empty"
    );
    let mut r = request();
    r.tools[0].name.clear();
    assert_eq!(r.validate(), Err(LlmWireValidationError::EmptyToolName));
    let mut r = request();
    r.tools[0].input_schema = json("[]");
    assert_eq!(
        r.validate(),
        Err(LlmWireValidationError::ToolSchemaNotObject("read".to_owned()))
    );
    let mut r = request();
    r.tools.push(WireModelToolSpec {
        name: "read".to_owned(),
        description: "again".to_owned(),
        input_schema: json("{}"),
    });
    assert_eq!(
        r.validate(),
        Err(LlmWireValidationError::DuplicateToolName("read".to_owned()))
    );

    let mut s = start();
    s.operation_id = "other".to_owned();
    assert_eq!(s.validate(), Err(LlmWireValidationError::OperationRequestMismatch));
    let mut s = start();
    s.deadline = Some(String::new());
    assert_eq!(s.validate(), Err(LlmWireValidationError::EmptyDeadline));
    let mut s = start();
    s.deadline = Some("2026-08-20T04:00:00+01:00".to_owned());
    assert_eq!(s.validate(), Err(LlmWireValidationError::InvalidDeadline));
    s.deadline = Some("2026-08-20T04:00:00Z".to_owned());
    assert_eq!(s.validate(), Ok(()));
}

#[test]
fn stream_events_are_checked() {
    let event = |seq: u64, event: WireLlmStreamEvent| {
        LlmEventParams { stream_id: "stream_1".to_owned(), seq, event }.validate()
    };
    let text = || WireLlmStreamEvent::TextDelta { index: 0, text: "x".to_owned() };
    assert_eq!(event(1, text()), Ok(()));
    assert_eq!(event(0, text()), Err(LlmWireValidationError::ZeroStreamSequence));
    assert_eq!(
        event(MAX_JSON_SAFE_INTEGER + 1, text()),
        Err(LlmWireValidationError::StreamSequenceTooLarge)
    );
    let delta = |call_id: &str, name: Option<&str>| WireLlmStreamEvent::ToolCallDelta {
        index: 0,
        call_id: call_id.to_owned(),
        name: name.map(str::to_owned),
        arguments_delta: String::new(),
    };
    assert_eq!(event(1, delta("", None)), Err(LlmWireValidationError::EmptyToolCallId));
    assert_eq!(event(1, delta("c", Some(""))), Err(LlmWireValidationError::EmptyToolCallName));
    assert!(!text().is_finish());
    let end = WireLlmStreamEvent::BlockEnd {
        index: 0,
        block: WireContentBlock::ToolCall {
            id: String::new(),
            name: "n".to_owned(),
            arguments_json: "{}".to_owned(),
        },
    };
    assert!(matches!(event(1, end), Err(LlmWireValidationError::InvalidContent(_))));
    let usage = WireLlmStreamEvent::Usage {
        usage: WireTokenUsage {
            input_tokens: u64::MAX,
            output_tokens: 0,
            extensions: Vec::new(),
        },
    };
    assert!(matches!(event(1, usage), Err(LlmWireValidationError::InvalidUsage(_))));
}

fn error_fault(error: &str) -> String {
    let line = format!("{{\"jsonrpc\":\"2.0\",\"id\":\"a\",\"error\":{error}}}");
    match decode_inbound_line(&line) {
        Err(ProtocolCodecError::Deserialize(message)) => message,
        other => panic!("unexpected outcome for {error}: {other:?}"),
    }
}

#[test]
fn faulty_error_objects_are_named() {
    let cases = [
        ("null", "invalid type: null, expected struct RpcErrorObject"),
        ("true", "invalid type: boolean `true`, expected struct RpcErrorObject"),
        ("-3", "invalid type: integer `-3`, expected struct RpcErrorObject"),
        ("2.50", "invalid type: floating point `2.5`, expected struct RpcErrorObject"),
        ("\"a\\\"b\"", "invalid type: string \"a\\\"b\", expected struct RpcErrorObject"),
        ("{}", "missing field `code`"),
        ("{\"code\":1}", "missing field `message`"),
        ("{\"message\":\"m\"}", "missing field `code`"),
        ("{\"message\":[]}", "invalid type: sequence, expected a string"),
        ("{\"code\":{},\"message\":2}", "invalid type: map, expected i64"),
        (
            "{\"code\":18446744073709551615,\"message\":\"m\"}",
            "invalid value: integer `18446744073709551615`, expected i64",
        ),
        ("[]", "invalid length 0, expected struct RpcErrorObject with 3 elements"),
        ("[1]", "invalid length 1, expected struct RpcErrorObject with 3 elements"),
        ("[1,\"m\"]", "invalid length 2, expected struct RpcErrorObject with 3 elements"),
        ("[1,\"m\",null,4]", "invalid length 4, expected fewer elements in array"),
        ("[1,2]", "invalid type: integer `2`, expected a string"),
    ];
    for (error, fault) in cases {
        assert_eq!(error_fault(error), fault, "{error}");
    }
}

#[test]
fn complaints_about_fields_are_those_of_the_reader() {
    for value in ["null", "false", "1.0", "1e300", "-0.0", "\"x\\n\"", "[1]", "{\"a\":1}"] {
        let read: serde_json::Value = serde_json::from_str(value).unwrap();
        let code = serde_json::from_value::<i64>(read.clone()).unwrap_err().to_string();
        assert_eq!(error_fault(&format!("{{\"code\":{value},\"message\":\"m\"}}")), code);
        if !value.starts_with('"') {
            let message = serde_json::from_value::<String>(read).unwrap_err().to_string();
            assert_eq!(error_fault(&format!("{{\"code\":1,\"message\":{value}}}")), message);
        }
    }
}

#[test]
fn errors_may_come_as_rows() {
    let line = "{\"jsonrpc\":\"2.0\",\"id\":\"a\",\"error\":[-5,\"m\",{\"k\":1}]}";
    match decode_inbound_line(line).unwrap() {
        InboundMessage::Response(response) => match response.outcome {
            RpcResponseOutcome::Error(error) => {
                assert_eq!(error.code, -5);
                assert_eq!(error.message, "m");
                assert_eq!(error.data.unwrap().as_str(), "{\"k\":1}");
            }
            other => panic!("unexpected outcome: {other:?}"),
        },
        other => panic!("unexpected message: {other:?}"),
    }
}

#[test]
fn every_kind_of_message_is_read_back() {
    let odd = "quote \" backslash \\ tab \t bell \u{7} unit \u{1f} del \u{7f} e\u{301} \u{1f600}\r\n";
    let line = encoded(OutboundMessage::Request(RpcRequest::new(
        rpc_id(odd),
        odd,
        json("{ \"z\" : [1, -2, \"\\u0041\"], \"a\" : null }"),
    )));
    assert!(line.contains("bell \\u0007 unit \\u001f del \u{7f}"));
    match decode_inbound_line(&line).unwrap() {
        InboundMessage::Request(request) => {
            assert_eq!(request.id.as_str(), odd);
            assert_eq!(request.method, odd);
            assert_eq!(request.params.as_str(), "{\"a\":null,\"z\":[1,-2,\"A\"]}");
        }
        other => panic!("unexpected message: {other:?}"),
    }
    let line = encoded(OutboundMessage::Notification(RpcNotification::new("m", json("[0]"))));
    match decode_inbound_line(&line).unwrap() {
        InboundMessage::Notification(notification) => {
            assert_eq!(notification.method, "m");
            assert_eq!(notification.params.as_str(), "[0]");
        }
        other => panic!("unexpected message: {other:?}"),
    }
    let error = RpcErrorObject::new(i64::MIN, "m").with_data(json("{\"b\":2,\"a\":1}"));
    let line = encoded(OutboundMessage::Error(RpcErrorResponse::new(rpc_id("r"), error)));
    match decode_inbound_line(&line).unwrap() {
        InboundMessage::Response(response) => match response.outcome {
            RpcResponseOutcome::Error(error) => {
                assert_eq!(error.code, i64::MIN);
                assert_eq!(error.data.unwrap().as_str(), "{\"a\":1,\"b\":2}");
            }
            other => panic!("unexpected outcome: {other:?}"),
        },
        other => panic!("unexpected message: {other:?}"),
    }
}

#[test]
fn payloads_are_read_back_up_to_the_depth_limit() {
    let nested = |depth: usize| json(&format!("{}{}", "[".repeat(depth), "]".repeat(depth)));
    let line = |depth: usize| {
        encoded(OutboundMessage::Request(RpcRequest::new(rpc_id("a"), "m", nested(depth))))
    };
    assert!(decode_inbound_line(&line(126)).is_ok());
    assert!(matches!(
        decode_inbound_line(&line(127)),
        Err(ProtocolCodecError::Deserialize(_))
    ));
    assert!(JsonText::new(format!("{}{}", "[".repeat(128), "]".repeat(128))).is_err());
}
