//! The wire protocol: envelopes, content, manifests, invocations and streams.

use harness::json::JsonText;
use harness::protocol::codec::{
    decode_inbound_line, encode_ndjson, OutboundMessage, ProtocolCodecError,
};
use harness::protocol::common::{CommonWireValidationError, WireBlobRef, WireContentBlock};
use harness::protocol::jsonrpc::{InboundMessage, RpcId, RpcRequest, RpcResponseOutcome};
use harness::protocol::manifest::{
    CapabilityDescriptor, ManifestValidationError, ProviderManifest, WireSideEffectClass,
    PROTOCOL_VERSION,
};
use harness::protocol::tool::{ToolInvokeParams, ToolInvokeValidationError};

#[test]
fn tool_call_arguments_remain_a_validated_json_string() {
    let block = WireContentBlock::ToolCall {
        id: "call_1".to_owned(),
        name: "read_file".to_owned(),
        arguments_json: r#"{"path":"README.md"}"#.to_owned(),
    };
    assert!(block.validate().is_ok());
}

#[test]
fn non_lowercase_blob_digest_is_rejected() {
    let blob = WireBlobRef {
        id: "blob_1".to_owned(),
        sha256: "A".repeat(64),
        size: 1,
        media_type: None,
    };
    assert!(matches!(blob.validate(), Err(CommonWireValidationError::InvalidSha256)));
}

#[test]
fn encodes_exactly_one_ndjson_frame() {
    let params = JsonText::new("{}".to_owned()).unwrap();
    let request = RpcRequest::new(RpcId::new("rpc_1").unwrap(), "provider.ping", params);
    let bytes = encode_ndjson(&OutboundMessage::Request(request)).unwrap();
    assert_eq!(bytes.last(), Some(&b'\n'));
    assert_eq!(bytes.iter().filter(|byte| **byte == b'\n').count(), 1);
}

#[test]
fn decodes_success_response_with_null_result() {
    let decoded = decode_inbound_line(r#"{"jsonrpc":"2.0","id":"rpc_1","result":null}"#).unwrap();
    let InboundMessage::Response(response) = decoded else {
        panic!("expected response");
    };
    assert_eq!(response.id.as_str(), "rpc_1");
    assert!(
        matches!(response.outcome, RpcResponseOutcome::Success(value) if value.as_str() == "null")
    );
}

#[test]
fn rejects_numeric_rpc_ids() {
    assert!(decode_inbound_line(r#"{"jsonrpc":"2.0","id":1,"result":{}}"#).is_err());
}

#[test]
fn rpc_id_deserialization_rejects_empty_strings() {
    assert!(RpcId::new("").is_err());
    assert!(matches!(
        decode_inbound_line(r#"{"jsonrpc":"2.0","id":"","result":{}}"#),
        Err(ProtocolCodecError::RpcIdMustBeString)
    ));
}

#[test]
fn manifest_duplicate_tool_names_are_rejected() {
    let tool = CapabilityDescriptor::Tool {
        name: "read_file".to_owned(),
        version: "1".to_owned(),
        parallel_safe: true,
        side_effect: WireSideEffectClass::ReadOnly,
        supports_idempotency_key: false,
    };
    let manifest = ProviderManifest {
        provider_id: "prv_python".to_owned(),
        provider_version: "1.0.0".to_owned(),
        protocol_version: PROTOCOL_VERSION.to_owned(),
        capabilities: vec![tool.clone(), tool],
    };

    assert!(matches!(
        manifest.validate(),
        Err(ManifestValidationError::DuplicateTool(name)) if name == "read_file"
    ));
}

fn invocation(arguments_json: &str, deadline: Option<&str>) -> ToolInvokeParams {
    ToolInvokeParams {
        operation_id: "inv_1".to_owned(),
        invocation_id: "inv_1".to_owned(),
        call_id: "call_1".to_owned(),
        session_id: "ses_1".to_owned(),
        tool: "read_file".to_owned(),
        arguments_json: arguments_json.to_owned(),
        attempt: 1,
        idempotency_key: "idem_1".to_owned(),
        deadline: deadline.map(str::to_owned),
    }
}

#[test]
fn non_utc_deadline_is_rejected() {
    let params = invocation("{}", Some("2026-08-20T04:00:00+01:00"));
    assert!(matches!(params.validate(), Err(ToolInvokeValidationError::InvalidDeadline)));
}

#[test]
fn invalid_arguments_json_is_rejected_without_rewriting_the_string() {
    let params = invocation("{", None);
    assert!(matches!(params.validate(), Err(ToolInvokeValidationError::InvalidArgumentsJson(_))));
}
