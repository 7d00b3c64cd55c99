//! What can go wrong with a provider.

use vstd::prelude::*;

use crate::json::JsonText;
use crate::message::{plain_failure, PortableError, PortableErrorView};
use crate::protocol::jsonrpc::{opt_json, RpcErrorObject};
use crate::text::{
    concat2, concat3, concat4, concat5, decimal, decimal_text, integer_notation, integer_text,
    quoted, quoted_text,
};
use crate::types::{ErrorCode, ProviderId};

verus! {

/// The life of a provider process.
#[derive(Clone, Copy, Debug, PartialEq, Eq, Structural)]
pub enum ProviderState {
    Starting,
    Ready,
    Unhealthy,
    Stopping,
    Stopped,
}

pub open spec fn state_text(state: ProviderState) -> Seq<char> {
    match state {
        ProviderState::Starting => "Starting"@,
        ProviderState::Ready => "Ready"@,
        ProviderState::Unhealthy => "Unhealthy"@,
        ProviderState::Stopping => "Stopping"@,
        ProviderState::Stopped => "Stopped"@,
    }
}

impl ProviderState {
    pub fn name(&self) -> (r: &'static str)
        ensures
            r@ == state_text(*self),
    {
        match self {
            ProviderState::Starting => "Starting",
            ProviderState::Ready => "Ready",
            ProviderState::Unhealthy => "Unhealthy",
            ProviderState::Stopping => "Stopping",
            ProviderState::Stopped => "Stopped",
        }
    }
}

/// Why a stream ended before its time.
#[derive(Debug, PartialEq, Eq)]
#[non_exhaustive]
pub enum ProviderStreamError {
    Protocol(String),
    ProviderUnavailable(String),
}

#[verifier::ext_equal]
pub enum StreamErrorView {
    Protocol(Seq<char>),
    ProviderUnavailable(Seq<char>),
}

impl View for ProviderStreamError {
    type V = StreamErrorView;

    open spec fn view(&self) -> StreamErrorView {
        match self {
            ProviderStreamError::Protocol(message) => StreamErrorView::Protocol(message@),
            ProviderStreamError::ProviderUnavailable(message) => {
                StreamErrorView::ProviderUnavailable(message@)
            },
        }
    }
}

impl Clone for ProviderStreamError {
    fn clone(&self) -> (r: Self)
        ensures
            r == *self,
    {
        match self {
            ProviderStreamError::Protocol(message) => ProviderStreamError::Protocol(
                message.clone(),
            ),
            ProviderStreamError::ProviderUnavailable(message) => {
                ProviderStreamError::ProviderUnavailable(message.clone())
            },
        }
    }
}

pub open spec fn stream_error_text(e: StreamErrorView) -> Seq<char> {
    match e {
        StreamErrorView::Protocol(message) => "provider stream protocol violation: "@ + message,
        StreamErrorView::ProviderUnavailable(message) => {
            "provider became unavailable: "@ + message
        },
    }
}

impl ProviderStreamError {
    pub fn message(&self) -> (r: String)
        ensures
            r@ == stream_error_text(self@),
    {
        match self {
            ProviderStreamError::Protocol(message) => {
                concat2("provider stream protocol violation: ", message.as_str())
            },
            ProviderStreamError::ProviderUnavailable(message) => {
                concat2("provider became unavailable: ", message.as_str())
            },
        }
    }
}

/// Why a request to a provider failed.
#[derive(Debug, PartialEq)]
#[non_exhaustive]
pub enum ProviderHostError {
    InvalidConfig(String),
    Spawn(String),
    MissingPipe(&'static str),
    Io(String),
    Protocol(String),
    Serialize(String),
    DeserializeResponse(String),
    InvalidManifest(String),
    ProviderUnavailable(String),
    RequestTimeout { method: String },
    Rpc { code: i64, message: String, data: Option<JsonText> },
    InvalidState { expected: ProviderState, actual: ProviderState },
    InvalidRequest(String),
    UnexpectedResponse(String),
    StreamRejected(String),
}

#[verifier::ext_equal]
pub enum HostErrorView {
    InvalidConfig(Seq<char>),
    Spawn(Seq<char>),
    MissingPipe(Seq<char>),
    Io(Seq<char>),
    Protocol(Seq<char>),
    Serialize(Seq<char>),
    DeserializeResponse(Seq<char>),
    InvalidManifest(Seq<char>),
    ProviderUnavailable(Seq<char>),
    RequestTimeout { method: Seq<char> },
    Rpc { code: i64, message: Seq<char>, data: Option<Seq<char>> },
    InvalidState { expected: ProviderState, actual: ProviderState },
    InvalidRequest(Seq<char>),
    UnexpectedResponse(Seq<char>),
    StreamRejected(Seq<char>),
}

impl View for ProviderHostError {
    type V = HostErrorView;

    open spec fn view(&self) -> HostErrorView {
        match self {
            ProviderHostError::InvalidConfig(m) => HostErrorView::InvalidConfig(m@),
            ProviderHostError::Spawn(m) => HostErrorView::Spawn(m@),
            ProviderHostError::MissingPipe(m) => HostErrorView::MissingPipe(m@),
            ProviderHostError::Io(m) => HostErrorView::Io(m@),
            ProviderHostError::Protocol(m) => HostErrorView::Protocol(m@),
            ProviderHostError::Serialize(m) => HostErrorView::Serialize(m@),
            ProviderHostError::DeserializeResponse(m) => HostErrorView::DeserializeResponse(m@),
            ProviderHostError::InvalidManifest(m) => HostErrorView::InvalidManifest(m@),
            ProviderHostError::ProviderUnavailable(m) => HostErrorView::ProviderUnavailable(m@),
            ProviderHostError::RequestTimeout { method } => HostErrorView::RequestTimeout {
                method: method@,
            },
            ProviderHostError::Rpc { code, message, data } => HostErrorView::Rpc {
                code: *code,
                message: message@,
                data: opt_json(*data),
            },
            ProviderHostError::InvalidState { expected, actual } => HostErrorView::InvalidState {
                expected: *expected,
                actual: *actual,
            },
            ProviderHostError::InvalidRequest(m) => HostErrorView::InvalidRequest(m@),
            ProviderHostError::UnexpectedResponse(m) => HostErrorView::UnexpectedResponse(m@),
            ProviderHostError::StreamRejected(m) => HostErrorView::StreamRejected(m@),
        }
    }
}

pub open spec fn host_error_text(e: HostErrorView) -> Seq<char> {
    match e {
        HostErrorView::InvalidConfig(m) => "invalid ProviderHost configuration: "@ + m,
        HostErrorView::Spawn(m) => "failed to spawn provider process: "@ + m,
        HostErrorView::MissingPipe(m) => "spawned provider process is missing piped "@ + m,
        HostErrorView::Io(m) => "provider process I/O failed: "@ + m,
        HostErrorView::Protocol(m) => "provider protocol violation: "@ + m,
        HostErrorView::Serialize(m) => "failed to serialize provider request: "@ + m,
        HostErrorView::DeserializeResponse(m) => {
            "failed to decode provider response result: "@ + m
        },
        HostErrorView::InvalidManifest(m) => "provider manifest is invalid: "@ + m,
        HostErrorView::ProviderUnavailable(m) => "provider is unavailable: "@ + m,
        HostErrorView::RequestTimeout { method } => {
            "provider request "@ + method + " timed out"@
        },
        HostErrorView::Rpc { code, message, .. } => {
            "provider returned JSON-RPC error "@ + integer_notation(code as int) + ": "@ + message
        },
        HostErrorView::InvalidState { expected, actual } => {
            "provider state is "@ + state_text(actual) + ", expected "@ + state_text(expected)
        },
        HostErrorView::InvalidRequest(m) => "invalid provider request: "@ + m,
        HostErrorView::UnexpectedResponse(m) => {
            "provider returned an unexpected response: "@ + m
        },
        HostErrorView::StreamRejected(m) => "provider rejected LLM stream: "@ + m,
    }
}

impl ProviderHostError {
    pub fn message(&self) -> (r: String)
        ensures
            r@ == host_error_text(self@),
    {
        match self {
            ProviderHostError::InvalidConfig(m) => {
                concat2("invalid ProviderHost configuration: ", m.as_str())
            },
            ProviderHostError::Spawn(m) => {
                concat2("failed to spawn provider process: ", m.as_str())
            },
            ProviderHostError::MissingPipe(m) => {
                concat2("spawned provider process is missing piped ", m)
            },
            ProviderHostError::Io(m) => concat2("provider process I/O failed: ", m.as_str()),
            ProviderHostError::Protocol(m) => concat2("provider protocol violation: ", m.as_str()),
            ProviderHostError::Serialize(m) => {
                concat2("failed to serialize provider request: ", m.as_str())
            },
            ProviderHostError::DeserializeResponse(m) => {
                concat2("failed to decode provider response result: ", m.as_str())
            },
            ProviderHostError::InvalidManifest(m) => {
                concat2("provider manifest is invalid: ", m.as_str())
            },
            ProviderHostError::ProviderUnavailable(m) => {
                concat2("provider is unavailable: ", m.as_str())
            },
            ProviderHostError::RequestTimeout { method } => {
                concat3("provider request ", method.as_str(), " timed out")
            },
            ProviderHostError::Rpc { code, message, .. } => concat4(
                "provider returned JSON-RPC error ",
                integer_text(*code).as_str(),
                ": ",
                message.as_str(),
            ),
            ProviderHostError::InvalidState { expected, actual } => {
                concat4("provider state is ", actual.name(), ", expected ", expected.name())
            },
            ProviderHostError::InvalidRequest(m) => {
                concat2("invalid provider request: ", m.as_str())
            },
            ProviderHostError::UnexpectedResponse(m) => {
                concat2("provider returned an unexpected response: ", m.as_str())
            },
            ProviderHostError::StreamRejected(m) => {
                concat2("provider rejected LLM stream: ", m.as_str())
            },
        }
    }

    /// The failure that a JSON-RPC error stands for.
    pub fn rpc(error: RpcErrorObject) -> (r: ProviderHostError)
        ensures
            r@ == (HostErrorView::Rpc {
                code: error.code,
                message: error.message@,
                data: opt_json(error.data),
            }),
    {
        ProviderHostError::Rpc { code: error.code, message: error.message, data: error.data }
    }
}

/// Why a provider cannot stand behind a domain seam.
#[derive(Debug, PartialEq, Eq)]
#[non_exhaustive]
pub enum ProviderAdapterError {
    ManifestUnavailable,
    InvalidProviderId { value: String, message: String },
    EmptyToolName,
    ToolNotDeclared(String),
    DefinitionMismatch { tool: String, field: &'static str, core: String, provider: String },
}

#[verifier::ext_equal]
pub enum AdapterErrorView {
    ManifestUnavailable,
    InvalidProviderId { value: Seq<char>, message: Seq<char> },
    EmptyToolName,
    ToolNotDeclared(Seq<char>),
    DefinitionMismatch {
        tool: Seq<char>,
        field: Seq<char>,
        core: Seq<char>,
        provider: Seq<char>,
    },
}

impl View for ProviderAdapterError {
    type V = AdapterErrorView;

    open spec fn view(&self) -> AdapterErrorView {
        match self {
            ProviderAdapterError::ManifestUnavailable => AdapterErrorView::ManifestUnavailable,
            ProviderAdapterError::InvalidProviderId { value, message } => {
                AdapterErrorView::InvalidProviderId { value: value@, message: message@ }
            },
            ProviderAdapterError::EmptyToolName => AdapterErrorView::EmptyToolName,
            ProviderAdapterError::ToolNotDeclared(tool) => AdapterErrorView::ToolNotDeclared(tool@),
            ProviderAdapterError::DefinitionMismatch { tool, field, core, provider } => {
                AdapterErrorView::DefinitionMismatch {
                    tool: tool@,
                    field: field@,
                    core: core@,
                    provider: provider@,
                }
            },
        }
    }
}

pub open spec fn invalid_id_text(value: Seq<char>, message: Seq<char>) -> Seq<char> {
    "provider manifest providerId "@ + quoted(value) + " cannot be represented by Harness: "@
        + message
}

pub open spec fn adapter_error_text(e: AdapterErrorView) -> Seq<char> {
    match e {
        AdapterErrorView::ManifestUnavailable => "provider manifest is not available"@,
        AdapterErrorView::InvalidProviderId { value, message } => invalid_id_text(value, message),
        AdapterErrorView::EmptyToolName => "Tool adapter name must not be empty"@,
        AdapterErrorView::ToolNotDeclared(tool) => {
            "provider manifest does not declare Tool capability "@ + tool
        },
        AdapterErrorView::DefinitionMismatch { tool, field, core, provider } => {
            "Tool definition mismatch for "@ + tool + ": field "@ + field + " is "@ + quoted(core)
                + " in Core but "@ + quoted(provider) + " in provider manifest"@
        },
    }
}

fn invalid_id_message(value: &String, message: &String) -> (r: String)
    ensures
        r@ == invalid_id_text(value@, message@),
{
    concat4(
        "provider manifest providerId ",
        quoted_text(value.as_str()).as_str(),
        " cannot be represented by Harness: ",
        message.as_str(),
    )
}

impl ProviderAdapterError {
    pub fn message(&self) -> (r: String)
        ensures
            r@ == adapter_error_text(self@),
    {
        match self {
            ProviderAdapterError::ManifestUnavailable => {
                "provider manifest is not available".to_owned()
            },
            ProviderAdapterError::InvalidProviderId { value, message } => {
                invalid_id_message(value, message)
            },
            ProviderAdapterError::EmptyToolName => {
                "Tool adapter name must not be empty".to_owned()
            },
            ProviderAdapterError::ToolNotDeclared(tool) => {
                concat2("provider manifest does not declare Tool capability ", tool.as_str())
            },
            ProviderAdapterError::DefinitionMismatch { tool, field, core, provider } => {
                let head = concat5(
                    "Tool definition mismatch for ",
                    tool.as_str(),
                    ": field ",
                    field,
                    " is ",
                );
                concat5(
                    head.as_str(),
                    quoted_text(core.as_str()).as_str(),
                    " in Core but ",
                    quoted_text(provider.as_str()).as_str(),
                    " in provider manifest",
                )
            },
        }
    }

    /// The failure to report where a generation of a provider cannot be used.
    pub fn into_portable(self) -> (r: PortableError)
        ensures
            r@ == plain_failure(
                ErrorCode::ProviderUnavailable,
                "provider generation adapter is unavailable: "@ + adapter_error_text(self@),
            ),
    {
        PortableError::new(
            ErrorCode::ProviderUnavailable,
            concat2(
                "provider generation adapter is unavailable: ",
                self.message().as_str(),
            ),
        )
    }
}

/// Where a provider slot stands, and in which generation.
#[derive(Clone, Copy, Debug, PartialEq, Eq, Structural)]
#[allow(inconsistent_fields)]
pub enum ProviderSlotStatus {
    Ready { generation: u32 },
    Unavailable { generation: u32 },
    Quarantined { generation: u32 },
    Stopped { generation: u32 },
}

/// The generation of a status.
pub open spec fn generation_of(status: ProviderSlotStatus) -> u32 {
    match status {
        ProviderSlotStatus::Ready { generation } => generation,
        ProviderSlotStatus::Unavailable { generation } => generation,
        ProviderSlotStatus::Quarantined { generation } => generation,
        ProviderSlotStatus::Stopped { generation } => generation,
    }
}

pub open spec fn status_name(status: ProviderSlotStatus) -> Seq<char> {
    match status {
        ProviderSlotStatus::Ready { .. } => "Ready"@,
        ProviderSlotStatus::Unavailable { .. } => "Unavailable"@,
        ProviderSlotStatus::Quarantined { .. } => "Quarantined"@,
        ProviderSlotStatus::Stopped { .. } => "Stopped"@,
    }
}

pub open spec fn status_text(status: ProviderSlotStatus) -> Seq<char> {
    status_name(status) + " { generation: "@ + decimal(generation_of(status) as nat) + " }"@
}

impl ProviderSlotStatus {
    pub fn generation(self) -> (r: u32)
        ensures
            r == generation_of(self),
    {
        match self {
            ProviderSlotStatus::Ready { generation } => generation,
            ProviderSlotStatus::Unavailable { generation } => generation,
            ProviderSlotStatus::Quarantined { generation } => generation,
            ProviderSlotStatus::Stopped { generation } => generation,
        }
    }

    /// The status in words, with its generation.
    pub fn text(&self) -> (r: String)
        ensures
            r@ == status_text(*self),
    {
        let name = match self {
            ProviderSlotStatus::Ready { .. } => "Ready",
            ProviderSlotStatus::Unavailable { .. } => "Unavailable",
            ProviderSlotStatus::Quarantined { .. } => "Quarantined",
            ProviderSlotStatus::Stopped { .. } => "Stopped",
        };
        let generation: u32 = self.generation();
        concat4(name, " { generation: ", decimal_text(generation as u64).as_str(), " }")
    }
}

/// Why a slot refuses a manifest, a generation or a wait.
#[derive(Debug, PartialEq, Eq)]
#[non_exhaustive]
#[allow(inconsistent_fields)]
pub enum ProviderSlotError {
    InvalidManifest(String),
    InvalidManifestProviderId { value: String, message: String },
    IdentityMismatch { expected: ProviderId, actual: ProviderId },
    ManifestDrift,
    GenerationExhausted,
    InvalidGeneration { expected: u32, actual: u32 },
    InvalidTransition { from: ProviderSlotStatus, to: &'static str },
    Quarantined { generation: u32 },
    Stopped { generation: u32 },
    Closed,
}

#[verifier::ext_equal]
#[allow(inconsistent_fields)]
pub enum SlotErrorView {
    InvalidManifest(Seq<char>),
    InvalidManifestProviderId { value: Seq<char>, message: Seq<char> },
    IdentityMismatch { expected: Seq<char>, actual: Seq<char> },
    ManifestDrift,
    GenerationExhausted,
    InvalidGeneration { expected: u32, actual: u32 },
    InvalidTransition { from: ProviderSlotStatus, to: Seq<char> },
    Quarantined { generation: u32 },
    Stopped { generation: u32 },
    Closed,
}

impl View for ProviderSlotError {
    type V = SlotErrorView;

    open spec fn view(&self) -> SlotErrorView {
        match self {
            ProviderSlotError::InvalidManifest(m) => SlotErrorView::InvalidManifest(m@),
            ProviderSlotError::InvalidManifestProviderId { value, message } => {
                SlotErrorView::InvalidManifestProviderId { value: value@, message: message@ }
            },
            ProviderSlotError::IdentityMismatch { expected, actual } => {
                SlotErrorView::IdentityMismatch { expected: expected@, actual: actual@ }
            },
            ProviderSlotError::ManifestDrift => SlotErrorView::ManifestDrift,
            ProviderSlotError::GenerationExhausted => SlotErrorView::GenerationExhausted,
            ProviderSlotError::InvalidGeneration { expected, actual } => {
                SlotErrorView::InvalidGeneration { expected: *expected, actual: *actual }
            },
            ProviderSlotError::InvalidTransition { from, to } => {
                SlotErrorView::InvalidTransition { from: *from, to: to@ }
            },
            ProviderSlotError::Quarantined { generation } => SlotErrorView::Quarantined {
                generation: *generation,
            },
            ProviderSlotError::Stopped { generation } => SlotErrorView::Stopped {
                generation: *generation,
            },
            ProviderSlotError::Closed => SlotErrorView::Closed,
        }
    }
}

pub open spec fn slot_error_text(e: SlotErrorView) -> Seq<char> {
    match e {
        SlotErrorView::InvalidManifest(m) => "provider slot manifest is invalid: "@ + m,
        SlotErrorView::InvalidManifestProviderId { value, message } => invalid_id_text(
            value,
            message,
        ),
        SlotErrorView::IdentityMismatch { expected, actual } => {
            "provider slot identity mismatch: expected "@ + expected + ", manifest declared "@
                + actual
        },
        SlotErrorView::ManifestDrift => {
            "provider restart manifest is not semantically compatible with the slot baseline"@
        },
        SlotErrorView::GenerationExhausted => "provider slot generation is exhausted"@,
        SlotErrorView::InvalidGeneration { expected, actual } => {
            "provider slot expected generation "@ + decimal(expected as nat) + ", received "@
                + decimal(actual as nat)
        },
        SlotErrorView::InvalidTransition { from, to } => {
            "provider slot cannot transition from "@ + status_text(from) + " to "@ + to
        },
        SlotErrorView::Quarantined { generation } => {
            "provider generation "@ + decimal(generation as nat) + " is quarantined"@
        },
        SlotErrorView::Stopped { generation } => {
            "provider generation "@ + decimal(generation as nat) + " is stopped"@
        },
        SlotErrorView::Closed => "provider slot state channel is closed"@,
    }
}

impl ProviderSlotError {
    pub fn message(&self) -> (r: String)
        ensures
            r@ == slot_error_text(self@),
    {
        match self {
            ProviderSlotError::InvalidManifest(m) => {
                concat2("provider slot manifest is invalid: ", m.as_str())
            },
            ProviderSlotError::InvalidManifestProviderId { value, message } => {
                invalid_id_message(value, message)
            },
            ProviderSlotError::IdentityMismatch { expected, actual } => concat4(
                "provider slot identity mismatch: expected ",
                expected.as_str(),
                ", manifest declared ",
                actual.as_str(),
            ),
            ProviderSlotError::ManifestDrift => {
                "provider restart manifest is not semantically compatible with the slot baseline".to_owned()
            },
            ProviderSlotError::GenerationExhausted => {
                "provider slot generation is exhausted".to_owned()
            },
            ProviderSlotError::InvalidGeneration { expected, actual } => concat4(
                "provider slot expected generation ",
                decimal_text(*expected as u64).as_str(),
                ", received ",
                decimal_text(*actual as u64).as_str(),
            ),
            ProviderSlotError::InvalidTransition { from, to } => concat4(
                "provider slot cannot transition from ",
                from.text().as_str(),
                " to ",
                to,
            ),
            ProviderSlotError::Quarantined { generation } => concat3(
                "provider generation ",
                decimal_text(*generation as u64).as_str(),
                " is quarantined",
            ),
            ProviderSlotError::Stopped { generation } => concat3(
                "provider generation ",
                decimal_text(*generation as u64).as_str(),
                " is stopped",
            ),
            ProviderSlotError::Closed => "provider slot state channel is closed".to_owned(),
        }
    }

    /// The failure to report where a slot has no provider to give.
    pub fn into_portable(self) -> (r: PortableError)
        ensures
            r@ == plain_failure(ErrorCode::ProviderUnavailable, slot_error_text(self@)),
    {
        PortableError::new(ErrorCode::ProviderUnavailable, self.message())
    }
}

/// The code under which the failure of a request is reported; `otherwise` is the
/// caller's own.
pub open spec fn host_error_code(e: HostErrorView, otherwise: ErrorCode) -> ErrorCode {
    match e {
        HostErrorView::Protocol(_) => ErrorCode::ProviderProtocolError,
        HostErrorView::DeserializeResponse(_) => ErrorCode::ProviderProtocolError,
        HostErrorView::UnexpectedResponse(_) => ErrorCode::ProviderProtocolError,
        HostErrorView::ProviderUnavailable(_) => ErrorCode::ProviderUnavailable,
        HostErrorView::Io(_) => ErrorCode::ProviderUnavailable,
        HostErrorView::Spawn(_) => ErrorCode::ProviderUnavailable,
        HostErrorView::MissingPipe(_) => ErrorCode::ProviderUnavailable,
        HostErrorView::InvalidState { .. } => ErrorCode::ProviderUnavailable,
        HostErrorView::RequestTimeout { .. } => ErrorCode::DeadlineExceeded,
        HostErrorView::InvalidRequest(_) => ErrorCode::InvalidArgument,
        HostErrorView::InvalidConfig(_) => ErrorCode::InvalidArgument,
        HostErrorView::InvalidManifest(_) => ErrorCode::InvalidArgument,
        HostErrorView::Rpc { code, .. } => {
            if code == -32602 {
                ErrorCode::InvalidArgument
            } else if code == -32601 {
                ErrorCode::NotFound
            } else {
                otherwise
            }
        },
        HostErrorView::StreamRejected(_) => otherwise,
        HostErrorView::Serialize(_) => ErrorCode::Internal,
    }
}

/// The failure to report for a request that failed.
pub fn map_host_error(error: ProviderHostError, provider_error_code: ErrorCode) -> (r:
    PortableError)
    ensures
        r@ == plain_failure(
            host_error_code(error@, provider_error_code),
            host_error_text(error@),
        ),
{
    let code = match &error {
        ProviderHostError::Protocol(_) => ErrorCode::ProviderProtocolError,
        ProviderHostError::DeserializeResponse(_) => ErrorCode::ProviderProtocolError,
        ProviderHostError::UnexpectedResponse(_) => ErrorCode::ProviderProtocolError,
        ProviderHostError::ProviderUnavailable(_) => ErrorCode::ProviderUnavailable,
        ProviderHostError::Io(_) => ErrorCode::ProviderUnavailable,
        ProviderHostError::Spawn(_) => ErrorCode::ProviderUnavailable,
        ProviderHostError::MissingPipe(_) => ErrorCode::ProviderUnavailable,
        ProviderHostError::InvalidState { .. } => ErrorCode::ProviderUnavailable,
        ProviderHostError::RequestTimeout { .. } => ErrorCode::DeadlineExceeded,
        ProviderHostError::InvalidRequest(_) => ErrorCode::InvalidArgument,
        ProviderHostError::InvalidConfig(_) => ErrorCode::InvalidArgument,
        ProviderHostError::InvalidManifest(_) => ErrorCode::InvalidArgument,
        ProviderHostError::Rpc { code, .. } => {
            if *code == RpcErrorObject::INVALID_PARAMS {
                ErrorCode::InvalidArgument
            } else if *code == RpcErrorObject::METHOD_NOT_FOUND {
                ErrorCode::NotFound
            } else {
                provider_error_code
            }
        },
        ProviderHostError::StreamRejected(_) => provider_error_code,
        ProviderHostError::Serialize(_) => ErrorCode::Internal,
    };
    let message = error.message();
    PortableError::new(code, message)
}

/// The failure to report for a model request that failed.
pub fn map_llm_host_error(error: ProviderHostError) -> (r: PortableError)
    ensures
        r@ == plain_failure(
            host_error_code(error@, ErrorCode::ModelRequestFailed),
            host_error_text(error@),
        ),
{
    map_host_error(error, ErrorCode::ModelRequestFailed)
}

/// The failure to report for a tool request that failed.
pub fn map_tool_host_error(error: ProviderHostError) -> (r: PortableError)
    ensures
        r@ == plain_failure(
            host_error_code(error@, ErrorCode::ToolExecutionFailed),
            host_error_text(error@),
        ),
{
    map_host_error(error, ErrorCode::ToolExecutionFailed)
}

/// The failure that the premature end of a stream stands for.
pub open spec fn stream_failure(e: StreamErrorView) -> PortableErrorView {
    match e {
        StreamErrorView::Protocol(m) => plain_failure(ErrorCode::ProviderProtocolError, m),
        StreamErrorView::ProviderUnavailable(m) => plain_failure(
            ErrorCode::ProviderUnavailable,
            m,
        ),
    }
}

/// The failure to report where a stream ended before its time.
pub fn map_stream_error(error: ProviderStreamError) -> (r: PortableError)
    ensures
        r@ == stream_failure(error@),
{
    match error {
        ProviderStreamError::Protocol(message) => PortableError::new(
            ErrorCode::ProviderProtocolError,
            message,
        ),
        ProviderStreamError::ProviderUnavailable(message) => PortableError::new(
            ErrorCode::ProviderUnavailable,
            message,
        ),
    }
}

/// A failure is reported under the code that says what went wrong: the provider broke the
/// protocol, it is not there, it took too long, or it was asked for something that it cannot
/// do. What the provider itself refuses is reported under the caller's code.
pub proof fn law_failures_are_reported_by_kind(e: HostErrorView, otherwise: ErrorCode)
    ensures
        e is Protocol || e is DeserializeResponse || e is UnexpectedResponse ==> host_error_code(
            e,
            otherwise,
        ) == ErrorCode::ProviderProtocolError,
        e is ProviderUnavailable || e is Io || e is Spawn || e is MissingPipe || e is InvalidState
            ==> host_error_code(e, otherwise) == ErrorCode::ProviderUnavailable,
        e is RequestTimeout ==> host_error_code(e, otherwise) == ErrorCode::DeadlineExceeded,
        e is InvalidRequest || e is InvalidConfig || e is InvalidManifest ==> host_error_code(
            e,
            otherwise,
        ) == ErrorCode::InvalidArgument,
        e is Serialize ==> host_error_code(e, otherwise) == ErrorCode::Internal,
        e is StreamRejected ==> host_error_code(e, otherwise) == otherwise,
        e matches HostErrorView::Rpc { code, .. } ==> host_error_code(e, otherwise) == (match code {
            -32602 => ErrorCode::InvalidArgument,
            -32601 => ErrorCode::NotFound,
            _ => otherwise,
        }),
{
}

/// A stream that ended before its time is reported with its message, as a fault of the
/// provider or as its absence.
pub proof fn law_broken_streams_are_reported(e: StreamErrorView)
    ensures
        e matches StreamErrorView::Protocol(m) ==> stream_failure(e).code
            == ErrorCode::ProviderProtocolError && stream_failure(e).message == m,
        e matches StreamErrorView::ProviderUnavailable(m) ==> stream_failure(e).code
            == ErrorCode::ProviderUnavailable && stream_failure(e).message == m,
        stream_failure(e).details.len() == 0,
{
}

/// A status knows its generation.
pub proof fn law_statuses_know_their_generation(generation: u32)
    ensures
        generation_of(ProviderSlotStatus::Ready { generation }) == generation,
        generation_of(ProviderSlotStatus::Unavailable { generation }) == generation,
        generation_of(ProviderSlotStatus::Quarantined { generation }) == generation,
        generation_of(ProviderSlotStatus::Stopped { generation }) == generation,
{
}

} // verus!
