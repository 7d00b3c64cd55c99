//! Failures of the agent.

use vstd::prelude::*;

use crate::text::{concat2, concat3, concat4, decimal, decimal_text};
use crate::types::{ErrorCode, EventSeq, RequestId, SessionId, ToolCallId};

verus! {

/// A failure that callers and supervisors of an agent see.
#[derive(Debug, PartialEq)]
pub enum AgentError {
    /// Another writer has extended the session.
    OwnershipLost { session_id: SessionId, expected: EventSeq, actual: EventSeq },
    Storage { code: ErrorCode, message: String },
    BlobStorage { message: String },
    InvalidDurableMutation { message: String },
    InvalidModelRequest { message: String },
    InvalidToolRuntime { message: String },
    UnexpectedModelCompletion { request_id: RequestId, message: String },
    UnexpectedToolCompletion { call_id: ToolCallId, message: String },
    StorageContractViolation { message: String },
}

impl Clone for AgentError {
    fn clone(&self) -> (r: Self)
        ensures
            r == *self,
    {
        match self {
            AgentError::OwnershipLost { session_id, expected, actual } => {
                AgentError::OwnershipLost {
                    session_id: session_id.clone(),
                    expected: *expected,
                    actual: *actual,
                }
            },
            AgentError::Storage { code, message } => AgentError::Storage {
                code: *code,
                message: message.clone(),
            },
            AgentError::BlobStorage { message } => AgentError::BlobStorage {
                message: message.clone(),
            },
            AgentError::InvalidDurableMutation { message } => AgentError::InvalidDurableMutation {
                message: message.clone(),
            },
            AgentError::InvalidModelRequest { message } => AgentError::InvalidModelRequest {
                message: message.clone(),
            },
            AgentError::InvalidToolRuntime { message } => AgentError::InvalidToolRuntime {
                message: message.clone(),
            },
            AgentError::UnexpectedModelCompletion { request_id, message } => {
                AgentError::UnexpectedModelCompletion {
                    request_id: request_id.clone(),
                    message: message.clone(),
                }
            },
            AgentError::UnexpectedToolCompletion { call_id, message } => {
                AgentError::UnexpectedToolCompletion {
                    call_id: call_id.clone(),
                    message: message.clone(),
                }
            },
            AgentError::StorageContractViolation { message } => {
                AgentError::StorageContractViolation { message: message.clone() }
            },
        }
    }
}

#[verifier::ext_equal]
pub enum AgentErrorView {
    OwnershipLost { session_id: Seq<char>, expected: EventSeq, actual: EventSeq },
    Storage { code: ErrorCode, message: Seq<char> },
    BlobStorage { message: Seq<char> },
    InvalidDurableMutation { message: Seq<char> },
    InvalidModelRequest { message: Seq<char> },
    InvalidToolRuntime { message: Seq<char> },
    UnexpectedModelCompletion { request_id: Seq<char>, message: Seq<char> },
    UnexpectedToolCompletion { call_id: Seq<char>, message: Seq<char> },
    StorageContractViolation { message: Seq<char> },
}

impl View for AgentError {
    type V = AgentErrorView;

    open spec fn view(&self) -> AgentErrorView {
        match self {
            AgentError::OwnershipLost { session_id, expected, actual } => {
                AgentErrorView::OwnershipLost {
                    session_id: session_id@,
                    expected: *expected,
                    actual: *actual,
                }
            },
            AgentError::Storage { code, message } => AgentErrorView::Storage {
                code: *code,
                message: message@,
            },
            AgentError::BlobStorage { message } => AgentErrorView::BlobStorage {
                message: message@,
            },
            AgentError::InvalidDurableMutation { message } => {
                AgentErrorView::InvalidDurableMutation { message: message@ }
            },
            AgentError::InvalidModelRequest { message } => AgentErrorView::InvalidModelRequest {
                message: message@,
            },
            AgentError::InvalidToolRuntime { message } => AgentErrorView::InvalidToolRuntime {
                message: message@,
            },
            AgentError::UnexpectedModelCompletion { request_id, message } => {
                AgentErrorView::UnexpectedModelCompletion {
                    request_id: request_id@,
                    message: message@,
                }
            },
            AgentError::UnexpectedToolCompletion { call_id, message } => {
                AgentErrorView::UnexpectedToolCompletion { call_id: call_id@, message: message@ }
            },
            AgentError::StorageContractViolation { message } => {
                AgentErrorView::StorageContractViolation { message: message@ }
            },
        }
    }
}

/// How a session store refuses.
#[derive(Debug, PartialEq)]
pub enum SessionStoreError {
    Conflict { session_id: SessionId, expected: EventSeq, actual: EventSeq },
    Other { code: ErrorCode, message: String },
}

/// A refusal of the store in words.
pub open spec fn store_error_text(e: SessionStoreError) -> Seq<char> {
    match e {
        SessionStoreError::Conflict { session_id, expected, actual } => {
            "session "@ + session_id@ + " has another head: expected "@ + decimal(
                expected@ as nat,
            ) + ", actual "@ + decimal(actual@ as nat)
        },
        SessionStoreError::Other { message, .. } => message@,
    }
}

impl SessionStoreError {
    pub fn message(&self) -> (r: String)
        ensures
            r@ == store_error_text(*self),
    {
        match self {
            SessionStoreError::Conflict { session_id, expected, actual } => {
                let mut text = concat3(
                    "session ",
                    session_id.as_str(),
                    " has another head: expected ",
                );
                text.append(decimal_text(expected.get()).as_str());
                text.append(", actual ");
                text.append(decimal_text(actual.get()).as_str());
                text
            },
            SessionStoreError::Other { message, .. } => message.clone(),
        }
    }
}

/// What a refusal of the store means for the agent.
pub open spec fn store_failure(e: SessionStoreError) -> AgentErrorView {
    match e {
        SessionStoreError::Conflict { session_id, expected, actual } => {
            AgentErrorView::OwnershipLost { session_id: session_id@, expected, actual }
        },
        SessionStoreError::Other { code, message } => AgentErrorView::Storage {
            code,
            message: message@,
        },
    }
}

/// The name of an error code.
pub open spec fn code_name(code: ErrorCode) -> Seq<char> {
    match code {
        ErrorCode::InvalidArgument => "InvalidArgument"@,
        ErrorCode::NotFound => "NotFound"@,
        ErrorCode::Conflict => "Conflict"@,
        ErrorCode::PermissionDenied => "PermissionDenied"@,
        ErrorCode::Cancelled => "Cancelled"@,
        ErrorCode::DeadlineExceeded => "DeadlineExceeded"@,
        ErrorCode::ProviderUnavailable => "ProviderUnavailable"@,
        ErrorCode::ProviderProtocolError => "ProviderProtocolError"@,
        ErrorCode::ToolExecutionFailed => "ToolExecutionFailed"@,
        ErrorCode::ModelRequestFailed => "ModelRequestFailed"@,
        ErrorCode::SessionCorrupt => "SessionCorrupt"@,
        ErrorCode::UnknownOutcome => "UnknownOutcome"@,
        ErrorCode::Internal => "Internal"@,
    }
}

pub(crate) fn code_text(code: ErrorCode) -> (r: &'static str)
    ensures
        r@ == code_name(code),
{
    match code {
        ErrorCode::InvalidArgument => "InvalidArgument",
        ErrorCode::NotFound => "NotFound",
        ErrorCode::Conflict => "Conflict",
        ErrorCode::PermissionDenied => "PermissionDenied",
        ErrorCode::Cancelled => "Cancelled",
        ErrorCode::DeadlineExceeded => "DeadlineExceeded",
        ErrorCode::ProviderUnavailable => "ProviderUnavailable",
        ErrorCode::ProviderProtocolError => "ProviderProtocolError",
        ErrorCode::ToolExecutionFailed => "ToolExecutionFailed",
        ErrorCode::ModelRequestFailed => "ModelRequestFailed",
        ErrorCode::SessionCorrupt => "SessionCorrupt",
        ErrorCode::UnknownOutcome => "UnknownOutcome",
        ErrorCode::Internal => "Internal",
    }
}

/// An agent failure in words.
pub open spec fn agent_error_text(e: AgentErrorView) -> Seq<char> {
    match e {
        AgentErrorView::OwnershipLost { session_id, expected, actual } => {
            "agent lost single-writer ownership of session "@ + session_id + ": expected head "@
                + decimal(expected@ as nat) + ", actual "@ + decimal(actual@ as nat)
        },
        AgentErrorView::Storage { code, message } => {
            "session storage failure ("@ + code_name(code) + "): "@ + message
        },
        AgentErrorView::BlobStorage { message } => "blob storage failure: "@ + message,
        AgentErrorView::InvalidDurableMutation { message } => {
            "invalid durable mutation: "@ + message
        },
        AgentErrorView::InvalidModelRequest { message } => "invalid model request: "@ + message,
        AgentErrorView::InvalidToolRuntime { message } => "invalid tool runtime: "@ + message,
        AgentErrorView::UnexpectedModelCompletion { request_id, message } => {
            "unexpected completion of model request "@ + request_id + ": "@ + message
        },
        AgentErrorView::UnexpectedToolCompletion { call_id, message } => {
            "unexpected completion of tool call "@ + call_id + ": "@ + message
        },
        AgentErrorView::StorageContractViolation { message } => {
            "SessionStore contract violation: "@ + message
        },
    }
}

impl AgentError {
    pub fn from_store(error: SessionStoreError) -> (r: AgentError)
        ensures
            r@ == store_failure(error),
    {
        match error {
            SessionStoreError::Conflict { session_id, expected, actual } => {
                AgentError::OwnershipLost { session_id, expected, actual }
            },
            SessionStoreError::Other { code, message } => AgentError::Storage { code, message },
        }
    }

    /// Whether the agent can no longer own the session.
    pub fn is_terminal_for_actor(&self) -> (r: bool)
        ensures
            r == (self is OwnershipLost || self is StorageContractViolation),
    {
        matches!(
            self,
            AgentError::OwnershipLost { .. } | AgentError::StorageContractViolation { .. }
        )
    }

    pub fn message(&self) -> (r: String)
        ensures
            r@ == agent_error_text(self@),
    {
        match self {
            AgentError::OwnershipLost { session_id, expected, actual } => {
                let mut text = concat3(
                    "agent lost single-writer ownership of session ",
                    session_id.as_str(),
                    ": expected head ",
                );
                text.append(decimal_text(expected.get()).as_str());
                text.append(", actual ");
                text.append(decimal_text(actual.get()).as_str());
                text
            },
            AgentError::Storage { code, message } => {
                concat4("session storage failure (", code_text(*code), "): ", message.as_str())
            },
            AgentError::BlobStorage { message } => {
                concat2("blob storage failure: ", message.as_str())
            },
            AgentError::InvalidDurableMutation { message } => {
                concat2("invalid durable mutation: ", message.as_str())
            },
            AgentError::InvalidModelRequest { message } => {
                concat2("invalid model request: ", message.as_str())
            },
            AgentError::InvalidToolRuntime { message } => {
                concat2("invalid tool runtime: ", message.as_str())
            },
            AgentError::UnexpectedModelCompletion { request_id, message } => {
                concat4(
                    "unexpected completion of model request ",
                    request_id.as_str(),
                    ": ",
                    message.as_str(),
                )
            },
            AgentError::UnexpectedToolCompletion { call_id, message } => {
                concat4(
                    "unexpected completion of tool call ",
                    call_id.as_str(),
                    ": ",
                    message.as_str(),
                )
            },
            AgentError::StorageContractViolation { message } => {
                concat2("SessionStore contract violation: ", message.as_str())
            },
        }
    }

    pub fn mutation(message: String) -> (r: AgentError)
        ensures
            r@ == mutation(message@),
    {
        AgentError::InvalidDurableMutation { message }
    }

    pub fn tool_runtime(message: String) -> (r: AgentError)
        ensures
            r@ == tool_runtime(message@),
    {
        AgentError::InvalidToolRuntime { message }
    }
}

/// The refusal of a change to the session.
pub open spec fn mutation(message: Seq<char>) -> AgentErrorView {
    AgentErrorView::InvalidDurableMutation { message }
}

/// A contradiction between the session and the attached tools.
pub open spec fn tool_runtime(message: Seq<char>) -> AgentErrorView {
    AgentErrorView::InvalidToolRuntime { message }
}

/// A store that knows of another head means that the session is lost, with both heads; any
/// other refusal is handed on with its code and message.
pub proof fn law_conflicts_lose_the_session(e: SessionStoreError)
    ensures
        e matches SessionStoreError::Conflict { session_id, expected, actual } ==> store_failure(e)
            == (AgentErrorView::OwnershipLost { session_id: session_id@, expected, actual }),
        e matches SessionStoreError::Other { code, message } ==> store_failure(e) == (
        AgentErrorView::Storage { code, message: message@ }),
{
}

} // verus!
