//! Tool invocations on the wire.

use vstd::prelude::*;

use crate::json::{json_reading, read_json, reading_view, JsonRoot, JsonRootView};
use crate::message::ContentBlockView;
use crate::protocol::common::{
    common_error_text, content_fault, read_rfc3339, rfc3339_offset, utc_offset, validate_content,
    wire_content_view, WireCancelCauseKind, WireContentBlock,
};
use crate::text::{concat2, concat3, opt_text};

verus! {

#[derive(Debug, PartialEq)]
pub struct ToolInvokeParams {
    pub operation_id: String,
    pub invocation_id: String,
    pub call_id: String,
    pub session_id: String,
    pub tool: String,
    pub arguments_json: String,
    pub attempt: u32,
    pub idempotency_key: String,
    pub deadline: Option<String>,
}

/// How a provider says that a tool call ended.
#[derive(Debug, PartialEq)]
#[allow(inconsistent_fields)]
pub enum ProviderToolOutcome {
    Success { content: Vec<WireContentBlock> },
    Error { code: String, message: String, content: Vec<WireContentBlock> },
    Cancelled { cause: WireCancelCauseKind },
}

#[verifier::ext_equal]
pub enum ProviderOutcomeView {
    Success { content: Seq<ContentBlockView> },
    Error { code: Seq<char>, message: Seq<char>, content: Seq<ContentBlockView> },
    Cancelled { cause: WireCancelCauseKind },
}

impl View for ProviderToolOutcome {
    type V = ProviderOutcomeView;

    open spec fn view(&self) -> ProviderOutcomeView {
        match self {
            ProviderToolOutcome::Success { content } => ProviderOutcomeView::Success {
                content: wire_content_view(content@),
            },
            ProviderToolOutcome::Error { code, message, content } => ProviderOutcomeView::Error {
                code: code@,
                message: message@,
                content: wire_content_view(content@),
            },
            ProviderToolOutcome::Cancelled { cause } => ProviderOutcomeView::Cancelled {
                cause: *cause,
            },
        }
    }
}

#[derive(Debug, PartialEq)]
pub struct ToolInvokeResult {
    pub outcome: ProviderToolOutcome,
}

/// Why an invocation or its result is refused.
#[derive(Debug, PartialEq, Eq)]
#[non_exhaustive]
pub enum ToolInvokeValidationError {
    EmptyField(&'static str),
    OperationInvocationMismatch,
    ZeroAttempt,
    InvalidArgumentsJson(String),
    EmptyDeadline,
    InvalidDeadline,
    EmptyOutcomeErrorCode,
    EmptyOutcomeErrorMessage,
    InvalidOutcomeContent(String),
}

#[verifier::ext_equal]
pub enum ToolInvokeErrorView {
    EmptyField(Seq<char>),
    OperationInvocationMismatch,
    ZeroAttempt,
    InvalidArgumentsJson(Seq<char>),
    EmptyDeadline,
    InvalidDeadline,
    EmptyOutcomeErrorCode,
    EmptyOutcomeErrorMessage,
    InvalidOutcomeContent(Seq<char>),
}

impl View for ToolInvokeValidationError {
    type V = ToolInvokeErrorView;

    open spec fn view(&self) -> ToolInvokeErrorView {
        match self {
            ToolInvokeValidationError::EmptyField(field) => ToolInvokeErrorView::EmptyField(field@),
            ToolInvokeValidationError::OperationInvocationMismatch => {
                ToolInvokeErrorView::OperationInvocationMismatch
            },
            ToolInvokeValidationError::ZeroAttempt => ToolInvokeErrorView::ZeroAttempt,
            ToolInvokeValidationError::InvalidArgumentsJson(message) => {
                ToolInvokeErrorView::InvalidArgumentsJson(message@)
            },
            ToolInvokeValidationError::EmptyDeadline => ToolInvokeErrorView::EmptyDeadline,
            ToolInvokeValidationError::InvalidDeadline => ToolInvokeErrorView::InvalidDeadline,
            ToolInvokeValidationError::EmptyOutcomeErrorCode => {
                ToolInvokeErrorView::EmptyOutcomeErrorCode
            },
            ToolInvokeValidationError::EmptyOutcomeErrorMessage => {
                ToolInvokeErrorView::EmptyOutcomeErrorMessage
            },
            ToolInvokeValidationError::InvalidOutcomeContent(message) => {
                ToolInvokeErrorView::InvalidOutcomeContent(message@)
            },
        }
    }
}

pub open spec fn tool_invoke_error_text(e: ToolInvokeErrorView) -> Seq<char> {
    match e {
        ToolInvokeErrorView::EmptyField(field) => {
            "tool.invoke field "@ + field + " must not be empty"@
        },
        ToolInvokeErrorView::OperationInvocationMismatch => {
            "tool.invoke operationId must equal invocationId in protocol v1"@
        },
        ToolInvokeErrorView::ZeroAttempt => "tool.invoke attempt must be greater than zero"@,
        ToolInvokeErrorView::InvalidArgumentsJson(message) => {
            "tool.invoke argumentsJson is invalid JSON: "@ + message
        },
        ToolInvokeErrorView::EmptyDeadline => "tool.invoke deadline must not be an empty string"@,
        ToolInvokeErrorView::InvalidDeadline => {
            "tool.invoke deadline must be RFC3339 with a UTC offset"@
        },
        ToolInvokeErrorView::EmptyOutcomeErrorCode => {
            "tool result error outcome code must not be empty"@
        },
        ToolInvokeErrorView::EmptyOutcomeErrorMessage => {
            "tool result error outcome message must not be empty"@
        },
        ToolInvokeErrorView::InvalidOutcomeContent(message) => {
            "tool result content is invalid: "@ + message
        },
    }
}

impl ToolInvokeValidationError {
    pub fn message(&self) -> (r: String)
        ensures
            r@ == tool_invoke_error_text(self@),
    {
        match self {
            ToolInvokeValidationError::EmptyField(field) => {
                concat3("tool.invoke field ", field, " must not be empty")
            },
            ToolInvokeValidationError::OperationInvocationMismatch => {
                "tool.invoke operationId must equal invocationId in protocol v1".to_owned()
            },
            ToolInvokeValidationError::ZeroAttempt => {
                "tool.invoke attempt must be greater than zero".to_owned()
            },
            ToolInvokeValidationError::InvalidArgumentsJson(message) => {
                concat2("tool.invoke argumentsJson is invalid JSON: ", message.as_str())
            },
            ToolInvokeValidationError::EmptyDeadline => {
                "tool.invoke deadline must not be an empty string".to_owned()
            },
            ToolInvokeValidationError::InvalidDeadline => {
                "tool.invoke deadline must be RFC3339 with a UTC offset".to_owned()
            },
            ToolInvokeValidationError::EmptyOutcomeErrorCode => {
                "tool result error outcome code must not be empty".to_owned()
            },
            ToolInvokeValidationError::EmptyOutcomeErrorMessage => {
                "tool result error outcome message must not be empty".to_owned()
            },
            ToolInvokeValidationError::InvalidOutcomeContent(message) => {
                concat2("tool result content is invalid: ", message.as_str())
            },
        }
    }
}

/// The view of a check.
pub open spec fn tool_invoke_check(r: Result<(), ToolInvokeValidationError>) -> Option<
    ToolInvokeErrorView,
> {
    match r {
        Ok(_) => None,
        Err(e) => Some(e@),
    }
}

/// The name of the first field that is empty.
pub open spec fn empty_field(p: ToolInvokeParams) -> Option<Seq<char>> {
    if p.operation_id@.len() == 0 {
        Some("operationId"@)
    } else if p.invocation_id@.len() == 0 {
        Some("invocationId"@)
    } else if p.call_id@.len() == 0 {
        Some("callId"@)
    } else if p.session_id@.len() == 0 {
        Some("sessionId"@)
    } else if p.tool@.len() == 0 {
        Some("tool"@)
    } else if p.idempotency_key@.len() == 0 {
        Some("idempotencyKey"@)
    } else {
        None
    }
}

/// What is wrong with an invocation, given what reading its arguments as JSON and
/// its deadline as a time gave.
pub open spec fn invoke_fault(
    p: ToolInvokeParams,
    arguments: Result<JsonRootView, Seq<char>>,
    offset: Option<i32>,
) -> Option<ToolInvokeErrorView> {
    if let Some(field) = empty_field(p) {
        Some(ToolInvokeErrorView::EmptyField(field))
    } else if p.operation_id@ != p.invocation_id@ {
        Some(ToolInvokeErrorView::OperationInvocationMismatch)
    } else if p.attempt == 0 {
        Some(ToolInvokeErrorView::ZeroAttempt)
    } else if let Err(message) = arguments {
        Some(ToolInvokeErrorView::InvalidArgumentsJson(message))
    } else if let Some(deadline) = opt_text(p.deadline) {
        if deadline.len() == 0 {
            Some(ToolInvokeErrorView::EmptyDeadline)
        } else if offset != Some(0i32) {
            Some(ToolInvokeErrorView::InvalidDeadline)
        } else {
            None
        }
    } else {
        None
    }
}

/// What reading an optional deadline as a time gives.
pub open spec fn deadline_offset(deadline: Option<Seq<char>>) -> Option<i32> {
    match deadline {
        Some(deadline) => rfc3339_offset(deadline),
        None => None,
    }
}

pub(crate) fn read_deadline(deadline: &Option<String>) -> (r: Option<i32>)
    ensures
        r == deadline_offset(opt_text(*deadline)),
{
    match deadline {
        Some(deadline) => read_rfc3339(deadline.as_str()),
        None => None,
    }
}

impl ToolInvokeParams {
    pub fn validate(&self) -> (r: Result<(), ToolInvokeValidationError>)
        ensures
            tool_invoke_check(r) == invoke_fault(
                *self,
                json_reading(self.arguments_json@),
                deadline_offset(opt_text(self.deadline)),
            ),
    {
        self.check(read_json(self.arguments_json.as_str()), read_deadline(&self.deadline))
    }

    /// Checks the invocation, given what reading its arguments as JSON and its
    /// deadline as a time gave.
    pub fn check(&self, arguments: Result<JsonRoot, String>, offset: Option<i32>) -> (r: Result<
        (),
        ToolInvokeValidationError,
    >)
        ensures
            tool_invoke_check(r) == invoke_fault(*self, reading_view(arguments), offset),
    {
        if self.operation_id.as_str().is_empty() {
            return Err(ToolInvokeValidationError::EmptyField("operationId"));
        }
        if self.invocation_id.as_str().is_empty() {
            return Err(ToolInvokeValidationError::EmptyField("invocationId"));
        }
        if self.call_id.as_str().is_empty() {
            return Err(ToolInvokeValidationError::EmptyField("callId"));
        }
        if self.session_id.as_str().is_empty() {
            return Err(ToolInvokeValidationError::EmptyField("sessionId"));
        }
        if self.tool.as_str().is_empty() {
            return Err(ToolInvokeValidationError::EmptyField("tool"));
        }
        if self.idempotency_key.as_str().is_empty() {
            return Err(ToolInvokeValidationError::EmptyField("idempotencyKey"));
        }
        if self.operation_id != self.invocation_id {
            return Err(ToolInvokeValidationError::OperationInvocationMismatch);
        }
        if self.attempt == 0 {
            return Err(ToolInvokeValidationError::ZeroAttempt);
        }
        if let Err(message) = arguments {
            return Err(ToolInvokeValidationError::InvalidArgumentsJson(message));
        }
        if let Some(deadline) = &self.deadline {
            if deadline.as_str().is_empty() {
                return Err(ToolInvokeValidationError::EmptyDeadline);
            }
            if !utc_offset(offset) {
                return Err(ToolInvokeValidationError::InvalidDeadline);
            }
        }
        Ok(())
    }
}

/// What is wrong with the content of an outcome.
pub open spec fn outcome_content_fault(content: Seq<ContentBlockView>) -> Option<
    ToolInvokeErrorView,
> {
    match content_fault(content) {
        Some(fault) => Some(ToolInvokeErrorView::InvalidOutcomeContent(common_error_text(fault))),
        None => None,
    }
}

/// What is wrong with an outcome.
pub open spec fn outcome_fault(o: ProviderOutcomeView) -> Option<ToolInvokeErrorView> {
    match o {
        ProviderOutcomeView::Success { content } => outcome_content_fault(content),
        ProviderOutcomeView::Error { code, message, content } => {
            if code.len() == 0 {
                Some(ToolInvokeErrorView::EmptyOutcomeErrorCode)
            } else if message.len() == 0 {
                Some(ToolInvokeErrorView::EmptyOutcomeErrorMessage)
            } else {
                outcome_content_fault(content)
            }
        },
        ProviderOutcomeView::Cancelled { .. } => None,
    }
}

impl ProviderToolOutcome {
    pub fn validate(&self) -> (r: Result<(), ToolInvokeValidationError>)
        ensures
            tool_invoke_check(r) == outcome_fault(self@),
    {
        let content = match self {
            ProviderToolOutcome::Success { content } => content,
            ProviderToolOutcome::Error { code, message, content } => {
                if code.as_str().is_empty() {
                    return Err(ToolInvokeValidationError::EmptyOutcomeErrorCode);
                }
                if message.as_str().is_empty() {
                    return Err(ToolInvokeValidationError::EmptyOutcomeErrorMessage);
                }
                content
            },
            ProviderToolOutcome::Cancelled { .. } => {
                return Ok(());
            },
        };
        match validate_content(content) {
            Ok(()) => Ok(()),
            Err(error) => Err(ToolInvokeValidationError::InvalidOutcomeContent(error.message())),
        }
    }
}

impl ToolInvokeResult {
    pub fn validate(&self) -> (r: Result<(), ToolInvokeValidationError>)
        ensures
            tool_invoke_check(r) == outcome_fault(self.outcome@),
    {
        self.outcome.validate()
    }
}

/// An invocation passes if and only if all its names are given, the operation is the
/// invocation, it is at least the first attempt, its arguments read as JSON, and its
/// deadline, if it has one, is a time in UTC.
pub proof fn law_invocations_pass_when_complete(
    p: ToolInvokeParams,
    arguments: Result<JsonRootView, Seq<char>>,
    offset: Option<i32>,
)
    ensures
        invoke_fault(p, arguments, offset) is None <==> {
            &&& p.operation_id@.len() > 0 && p.operation_id@ == p.invocation_id@
            &&& p.call_id@.len() > 0 && p.session_id@.len() > 0 && p.tool@.len() > 0
                && p.idempotency_key@.len() > 0
            &&& p.attempt > 0
            &&& arguments is Ok
            &&& p.deadline matches Some(d) ==> d@.len() > 0 && offset == Some(0i32)
        },
{
}

/// An outcome passes if and only if its content does and an error has a code and a message;
/// a cancellation always passes.
pub proof fn law_outcomes_pass_when_complete(o: ProviderOutcomeView)
    ensures
        outcome_fault(o) is None <==> match o {
            ProviderOutcomeView::Success { content } => content_fault(content) is None,
            ProviderOutcomeView::Error { code, message, content } => code.len() > 0 && message.len()
                > 0 && content_fault(content) is None,
            ProviderOutcomeView::Cancelled { .. } => true,
        },
{
}

/// What is reported of an invocation is what is wrong with it, by the name that the field has
/// on the wire.
pub proof fn law_invocation_faults_are_named(
    p: ToolInvokeParams,
    arguments: Result<JsonRootView, Seq<char>>,
    offset: Option<i32>,
)
    ensures
        match invoke_fault(p, arguments, offset) {
            None => true,
            Some(ToolInvokeErrorView::EmptyField(field)) => {
                ||| field == "operationId"@ && p.operation_id@.len() == 0
                ||| field == "invocationId"@ && p.invocation_id@.len() == 0
                ||| field == "callId"@ && p.call_id@.len() == 0
                ||| field == "sessionId"@ && p.session_id@.len() == 0
                ||| field == "tool"@ && p.tool@.len() == 0
                ||| field == "idempotencyKey"@ && p.idempotency_key@.len() == 0
            },
            Some(ToolInvokeErrorView::OperationInvocationMismatch) => p.operation_id@
                != p.invocation_id@,
            Some(ToolInvokeErrorView::ZeroAttempt) => p.attempt == 0,
            Some(ToolInvokeErrorView::InvalidArgumentsJson(message)) => arguments == Err::<
                JsonRootView,
                Seq<char>,
            >(message),
            Some(ToolInvokeErrorView::EmptyDeadline) => p.deadline is Some && p.deadline->0@.len()
                == 0,
            Some(ToolInvokeErrorView::InvalidDeadline) => p.deadline is Some && p.deadline->0@.len()
                > 0 && offset != Some(0i32),
            Some(_) => false,
        },
{
}

/// What is reported of an outcome is what is wrong with it.
pub proof fn law_outcome_faults_are_named(o: ProviderOutcomeView)
    ensures
        match outcome_fault(o) {
            None => true,
            Some(ToolInvokeErrorView::EmptyOutcomeErrorCode) => o is Error && o->code.len() == 0,
            Some(ToolInvokeErrorView::EmptyOutcomeErrorMessage) => o is Error && o->code.len() > 0
                && o->message.len() == 0,
            Some(ToolInvokeErrorView::InvalidOutcomeContent(text)) => match o {
                ProviderOutcomeView::Success { content } => is_fault_of_content(text, content),
                ProviderOutcomeView::Error { content, .. } => is_fault_of_content(text, content),
                ProviderOutcomeView::Cancelled { .. } => false,
            },
            Some(_) => false,
        },
{
}

/// Whether `text` is how the fault of some content is worded.
pub open spec fn is_fault_of_content(text: Seq<char>, content: Seq<ContentBlockView>) -> bool {
    content_fault(content) is Some && text == common_error_text(content_fault(content)->0)
}

} // verus!
