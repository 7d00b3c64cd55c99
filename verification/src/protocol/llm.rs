//! Model streams on the wire.

use vstd::prelude::*;

use crate::json::{json_reading, read_json, reading_view, JsonRoot, JsonRootView, JsonText};
use crate::llm::request::{ModelOptions, ModelRequestView, ModelToolSpec};
use crate::llm::stream::{BlockType, FinishReason, FinishView, StreamEventView};
use crate::message::{MessageView, PortableErrorView};
use crate::protocol::common::{
    block_fault, common_error_text, failure_fault, message_fault, usage_fault, utc_offset,
    wire_messages_view, CommonWireErrorView, WireContentBlock, WireErrorCode, WireMessage,
    WirePortableError, WireTokenUsage,
};
use crate::protocol::tool::{deadline_offset, read_deadline};
use crate::text::{concat2, concat3, opt_text};
use crate::types::{ErrorCode, MAX_JSON_SAFE_INTEGER};

verus! {

#[derive(Clone, Copy, Debug, PartialEq, Eq, Structural)]
pub struct WireModelOptions {
    pub max_output_tokens: Option<u32>,
}

impl Default for WireModelOptions {
    fn default() -> (r: Self)
        ensures
            r.max_output_tokens is None,
    {
        WireModelOptions { max_output_tokens: None }
    }
}

#[derive(Debug, PartialEq)]
pub struct WireModelToolSpec {
    pub name: String,
    pub description: String,
    pub input_schema: JsonText,
}

/// The tool that a wire tool stands for.
pub open spec fn tool_spec_of(tool: WireModelToolSpec) -> ModelToolSpec {
    ModelToolSpec {
        name: tool.name,
        description: tool.description,
        input_schema: tool.input_schema,
    }
}

/// The tools that wire tools stand for.
pub open spec fn tool_specs_of(tools: Seq<WireModelToolSpec>) -> Seq<ModelToolSpec> {
    tools.map_values(|t: WireModelToolSpec| tool_spec_of(t))
}

#[derive(Debug, PartialEq)]
pub struct WireModelRequest {
    pub request_id: String,
    pub session_id: String,
    pub provider: String,
    pub model: String,
    pub system: Option<String>,
    pub messages: Vec<WireMessage>,
    pub tools: Vec<WireModelToolSpec>,
    pub options: WireModelOptions,
}

impl View for WireModelRequest {
    type V = ModelRequestView;

    open spec fn view(&self) -> ModelRequestView {
        ModelRequestView {
            request_id: self.request_id@,
            session_id: self.session_id@,
            provider: self.provider@,
            model: self.model@,
            system: opt_text(self.system),
            messages: wire_messages_view(self.messages@),
            tools: tool_specs_of(self.tools@),
            options: ModelOptions { max_output_tokens: self.options.max_output_tokens },
        }
    }
}

#[derive(Debug, PartialEq)]
pub struct LlmStartParams {
    pub operation_id: String,
    pub stream_id: String,
    pub request: WireModelRequest,
    pub deadline: Option<String>,
}

#[derive(Debug, PartialEq, Eq)]
pub struct LlmStartResult {
    pub accepted: bool,
    pub stream_id: String,
    pub reason: Option<String>,
}

#[derive(Clone, Copy, Debug, PartialEq, Eq, Structural)]
pub enum WireBlockType {
    Text,
    Reasoning,
    ToolCall,
}

/// The block type that a wire block type stands for.
pub open spec fn block_type_of(block_type: WireBlockType) -> BlockType {
    match block_type {
        WireBlockType::Text => BlockType::Text,
        WireBlockType::Reasoning => BlockType::Reasoning,
        WireBlockType::ToolCall => BlockType::ToolCall,
    }
}

#[derive(Clone, Copy, Debug, PartialEq, Eq, Structural)]
pub enum WireFinishReason {
    Completed,
    MaxTokens,
    Error,
    Cancelled,
}

/// The reason that a wire reason stands for.
pub open spec fn finish_reason_of(reason: WireFinishReason) -> FinishReason {
    match reason {
        WireFinishReason::Completed => FinishReason::Completed,
        WireFinishReason::MaxTokens => FinishReason::MaxTokens,
        WireFinishReason::Error => FinishReason::Error,
        WireFinishReason::Cancelled => FinishReason::Cancelled,
    }
}

#[derive(Debug, PartialEq)]
#[allow(inconsistent_fields)]
pub enum WireLlmStreamEvent {
    BlockStart { index: u32, block_type: WireBlockType },
    TextDelta { index: u32, text: String },
    ReasoningDelta { index: u32, text: String },
    ToolCallDelta { index: u32, call_id: String, name: Option<String>, arguments_delta: String },
    BlockEnd { index: u32, block: WireContentBlock },
    Usage { usage: WireTokenUsage },
    Finish { reason: WireFinishReason, failure: Option<WirePortableError> },
}

/// The view of an optional failure.
pub open spec fn wire_failure(o: Option<WirePortableError>) -> Option<PortableErrorView> {
    match o {
        Some(failure) => Some(failure@),
        None => None,
    }
}

impl View for WireLlmStreamEvent {
    type V = StreamEventView;

    open spec fn view(&self) -> StreamEventView {
        match self {
            WireLlmStreamEvent::BlockStart { index, block_type } => StreamEventView::BlockStart {
                index: *index,
                block_type: block_type_of(*block_type),
            },
            WireLlmStreamEvent::TextDelta { index, text } => StreamEventView::TextDelta {
                index: *index,
                text: text@,
            },
            WireLlmStreamEvent::ReasoningDelta { index, text } => StreamEventView::ReasoningDelta {
                index: *index,
                text: text@,
            },
            WireLlmStreamEvent::ToolCallDelta { index, call_id, name, arguments_delta } => {
                StreamEventView::ToolCallDelta {
                    index: *index,
                    call_id: call_id@,
                    name: opt_text(*name),
                    arguments_delta: arguments_delta@,
                }
            },
            WireLlmStreamEvent::BlockEnd { index, block } => StreamEventView::BlockEnd {
                index: *index,
                block: block@,
            },
            WireLlmStreamEvent::Usage { usage } => StreamEventView::Usage(usage@),
            WireLlmStreamEvent::Finish { reason, failure } => StreamEventView::Finish(
                FinishView { reason: finish_reason_of(*reason), failure: wire_failure(*failure) },
            ),
        }
    }
}

#[derive(Debug, PartialEq)]
pub struct LlmEventParams {
    pub stream_id: String,
    pub seq: u64,
    pub event: WireLlmStreamEvent,
}

/// Why a request, a start or an event is refused.
#[derive(Debug, PartialEq, Eq)]
#[non_exhaustive]
pub enum LlmWireValidationError {
    EmptyField(&'static str),
    ZeroMaxOutputTokens,
    EmptyToolName,
    DuplicateToolName(String),
    ToolSchemaNotObject(String),
    OperationRequestMismatch,
    EmptyDeadline,
    InvalidDeadline,
    ZeroStreamSequence,
    StreamSequenceTooLarge,
    InvalidMessage(String),
    InvalidContent(String),
    InvalidUsage(String),
    InvalidFailure(String),
    EmptyToolCallId,
    EmptyToolCallName,
    SuccessFinishHasFailure,
    FailureFinishMissingFailure,
    ErrorFinishCancelledCode,
    CancelledFinishWrongCode,
}

#[verifier::ext_equal]
pub enum LlmWireErrorView {
    EmptyField(Seq<char>),
    ZeroMaxOutputTokens,
    EmptyToolName,
    DuplicateToolName(Seq<char>),
    ToolSchemaNotObject(Seq<char>),
    OperationRequestMismatch,
    EmptyDeadline,
    InvalidDeadline,
    ZeroStreamSequence,
    StreamSequenceTooLarge,
    InvalidMessage(Seq<char>),
    InvalidContent(Seq<char>),
    InvalidUsage(Seq<char>),
    InvalidFailure(Seq<char>),
    EmptyToolCallId,
    EmptyToolCallName,
    SuccessFinishHasFailure,
    FailureFinishMissingFailure,
    ErrorFinishCancelledCode,
    CancelledFinishWrongCode,
}

impl View for LlmWireValidationError {
    type V = LlmWireErrorView;

    open spec fn view(&self) -> LlmWireErrorView {
        match self {
            LlmWireValidationError::EmptyField(field) => LlmWireErrorView::EmptyField(field@),
            LlmWireValidationError::ZeroMaxOutputTokens => LlmWireErrorView::ZeroMaxOutputTokens,
            LlmWireValidationError::EmptyToolName => LlmWireErrorView::EmptyToolName,
            LlmWireValidationError::DuplicateToolName(n) => LlmWireErrorView::DuplicateToolName(n@),
            LlmWireValidationError::ToolSchemaNotObject(n) => {
                LlmWireErrorView::ToolSchemaNotObject(n@)
            },
            LlmWireValidationError::OperationRequestMismatch => {
                LlmWireErrorView::OperationRequestMismatch
            },
            LlmWireValidationError::EmptyDeadline => LlmWireErrorView::EmptyDeadline,
            LlmWireValidationError::InvalidDeadline => LlmWireErrorView::InvalidDeadline,
            LlmWireValidationError::ZeroStreamSequence => LlmWireErrorView::ZeroStreamSequence,
            LlmWireValidationError::StreamSequenceTooLarge => {
                LlmWireErrorView::StreamSequenceTooLarge
            },
            LlmWireValidationError::InvalidMessage(m) => LlmWireErrorView::InvalidMessage(m@),
            LlmWireValidationError::InvalidContent(m) => LlmWireErrorView::InvalidContent(m@),
            LlmWireValidationError::InvalidUsage(m) => LlmWireErrorView::InvalidUsage(m@),
            LlmWireValidationError::InvalidFailure(m) => LlmWireErrorView::InvalidFailure(m@),
            LlmWireValidationError::EmptyToolCallId => LlmWireErrorView::EmptyToolCallId,
            LlmWireValidationError::EmptyToolCallName => LlmWireErrorView::EmptyToolCallName,
            LlmWireValidationError::SuccessFinishHasFailure => {
                LlmWireErrorView::SuccessFinishHasFailure
            },
            LlmWireValidationError::FailureFinishMissingFailure => {
                LlmWireErrorView::FailureFinishMissingFailure
            },
            LlmWireValidationError::ErrorFinishCancelledCode => {
                LlmWireErrorView::ErrorFinishCancelledCode
            },
            LlmWireValidationError::CancelledFinishWrongCode => {
                LlmWireErrorView::CancelledFinishWrongCode
            },
        }
    }
}

pub open spec fn llm_wire_error_text(e: LlmWireErrorView) -> Seq<char> {
    match e {
        LlmWireErrorView::EmptyField(field) => "LLM wire field "@ + field + " must not be empty"@,
        LlmWireErrorView::ZeroMaxOutputTokens => {
            "LLM maxOutputTokens must be greater than zero when specified"@
        },
        LlmWireErrorView::EmptyToolName => "LLM tool name must not be empty"@,
        LlmWireErrorView::DuplicateToolName(name) => {
            "LLM tool "@ + name + " is declared more than once"@
        },
        LlmWireErrorView::ToolSchemaNotObject(name) => {
            "LLM tool "@ + name + " inputSchema must be an object"@
        },
        LlmWireErrorView::OperationRequestMismatch => {
            "llm.start operationId must equal request.requestId in protocol v1"@
        },
        LlmWireErrorView::EmptyDeadline => "llm.start deadline must not be an empty string"@,
        LlmWireErrorView::InvalidDeadline => {
            "llm.start deadline must be RFC3339 with a UTC offset"@
        },
        LlmWireErrorView::ZeroStreamSequence => "LLM stream seq must start at one"@,
        LlmWireErrorView::StreamSequenceTooLarge => {
            "LLM stream seq exceeds the maximum safe JSON integer"@
        },
        LlmWireErrorView::InvalidMessage(message) => "LLM message is invalid: "@ + message,
        LlmWireErrorView::InvalidContent(message) => "LLM content block is invalid: "@ + message,
        LlmWireErrorView::InvalidUsage(message) => "LLM usage is invalid: "@ + message,
        LlmWireErrorView::InvalidFailure(message) => "LLM failure is invalid: "@ + message,
        LlmWireErrorView::EmptyToolCallId => "tool-call-delta callId must not be empty"@,
        LlmWireErrorView::EmptyToolCallName => {
            "tool-call-delta name must not be empty when present"@
        },
        LlmWireErrorView::SuccessFinishHasFailure => {
            "completed/max-tokens finish may not carry failure"@
        },
        LlmWireErrorView::FailureFinishMissingFailure => {
            "error/cancelled finish must carry failure"@
        },
        LlmWireErrorView::ErrorFinishCancelledCode => {
            "error finish must not carry CANCELLED failure code"@
        },
        LlmWireErrorView::CancelledFinishWrongCode => {
            "cancelled finish must carry CANCELLED failure code"@
        },
    }
}

impl LlmWireValidationError {
    pub fn message(&self) -> (r: String)
        ensures
            r@ == llm_wire_error_text(self@),
    {
        match self {
            LlmWireValidationError::EmptyField(field) => {
                concat3("LLM wire field ", field, " must not be empty")
            },
            LlmWireValidationError::ZeroMaxOutputTokens => {
                "LLM maxOutputTokens must be greater than zero when specified".to_owned()
            },
            LlmWireValidationError::EmptyToolName => "LLM tool name must not be empty".to_owned(),
            LlmWireValidationError::DuplicateToolName(name) => {
                concat3("LLM tool ", name.as_str(), " is declared more than once")
            },
            LlmWireValidationError::ToolSchemaNotObject(name) => {
                concat3("LLM tool ", name.as_str(), " inputSchema must be an object")
            },
            LlmWireValidationError::OperationRequestMismatch => {
                "llm.start operationId must equal request.requestId in protocol v1".to_owned()
            },
            LlmWireValidationError::EmptyDeadline => {
                "llm.start deadline must not be an empty string".to_owned()
            },
            LlmWireValidationError::InvalidDeadline => {
                "llm.start deadline must be RFC3339 with a UTC offset".to_owned()
            },
            LlmWireValidationError::ZeroStreamSequence => {
                "LLM stream seq must start at one".to_owned()
            },
            LlmWireValidationError::StreamSequenceTooLarge => {
                "LLM stream seq exceeds the maximum safe JSON integer".to_owned()
            },
            LlmWireValidationError::InvalidMessage(message) => {
                concat2("LLM message is invalid: ", message.as_str())
            },
            LlmWireValidationError::InvalidContent(message) => {
                concat2("LLM content block is invalid: ", message.as_str())
            },
            LlmWireValidationError::InvalidUsage(message) => {
                concat2("LLM usage is invalid: ", message.as_str())
            },
            LlmWireValidationError::InvalidFailure(message) => {
                concat2("LLM failure is invalid: ", message.as_str())
            },
            LlmWireValidationError::EmptyToolCallId => {
                "tool-call-delta callId must not be empty".to_owned()
            },
            LlmWireValidationError::EmptyToolCallName => {
                "tool-call-delta name must not be empty when present".to_owned()
            },
            LlmWireValidationError::SuccessFinishHasFailure => {
                "completed/max-tokens finish may not carry failure".to_owned()
            },
            LlmWireValidationError::FailureFinishMissingFailure => {
                "error/cancelled finish must carry failure".to_owned()
            },
            LlmWireValidationError::ErrorFinishCancelledCode => {
                "error finish must not carry CANCELLED failure code".to_owned()
            },
            LlmWireValidationError::CancelledFinishWrongCode => {
                "cancelled finish must carry CANCELLED failure code".to_owned()
            },
        }
    }
}

/// The view of a check.
pub open spec fn llm_check(r: Result<(), LlmWireValidationError>) -> Option<LlmWireErrorView> {
    match r {
        Ok(_) => None,
        Err(e) => Some(e@),
    }
}

/// The fault of the first faulty message from `n` on.
pub open spec fn messages_fault(s: Seq<MessageView>, n: int) -> Option<LlmWireErrorView>
    decreases s.len() - n,
{
    if n >= s.len() {
        None
    } else if let Some(fault) = message_fault(s[n]) {
        Some(LlmWireErrorView::InvalidMessage(common_error_text(fault)))
    } else {
        messages_fault(s, n + 1)
    }
}

/// Whether one of the first `n` tools has the name `name`.
pub open spec fn wire_tool_before(s: Seq<ModelToolSpec>, n: int, name: Seq<char>) -> bool {
    exists|i: int| 0 <= i < n && (#[trigger] s[i]).name@ == name
}

/// What is wrong with a tool, given whether a tool before it has its name and what
/// reading its schema as JSON gave.
pub open spec fn wire_tool_fault(
    name: Seq<char>,
    repeated: bool,
    schema: Result<JsonRootView, Seq<char>>,
) -> Option<LlmWireErrorView> {
    if name.len() == 0 {
        Some(LlmWireErrorView::EmptyToolName)
    } else if repeated {
        Some(LlmWireErrorView::DuplicateToolName(name))
    } else {
        match schema {
            Ok(JsonRootView::Object(_)) => None,
            _ => Some(LlmWireErrorView::ToolSchemaNotObject(name)),
        }
    }
}

/// The fault of the first faulty tool from `n` on.
pub open spec fn wire_tools_fault(s: Seq<ModelToolSpec>, n: int) -> Option<LlmWireErrorView>
    decreases s.len() - n,
{
    if n >= s.len() {
        None
    } else if let Some(fault) = wire_tool_fault(
        s[n].name@,
        wire_tool_before(s, n, s[n].name@),
        json_reading(s[n].input_schema@),
    ) {
        Some(fault)
    } else {
        wire_tools_fault(s, n + 1)
    }
}

/// The name of the first field of a request that is empty.
pub open spec fn empty_request_field(r: ModelRequestView) -> Option<Seq<char>> {
    if r.request_id.len() == 0 {
        Some("requestId"@)
    } else if r.session_id.len() == 0 {
        Some("sessionId"@)
    } else if r.provider.len() == 0 {
        Some("provider"@)
    } else if r.model.len() == 0 {
        Some("model"@)
    } else {
        None
    }
}

/// What is wrong with a request: its names, its limit, its messages, its tools.
pub open spec fn wire_request_fault(r: ModelRequestView) -> Option<LlmWireErrorView> {
    if let Some(field) = empty_request_field(r) {
        Some(LlmWireErrorView::EmptyField(field))
    } else if r.options.max_output_tokens == Some(0u32) {
        Some(LlmWireErrorView::ZeroMaxOutputTokens)
    } else if let Some(fault) = messages_fault(r.messages, 0) {
        Some(fault)
    } else {
        wire_tools_fault(r.tools, 0)
    }
}

/// Checks a tool, given whether a tool before it has its name and what reading its
/// schema as JSON gave.
pub fn check_tool_spec(name: &String, repeated: bool, schema: Result<JsonRoot, String>) -> (r:
    Result<(), LlmWireValidationError>)
    ensures
        llm_check(r) == wire_tool_fault(name@, repeated, reading_view(schema)),
{
    if name.as_str().is_empty() {
        return Err(LlmWireValidationError::EmptyToolName);
    }
    if repeated {
        return Err(LlmWireValidationError::DuplicateToolName(name.clone()));
    }
    match schema {
        Ok(JsonRoot::Object(_)) => Ok(()),
        _ => Err(LlmWireValidationError::ToolSchemaNotObject(name.clone())),
    }
}

fn named_before(tools: &Vec<WireModelToolSpec>, n: usize, name: &String) -> (r: bool)
    requires
        n <= tools@.len(),
    ensures
        r == wire_tool_before(tool_specs_of(tools@), n as int, name@),
{
    let ghost all = tool_specs_of(tools@);
    let mut i: usize = 0;
    while i < n
        invariant
            i <= n <= tools@.len(),
            all == tool_specs_of(tools@),
            forall|j: int| 0 <= j < i ==> (#[trigger] all[j]).name@ != name@,
        decreases n - i,
    {
        if tools[i].name == *name {
            assert(all[i as int].name@ == name@);
            return true;
        }
        i = i + 1;
    }
    false
}

fn check_messages(messages: &Vec<WireMessage>) -> (r: Result<(), LlmWireValidationError>)
    ensures
        llm_check(r) == messages_fault(wire_messages_view(messages@), 0),
{
    let ghost all = wire_messages_view(messages@);
    let mut i: usize = 0;
    while i < messages.len()
        invariant
            i <= messages@.len(),
            all == wire_messages_view(messages@),
            messages_fault(all, 0) == messages_fault(all, i as int),
        decreases messages@.len() - i,
    {
        match messages[i].validate() {
            Ok(()) => {},
            Err(error) => {
                return Err(LlmWireValidationError::InvalidMessage(error.message()));
            },
        }
        i = i + 1;
    }
    Ok(())
}

fn check_tools(tools: &Vec<WireModelToolSpec>) -> (r: Result<(), LlmWireValidationError>)
    ensures
        llm_check(r) == wire_tools_fault(tool_specs_of(tools@), 0),
{
    let ghost all = tool_specs_of(tools@);
    let mut i: usize = 0;
    while i < tools.len()
        invariant
            i <= tools@.len(),
            all == tool_specs_of(tools@),
            wire_tools_fault(all, 0) == wire_tools_fault(all, i as int),
        decreases tools@.len() - i,
    {
        let tool = &tools[i];
        match check_tool_spec(
            &tool.name,
            named_before(tools, i, &tool.name),
            read_json(tool.input_schema.as_str()),
        ) {
            Ok(()) => {},
            Err(error) => {
                return Err(error);
            },
        }
        i = i + 1;
    }
    Ok(())
}

impl WireModelRequest {
    pub fn validate(&self) -> (r: Result<(), LlmWireValidationError>)
        ensures
            llm_check(r) == wire_request_fault(self@),
    {
        if self.request_id.as_str().is_empty() {
            return Err(LlmWireValidationError::EmptyField("requestId"));
        }
        if self.session_id.as_str().is_empty() {
            return Err(LlmWireValidationError::EmptyField("sessionId"));
        }
        if self.provider.as_str().is_empty() {
            return Err(LlmWireValidationError::EmptyField("provider"));
        }
        if self.model.as_str().is_empty() {
            return Err(LlmWireValidationError::EmptyField("model"));
        }
        if let Some(limit) = self.options.max_output_tokens {
            if limit == 0 {
                return Err(LlmWireValidationError::ZeroMaxOutputTokens);
            }
        }
        match check_messages(&self.messages) {
            Ok(()) => check_tools(&self.tools),
            Err(error) => Err(error),
        }
    }
}

/// What is wrong with a start, given what reading its deadline as a time gave.
pub open spec fn start_fault(
    operation_id: Seq<char>,
    stream_id: Seq<char>,
    request: ModelRequestView,
    deadline: Option<Seq<char>>,
    offset: Option<i32>,
) -> Option<LlmWireErrorView> {
    if operation_id.len() == 0 {
        Some(LlmWireErrorView::EmptyField("operationId"@))
    } else if stream_id.len() == 0 {
        Some(LlmWireErrorView::EmptyField("streamId"@))
    } else if operation_id != request.request_id {
        Some(LlmWireErrorView::OperationRequestMismatch)
    } else if deadline is Some && deadline->0.len() == 0 {
        Some(LlmWireErrorView::EmptyDeadline)
    } else if deadline is Some && offset != Some(0i32) {
        Some(LlmWireErrorView::InvalidDeadline)
    } else {
        wire_request_fault(request)
    }
}

impl LlmStartParams {
    pub fn validate(&self) -> (r: Result<(), LlmWireValidationError>)
        ensures
            llm_check(r) == start_fault(
                self.operation_id@,
                self.stream_id@,
                self.request@,
                opt_text(self.deadline),
                deadline_offset(opt_text(self.deadline)),
            ),
    {
        self.check(read_deadline(&self.deadline))
    }

    /// Checks the start, given what reading its deadline as a time gave.
    pub fn check(&self, offset: Option<i32>) -> (r: Result<(), LlmWireValidationError>)
        ensures
            llm_check(r) == start_fault(
                self.operation_id@,
                self.stream_id@,
                self.request@,
                opt_text(self.deadline),
                offset,
            ),
    {
        if self.operation_id.as_str().is_empty() {
            return Err(LlmWireValidationError::EmptyField("operationId"));
        }
        if self.stream_id.as_str().is_empty() {
            return Err(LlmWireValidationError::EmptyField("streamId"));
        }
        if self.operation_id != self.request.request_id {
            return Err(LlmWireValidationError::OperationRequestMismatch);
        }
        if let Some(deadline) = &self.deadline {
            if deadline.as_str().is_empty() {
                return Err(LlmWireValidationError::EmptyDeadline);
            }
            if !utc_offset(offset) {
                return Err(LlmWireValidationError::InvalidDeadline);
            }
        }
        self.request.validate()
    }
}

/// What is wrong with the end of a stream: success carries no failure, an error
/// carries one that is no cancellation, and a cancellation carries just that.
pub open spec fn finish_fault(f: FinishView) -> Option<LlmWireErrorView> {
    if f.failure is Some && failure_fault(f.failure->0) is Some {
        Some(LlmWireErrorView::InvalidFailure(common_error_text(failure_fault(f.failure->0)->0)))
    } else {
        match (f.reason, f.failure) {
            (FinishReason::Completed, Some(_)) => Some(LlmWireErrorView::SuccessFinishHasFailure),
            (FinishReason::MaxTokens, Some(_)) => Some(LlmWireErrorView::SuccessFinishHasFailure),
            (FinishReason::Error, None) => Some(LlmWireErrorView::FailureFinishMissingFailure),
            (FinishReason::Error, Some(failure)) if failure.code == ErrorCode::Cancelled => Some(
                LlmWireErrorView::ErrorFinishCancelledCode,
            ),
            (FinishReason::Cancelled, None) => Some(LlmWireErrorView::FailureFinishMissingFailure),
            (FinishReason::Cancelled, Some(failure)) if failure.code != ErrorCode::Cancelled => {
                Some(LlmWireErrorView::CancelledFinishWrongCode)
            },
            _ => None,
        }
    }
}

/// What is wrong with an event.
pub open spec fn event_fault(e: StreamEventView) -> Option<LlmWireErrorView> {
    match e {
        StreamEventView::ToolCallDelta { call_id, name, .. } => {
            if call_id.len() == 0 {
                Some(LlmWireErrorView::EmptyToolCallId)
            } else if name is Some && name->0.len() == 0 {
                Some(LlmWireErrorView::EmptyToolCallName)
            } else {
                None
            }
        },
        StreamEventView::BlockEnd { block, .. } => match block_fault(block) {
            Some(fault) => Some(LlmWireErrorView::InvalidContent(common_error_text(fault))),
            None => None,
        },
        StreamEventView::Usage(usage) => match usage_fault(usage) {
            Some(fault) => Some(LlmWireErrorView::InvalidUsage(common_error_text(fault))),
            None => None,
        },
        StreamEventView::Finish(finish) => finish_fault(finish),
        _ => None,
    }
}

fn check_finish(reason: WireFinishReason, failure: &Option<WirePortableError>) -> (r: Result<
    (),
    LlmWireValidationError,
>)
    ensures
        llm_check(r) == finish_fault(
            (FinishView { reason: finish_reason_of(reason), failure: wire_failure(*failure) }),
        ),
{
    if let Some(failure) = failure {
        if let Err(error) = failure.validate() {
            return Err(LlmWireValidationError::InvalidFailure(error.message()));
        }
    }
    match (reason, failure) {
        (WireFinishReason::Completed, Some(_)) => {
            Err(LlmWireValidationError::SuccessFinishHasFailure)
        },
        (WireFinishReason::MaxTokens, Some(_)) => {
            Err(LlmWireValidationError::SuccessFinishHasFailure)
        },
        (WireFinishReason::Error, None) => Err(LlmWireValidationError::FailureFinishMissingFailure),
        (WireFinishReason::Error, Some(failure)) => {
            if failure.code == WireErrorCode::Cancelled {
                Err(LlmWireValidationError::ErrorFinishCancelledCode)
            } else {
                Ok(())
            }
        },
        (WireFinishReason::Cancelled, None) => {
            Err(LlmWireValidationError::FailureFinishMissingFailure)
        },
        (WireFinishReason::Cancelled, Some(failure)) => {
            if failure.code == WireErrorCode::Cancelled {
                Ok(())
            } else {
                Err(LlmWireValidationError::CancelledFinishWrongCode)
            }
        },
        _ => Ok(()),
    }
}

impl WireLlmStreamEvent {
    pub fn validate(&self) -> (r: Result<(), LlmWireValidationError>)
        ensures
            llm_check(r) == event_fault(self@),
    {
        match self {
            WireLlmStreamEvent::ToolCallDelta { call_id, name, .. } => {
                if call_id.as_str().is_empty() {
                    return Err(LlmWireValidationError::EmptyToolCallId);
                }
                if let Some(name) = name {
                    if name.as_str().is_empty() {
                        return Err(LlmWireValidationError::EmptyToolCallName);
                    }
                }
                Ok(())
            },
            WireLlmStreamEvent::BlockEnd { block, .. } => match block.validate() {
                Ok(()) => Ok(()),
                Err(error) => Err(LlmWireValidationError::InvalidContent(error.message())),
            },
            WireLlmStreamEvent::Usage { usage } => match usage.validate() {
                Ok(()) => Ok(()),
                Err(error) => Err(LlmWireValidationError::InvalidUsage(error.message())),
            },
            WireLlmStreamEvent::Finish { reason, failure } => check_finish(*reason, failure),
            _ => Ok(()),
        }
    }

    pub fn is_finish(&self) -> (r: bool)
        ensures
            r == (self@ is Finish),
    {
        match self {
            WireLlmStreamEvent::Finish { .. } => true,
            _ => false,
        }
    }
}

/// What is wrong with an event and its place in its stream.
pub open spec fn event_params_fault(
    stream_id: Seq<char>,
    seq: u64,
    event: StreamEventView,
) -> Option<LlmWireErrorView> {
    if stream_id.len() == 0 {
        Some(LlmWireErrorView::EmptyField("streamId"@))
    } else if seq == 0 {
        Some(LlmWireErrorView::ZeroStreamSequence)
    } else if seq > MAX_JSON_SAFE_INTEGER {
        Some(LlmWireErrorView::StreamSequenceTooLarge)
    } else {
        event_fault(event)
    }
}

impl LlmEventParams {
    pub fn validate(&self) -> (r: Result<(), LlmWireValidationError>)
        ensures
            llm_check(r) == event_params_fault(self.stream_id@, self.seq, self.event@),
    {
        if self.stream_id.as_str().is_empty() {
            return Err(LlmWireValidationError::EmptyField("streamId"));
        }
        if self.seq == 0 {
            return Err(LlmWireValidationError::ZeroStreamSequence);
        }
        if self.seq > MAX_JSON_SAFE_INTEGER {
            return Err(LlmWireValidationError::StreamSequenceTooLarge);
        }
        self.event.validate()
    }
}

/// A stream that passes ends in a failure exactly when its reason is one, and
/// in a cancellation exactly when its reason is that.
pub proof fn law_finish_and_failure_agree(f: FinishView)
    requires
        finish_fault(f) is None,
    ensures
        f.failure is Some <==> (f.reason == FinishReason::Error || f.reason
            == FinishReason::Cancelled),
        f.failure matches Some(failure) ==> (failure.code == ErrorCode::Cancelled <==> f.reason
            == FinishReason::Cancelled),
{
}

proof fn lemma_messages_fault(s: Seq<MessageView>, n: int)
    requires
        0 <= n,
    ensures
        messages_fault(s, n) is None <==> forall|i: int|
            n <= i < s.len() ==> message_fault(#[trigger] s[i]) is None,
    decreases s.len() - n,
{
    if n < s.len() {
        lemma_messages_fault(s, n + 1);
        if forall|i: int| n <= i < s.len() ==> message_fault(#[trigger] s[i]) is None {
            assert(message_fault(s[n]) is None);
        }
    }
}

/// Whether a schema is an object.
pub open spec fn has_object_schema(schema: Seq<char>) -> bool {
    json_reading(schema) is Ok && json_reading(schema)->Ok_0 is Object
}

proof fn lemma_wire_tools_fault(s: Seq<ModelToolSpec>, n: int)
    requires
        0 <= n,
    ensures
        wire_tools_fault(s, n) is None <==> forall|i: int|
            n <= i < s.len() ==> (#[trigger] s[i]).name@.len() > 0 && !wire_tool_before(
                s,
                i,
                s[i].name@,
            ) && has_object_schema(s[i].input_schema@),
    decreases s.len() - n,
{
    if n < s.len() {
        lemma_wire_tools_fault(s, n + 1);
        if forall|i: int|
            n <= i < s.len() ==> (#[trigger] s[i]).name@.len() > 0 && !wire_tool_before(
                s,
                i,
                s[i].name@,
            ) && has_object_schema(s[i].input_schema@) {
            assert(s[n].name@.len() > 0);
        }
    }
}

/// A request passes if and only if it names its request, session, provider and model, has no
/// limit of zero, all its messages pass, and its tools have names, each once, and schemas
/// that are objects.
pub proof fn law_requests_pass_when_complete(r: ModelRequestView)
    ensures
        wire_request_fault(r) is None <==> {
            &&& r.request_id.len() > 0 && r.session_id.len() > 0 && r.provider.len() > 0
                && r.model.len() > 0
            &&& r.options.max_output_tokens != Some(0u32)
            &&& forall|i: int|
                0 <= i < r.messages.len() ==> message_fault(#[trigger] r.messages[i]) is None
            &&& forall|i: int|
                0 <= i < r.tools.len() ==> (#[trigger] r.tools[i]).name@.len() > 0
                    && has_object_schema(r.tools[i].input_schema@)
            &&& forall|i: int, j: int|
                0 <= i < j < r.tools.len() ==> (#[trigger] r.tools[i]).name@ != (
                #[trigger] r.tools[j]).name@
        },
{
    let tools = r.tools;
    lemma_messages_fault(r.messages, 0);
    lemma_wire_tools_fault(tools, 0);
    if wire_tools_fault(tools, 0) is None {
        assert forall|i: int, j: int| 0 <= i < j < tools.len() implies (#[trigger] tools[i]).name@
            != (#[trigger] tools[j]).name@ by {
            assert(!wire_tool_before(tools, j, tools[j].name@));
        }
    }
    if (forall|i: int|
        0 <= i < tools.len() ==> (#[trigger] tools[i]).name@.len() > 0 && has_object_schema(
            tools[i].input_schema@,
        )) && (forall|i: int, j: int|
        0 <= i < j < tools.len() ==> (#[trigger] tools[i]).name@ != (#[trigger] tools[j]).name@) {
        assert forall|i: int| 0 <= i < tools.len() implies (#[trigger] tools[i]).name@.len() > 0
            && !wire_tool_before(tools, i, tools[i].name@) && has_object_schema(
            tools[i].input_schema@,
        ) by {
            if wire_tool_before(tools, i, tools[i].name@) {
                let k = choose|k: int| 0 <= k < i && (#[trigger] tools[k]).name@ == tools[i].name@;
                assert(tools[k].name@ != tools[i].name@);
            }
        }
    }
}

/// A start passes if and only if operation and stream are named, the operation is the
/// request, the deadline, if there is one, is a time in UTC, and the request passes.
pub proof fn law_starts_pass_when_complete(
    operation_id: Seq<char>,
    stream_id: Seq<char>,
    request: ModelRequestView,
    deadline: Option<Seq<char>>,
    offset: Option<i32>,
)
    ensures
        start_fault(operation_id, stream_id, request, deadline, offset) is None <==> {
            &&& operation_id.len() > 0 && operation_id == request.request_id
            &&& stream_id.len() > 0
            &&& deadline matches Some(d) ==> d.len() > 0 && offset == Some(0i32)
            &&& wire_request_fault(request) is None
        },
{
}

/// An event passes if and only if its stream is named, its number is one that a stream can
/// have, and what it carries passes: a piece of a call names its call and gives no empty
/// name, a block that ends is complete, usage can be held, and a finish carries a failure
/// with a message exactly if its reason is one, marked as cancelled exactly if that is the
/// reason.
pub proof fn law_events_pass_when_complete(stream_id: Seq<char>, seq: u64, event: StreamEventView)
    ensures
        event_params_fault(stream_id, seq, event) is None <==> {
            &&& stream_id.len() > 0
            &&& 1 <= seq <= MAX_JSON_SAFE_INTEGER
            &&& match event {
                StreamEventView::ToolCallDelta { call_id, name, .. } => call_id.len() > 0 && (
                name matches Some(n) ==> n.len() > 0),
                StreamEventView::BlockEnd { block, .. } => block_fault(block) is None,
                StreamEventView::Usage(usage) => usage.input_tokens <= MAX_JSON_SAFE_INTEGER
                    && usage.output_tokens <= MAX_JSON_SAFE_INTEGER,
                StreamEventView::Finish(f) => {
                    &&& f.failure is Some <==> (f.reason == FinishReason::Error || f.reason
                        == FinishReason::Cancelled)
                    &&& f.failure matches Some(e) ==> e.message.len() > 0 && (e.code
                        == ErrorCode::Cancelled <==> f.reason == FinishReason::Cancelled)
                },
                _ => true,
            }
        },
{
}

/// A wire reason or block type stands for the one of the same name.
pub proof fn law_wire_kinds_keep_their_meaning()
    ensures
        finish_reason_of(WireFinishReason::Completed) == FinishReason::Completed,
        finish_reason_of(WireFinishReason::MaxTokens) == FinishReason::MaxTokens,
        finish_reason_of(WireFinishReason::Error) == FinishReason::Error,
        finish_reason_of(WireFinishReason::Cancelled) == FinishReason::Cancelled,
        block_type_of(WireBlockType::Text) == BlockType::Text,
        block_type_of(WireBlockType::Reasoning) == BlockType::Reasoning,
        block_type_of(WireBlockType::ToolCall) == BlockType::ToolCall,
{
}

/// The model of a wire event says everything that the event says.
pub proof fn law_models_of_wire_events_are_whole(e: WireLlmStreamEvent)
    ensures
        match e {
            WireLlmStreamEvent::BlockStart { index, .. } => e@ matches StreamEventView::BlockStart {
                index: i,
                ..
            } && i == index,
            WireLlmStreamEvent::TextDelta { index, text } => e@ == (StreamEventView::TextDelta {
                index,
                text: text@,
            }),
            WireLlmStreamEvent::ReasoningDelta { index, text } => e@ == (
            StreamEventView::ReasoningDelta { index, text: text@ }),
            WireLlmStreamEvent::ToolCallDelta { index, call_id, name, arguments_delta } => e@ == (
            StreamEventView::ToolCallDelta {
                index,
                call_id: call_id@,
                name: match name {
                    Some(n) => Some(n@),
                    None => None,
                },
                arguments_delta: arguments_delta@,
            }),
            WireLlmStreamEvent::BlockEnd { index, block } => e@ == (StreamEventView::BlockEnd {
                index,
                block: block@,
            }),
            WireLlmStreamEvent::Usage { usage } => e@ == StreamEventView::Usage(usage@),
            WireLlmStreamEvent::Finish { reason, failure } => {
                &&& e@ matches StreamEventView::Finish(v)
                &&& v.reason == finish_reason_of(reason)
                &&& failure is Some <==> v.failure is Some
                &&& failure matches Some(f) ==> v.failure == Some(f@)
            },
        },
{
}

/// The model of a wire request says everything that the request says.
pub proof fn law_models_of_wire_requests_are_whole(r: WireModelRequest)
    ensures
        r@.request_id == r.request_id@,
        r@.session_id == r.session_id@,
        r@.provider == r.provider@,
        r@.model == r.model@,
        r@.system == opt_text(r.system),
        r@.options.max_output_tokens == r.options.max_output_tokens,
        r@.messages.len() == r.messages@.len(),
        forall|k: int|
            0 <= k < r.messages@.len() ==> (#[trigger] r@.messages[k]) == r.messages@[k]@,
        r@.tools.len() == r.tools@.len(),
        forall|k: int|
            0 <= k < r.tools@.len() ==> (#[trigger] r@.tools[k]).name == r.tools@[k].name
                && r@.tools[k].description == r.tools@[k].description && r@.tools[k].input_schema
                == r.tools@[k].input_schema,
{
}

/// What is reported of the end of a stream is what is wrong with it: a failure without a
/// message, a failure beside success, none where the stream failed, or one that is marked as
/// cancelled where the reason is not, or not where it is.
pub proof fn law_finish_faults_are_named(f: FinishView)
    ensures
        match finish_fault(f) {
            None => true,
            Some(LlmWireErrorView::InvalidFailure(text)) => f.failure is Some
                && f.failure->0.message.len() == 0 && text == common_error_text(
                CommonWireErrorView::EmptyField("error.message"@),
            ),
            Some(LlmWireErrorView::SuccessFinishHasFailure) => f.failure is Some && (f.reason
                == FinishReason::Completed || f.reason == FinishReason::MaxTokens),
            Some(LlmWireErrorView::FailureFinishMissingFailure) => f.failure is None && (f.reason
                == FinishReason::Error || f.reason == FinishReason::Cancelled),
            Some(LlmWireErrorView::ErrorFinishCancelledCode) => f.failure is Some && f.reason
                == FinishReason::Error && f.failure->0.code == ErrorCode::Cancelled,
            Some(LlmWireErrorView::CancelledFinishWrongCode) => f.failure is Some && f.reason
                == FinishReason::Cancelled && f.failure->0.code != ErrorCode::Cancelled,
            Some(_) => false,
        },
{
}

/// What is reported of an event is what is wrong with it: its stream, its number, then what
/// it carries.
pub proof fn law_event_faults_are_named(stream_id: Seq<char>, seq: u64, event: StreamEventView)
    ensures
        match event_params_fault(stream_id, seq, event) {
            None => true,
            Some(LlmWireErrorView::EmptyField(field)) => field == "streamId"@ && stream_id.len()
                == 0,
            Some(LlmWireErrorView::ZeroStreamSequence) => seq == 0,
            Some(LlmWireErrorView::StreamSequenceTooLarge) => seq > MAX_JSON_SAFE_INTEGER,
            Some(LlmWireErrorView::EmptyToolCallId) => event is ToolCallDelta
                && event->ToolCallDelta_call_id.len() == 0,
            Some(LlmWireErrorView::EmptyToolCallName) => event is ToolCallDelta
                && event->ToolCallDelta_name is Some && event->ToolCallDelta_name->0.len() == 0,
            Some(LlmWireErrorView::InvalidContent(text)) => event is BlockEnd && block_fault(
                event->block,
            ) is Some && text == common_error_text(block_fault(event->block)->0),
            Some(LlmWireErrorView::InvalidUsage(text)) => event is Usage && usage_fault(
                event->Usage_0,
            ) is Some && text == common_error_text(usage_fault(event->Usage_0)->0),
            Some(fault) => event is Finish && finish_fault(event->Finish_0) == Some(fault),
        },
{
}

/// What is reported of a start is what is wrong with it: its names, its deadline, then its
/// request.
pub proof fn law_start_faults_are_named(
    operation_id: Seq<char>,
    stream_id: Seq<char>,
    request: ModelRequestView,
    deadline: Option<Seq<char>>,
    offset: Option<i32>,
)
    ensures
        match start_fault(operation_id, stream_id, request, deadline, offset) {
            None => true,
            Some(LlmWireErrorView::EmptyField(field)) => {
                ||| field == "operationId"@ && operation_id.len() == 0
                ||| field == "streamId"@ && stream_id.len() == 0
                ||| field == "sessionId"@ && request.session_id.len() == 0
                ||| field == "provider"@ && request.provider.len() == 0
                ||| field == "model"@ && request.model.len() == 0
            },
            Some(LlmWireErrorView::OperationRequestMismatch) => operation_id != request.request_id,
            Some(LlmWireErrorView::EmptyDeadline) => deadline is Some && deadline->0.len() == 0,
            Some(LlmWireErrorView::InvalidDeadline) => deadline is Some && deadline->0.len() > 0
                && offset != Some(0i32),
            Some(fault) => wire_request_fault(request) == Some(fault),
        },
{
    lemma_messages_are_named(request.messages, 0);
    lemma_wire_tools_are_named(request.tools, 0);
}

proof fn lemma_messages_are_named(s: Seq<MessageView>, n: int)
    requires
        0 <= n,
    ensures
        messages_fault(s, n) matches Some(fault) ==> exists|i: int|
            n <= i < s.len() && message_fault(#[trigger] s[i]) is Some && fault
                == LlmWireErrorView::InvalidMessage(common_error_text(message_fault(s[i])->0)),
    decreases s.len() - n,
{
    if n < s.len() {
        lemma_messages_are_named(s, n + 1);
    }
}

/// Whether `fault` is what is wrong with the tool at `i`.
pub open spec fn is_fault_of_tool(s: Seq<ModelToolSpec>, i: int, fault: LlmWireErrorView) -> bool {
    match fault {
        LlmWireErrorView::EmptyToolName => s[i].name@.len() == 0,
        LlmWireErrorView::DuplicateToolName(name) => s[i].name@ == name && exists|j: int|
            0 <= j < i && (#[trigger] s[j]).name@ == name,
        LlmWireErrorView::ToolSchemaNotObject(name) => s[i].name@ == name && !has_object_schema(
            s[i].input_schema@,
        ),
        _ => false,
    }
}

proof fn lemma_wire_tools_are_named(s: Seq<ModelToolSpec>, n: int)
    requires
        0 <= n,
    ensures
        wire_tools_fault(s, n) matches Some(fault) ==> exists|i: int|
            n <= i < s.len() && #[trigger] is_fault_of_tool(s, i, fault),
    decreases s.len() - n,
{
    if n < s.len() {
        let fault = wire_tool_fault(
            s[n].name@,
            wire_tool_before(s, n, s[n].name@),
            json_reading(s[n].input_schema@),
        );
        if fault is Some {
            assert(is_fault_of_tool(s, n, fault->0));
        } else {
            lemma_wire_tools_are_named(s, n + 1);
        }
    }
}

/// What is reported of a request is what is wrong with it: its names, its limit, one of its
/// messages, one of its tools.
pub proof fn law_request_faults_are_named(r: ModelRequestView)
    ensures
        match wire_request_fault(r) {
            None => true,
            Some(LlmWireErrorView::EmptyField(field)) => {
                ||| field == "requestId"@ && r.request_id.len() == 0
                ||| field == "sessionId"@ && r.session_id.len() == 0
                ||| field == "provider"@ && r.provider.len() == 0
                ||| field == "model"@ && r.model.len() == 0
            },
            Some(LlmWireErrorView::ZeroMaxOutputTokens) => r.options.max_output_tokens == Some(
                0u32,
            ),
            Some(LlmWireErrorView::InvalidMessage(text)) => exists|i: int|
                0 <= i < r.messages.len() && message_fault(#[trigger] r.messages[i]) is Some && text
                    == common_error_text(message_fault(r.messages[i])->0),
            Some(fault) => exists|i: int|
                0 <= i < r.tools.len() && #[trigger] is_fault_of_tool(r.tools, i, fault),
        },
{
    lemma_messages_are_named(r.messages, 0);
    lemma_wire_tools_are_named(r.tools, 0);
}

} // verus!
