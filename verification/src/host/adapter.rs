//! The step between wire values and domain values.

use vstd::prelude::*;

use crate::json::{json_reading, read_json, reading_view, JsonRoot, JsonRootView, JsonText};
use crate::llm::request::ModelRequest;
use crate::llm::stream::{
    opt_failure, BlockType, FinishEvent, FinishReason, SequencedStreamEvent, StreamEvent,
    StreamEventView,
};
use crate::message::{
    content_view, messages_view, plain_failure, BlobRef, BlobRefView, ContentBlock,
    ContentBlockView, Message, MessageSource, PortableError, PortableErrorView, TokenUsage, ToolOutcome, ToolOutcomeView,
};
use crate::protocol::common::{
    block_fault, cause_of, code_of, content_fault, is_sha256, role_of, sha256_text,
    wire_content_view, wire_messages_view, WireBlobRef,
    WireCancelCause, WireCancelCauseKind, WireContentBlock, WireErrorCode, WireMessage,
    WireMessageSource, WirePortableError, WireRole, WireTokenUsage,
};
use crate::protocol::llm::{
    tool_specs_of, wire_failure, WireBlockType, WireFinishReason, WireLlmStreamEvent,
    WireModelOptions, WireModelRequest, WireModelToolSpec,
};
use crate::protocol::manifest::{side_effect_of, WireSideEffectClass};
use crate::protocol::tool::{ProviderOutcomeView, ProviderToolOutcome};
use crate::text::concat2;
use crate::types::{
    counter_error_text, CancelCause, CounterError, ErrorCode, Role, SideEffectClass,
    StreamSeq, ToolCallId, MAX_JSON_SAFE_INTEGER,
};

verus! {

/// The wire form of a cause.
pub fn wire_cancel_cause(cause: CancelCause) -> (r: WireCancelCause)
    ensures
        cause_of(r.kind) == cause,
{
    let kind = match cause {
        CancelCause::User => WireCancelCauseKind::User,
        CancelCause::Parent => WireCancelCauseKind::Parent,
        CancelCause::Timeout => WireCancelCauseKind::Timeout,
        CancelCause::Policy => WireCancelCauseKind::Policy,
        CancelCause::Shutdown => WireCancelCauseKind::Shutdown,
        CancelCause::Disposed => WireCancelCauseKind::Disposed,
    };
    WireCancelCause { kind }
}

/// The cause that a wire cause stands for.
pub fn domain_cancel_cause(cause: WireCancelCauseKind) -> (r: CancelCause)
    ensures
        r == cause_of(cause),
{
    match cause {
        WireCancelCauseKind::User => CancelCause::User,
        WireCancelCauseKind::Parent => CancelCause::Parent,
        WireCancelCauseKind::Timeout => CancelCause::Timeout,
        WireCancelCauseKind::Policy => CancelCause::Policy,
        WireCancelCauseKind::Shutdown => CancelCause::Shutdown,
        WireCancelCauseKind::Disposed => CancelCause::Disposed,
    }
}

/// The class that a wire class stands for.
pub fn domain_side_effect(side_effect: WireSideEffectClass) -> (r: SideEffectClass)
    ensures
        r == side_effect_of(side_effect),
{
    match side_effect {
        WireSideEffectClass::ReadOnly => SideEffectClass::ReadOnly,
        WireSideEffectClass::IdempotentWrite => SideEffectClass::IdempotentWrite,
        WireSideEffectClass::NonIdempotentWrite => SideEffectClass::NonIdempotentWrite,
    }
}

fn wire_role(role: Role) -> (r: WireRole)
    ensures
        role_of(r) == role,
{
    match role {
        Role::System => WireRole::System,
        Role::User => WireRole::User,
        Role::Assistant => WireRole::Assistant,
    }
}

fn domain_code(code: WireErrorCode) -> (r: ErrorCode)
    ensures
        r == code_of(code),
{
    match code {
        WireErrorCode::InvalidArgument => ErrorCode::InvalidArgument,
        WireErrorCode::NotFound => ErrorCode::NotFound,
        WireErrorCode::Conflict => ErrorCode::Conflict,
        WireErrorCode::PermissionDenied => ErrorCode::PermissionDenied,
        WireErrorCode::Cancelled => ErrorCode::Cancelled,
        WireErrorCode::DeadlineExceeded => ErrorCode::DeadlineExceeded,
        WireErrorCode::ProviderUnavailable => ErrorCode::ProviderUnavailable,
        WireErrorCode::ProviderProtocolError => ErrorCode::ProviderProtocolError,
        WireErrorCode::ToolExecutionFailed => ErrorCode::ToolExecutionFailed,
        WireErrorCode::ModelRequestFailed => ErrorCode::ModelRequestFailed,
        WireErrorCode::SessionCorrupt => ErrorCode::SessionCorrupt,
        WireErrorCode::UnknownOutcome => ErrorCode::UnknownOutcome,
        WireErrorCode::Internal => ErrorCode::Internal,
    }
}

fn wire_blob(blob: &BlobRef) -> (r: WireBlobRef)
    ensures
        r@ == blob@,
{
    WireBlobRef {
        id: blob.id.clone(),
        sha256: blob.sha256.clone(),
        size: blob.size,
        media_type: blob.media_type.clone(),
    }
}

/// What keeps a reference to stored bytes from being taken: it must name them, and
/// say their digest.
pub open spec fn blob_obstacle(b: BlobRefView) -> Option<Seq<char>> {
    if b.id.len() == 0 {
        Some("identifier must not be empty"@)
    } else if !is_sha256(b.sha256) {
        Some("sha256 digest must contain exactly 64 lowercase hexadecimal characters"@)
    } else {
        None
    }
}

fn domain_blob(blob: &WireBlobRef) -> (r: Result<BlobRef, String>)
    ensures
        match r {
            Ok(taken) => blob_obstacle(blob@) is None && taken@ == blob@,
            Err(message) => blob_obstacle(blob@) == Some(message@),
        },
{
    if blob.id.as_str().is_empty() {
        return Err("identifier must not be empty".to_owned());
    }
    if !sha256_text(blob.sha256.as_str()) {
        return Err(
            "sha256 digest must contain exactly 64 lowercase hexadecimal characters".to_owned(),
        );
    }
    Ok(
        BlobRef {
            id: blob.id.clone(),
            sha256: blob.sha256.clone(),
            size: blob.size,
            media_type: blob.media_type.clone(),
        },
    )
}

/// The wire form of a block.
pub fn wire_block(block: &ContentBlock) -> (r: WireContentBlock)
    ensures
        r@ == block@,
    decreases block,
{
    match block {
        ContentBlock::Text { text } => WireContentBlock::Text { text: text.clone() },
        ContentBlock::Reasoning { text } => WireContentBlock::Reasoning { text: text.clone() },
        ContentBlock::Image { blob } => WireContentBlock::Image { blob: wire_blob(blob) },
        ContentBlock::Blob { blob } => WireContentBlock::Blob { blob: wire_blob(blob) },
        ContentBlock::ToolCall { id, name, arguments_json } => WireContentBlock::ToolCall {
            id: id.as_str().to_owned(),
            name: name.clone(),
            arguments_json: arguments_json.as_str().to_owned(),
        },
        ContentBlock::ToolResult { tool_call_id, content, is_error } => {
            let wire = wire_content(content);
            let r = WireContentBlock::ToolResult {
                tool_call_id: tool_call_id.as_str().to_owned(),
                content: wire,
                is_error: *is_error,
            };
            assert(r@->ToolResult_content =~= wire_content_view(wire@));
            assert(block@->ToolResult_content =~= content_view(content@));
            r
        },
    }
}

/// The wire form of a row of blocks.
pub fn wire_content(content: &Vec<ContentBlock>) -> (r: Vec<WireContentBlock>)
    ensures
        wire_content_view(r@) == content_view(content@),
    decreases content@,
{
    let mut r: Vec<WireContentBlock> = Vec::new();
    let mut i: usize = 0;
    while i < content.len()
        invariant
            i <= content@.len(),
            r@.len() == i,
            forall|j: int| 0 <= j < i ==> (#[trigger] r@[j])@ == content@[j]@,
        decreases content@.len() - i,
    {
        r.push(wire_block(&content[i]));
        i = i + 1;
    }
    assert(wire_content_view(r@) =~= content_view(content@));
    r
}

fn wire_message(message: &Message) -> (r: WireMessage)
    ensures
        r@ == message@,
{
    let source = match &message.source {
        MessageSource::User => WireMessageSource::User,
        MessageSource::Model { provider, model } => WireMessageSource::Model {
            provider: provider.as_str().to_owned(),
            model: model.clone(),
        },
        MessageSource::Plugin => WireMessageSource::Plugin,
        MessageSource::System => WireMessageSource::System,
    };
    WireMessage {
        id: message.id.as_str().to_owned(),
        role: wire_role(message.role),
        source,
        content: wire_content(&message.content),
    }
}

/// The wire form of a request.
pub fn wire_request(request: &ModelRequest) -> (r: WireModelRequest)
    ensures
        r@ == request@,
{
    let mut messages: Vec<WireMessage> = Vec::new();
    let mut i: usize = 0;
    while i < request.messages.len()
        invariant
            i <= request.messages@.len(),
            messages@.len() == i,
            forall|j: int| 0 <= j < i ==> (#[trigger] messages@[j])@ == request.messages@[j]@,
        decreases request.messages@.len() - i,
    {
        messages.push(wire_message(&request.messages[i]));
        i = i + 1;
    }
    assert(wire_messages_view(messages@) =~= messages_view(request.messages@));
    let mut tools: Vec<WireModelToolSpec> = Vec::new();
    let mut k: usize = 0;
    while k < request.tools.len()
        invariant
            k <= request.tools@.len(),
            tools@.len() == k,
            forall|j: int|
                0 <= j < k ==> crate::protocol::llm::tool_spec_of(#[trigger] tools@[j])
                    == request.tools@[j],
        decreases request.tools@.len() - k,
    {
        let tool = &request.tools[k];
        tools.push(
            WireModelToolSpec {
                name: tool.name.clone(),
                description: tool.description.clone(),
                input_schema: tool.input_schema.clone(),
            },
        );
        k = k + 1;
    }
    assert(tool_specs_of(tools@) =~= request.tools@);
    WireModelRequest {
        request_id: request.request_id.as_str().to_owned(),
        session_id: request.session_id.as_str().to_owned(),
        provider: request.provider.as_str().to_owned(),
        model: request.model.clone(),
        system: request.system.clone(),
        messages,
        tools,
        options: WireModelOptions { max_output_tokens: request.options.max_output_tokens },
    }
}

/// What keeps a tool call from being taken, given what reading its arguments as
/// JSON gave.
pub open spec fn tool_call_obstacle(
    id: Seq<char>,
    arguments: Result<JsonRootView, Seq<char>>,
) -> Option<Seq<char>> {
    match arguments {
        Err(message) => Some(message),
        Ok(_) => if id.len() == 0 {
            Some("identifier must not be empty"@)
        } else {
            None
        },
    }
}

/// What keeps a wire block from being taken as a block. Its parts are looked at in
/// the order of their names on the wire.
pub open spec fn block_obstacle(b: ContentBlockView) -> Option<Seq<char>>
    decreases b,
{
    match b {
        ContentBlockView::ToolCall { id, arguments_json, .. } => tool_call_obstacle(
            id,
            json_reading(arguments_json),
        ),
        ContentBlockView::ToolResult { tool_call_id, content, .. } => {
            if let Some(obstacle) = content_obstacle(content) {
                Some(obstacle)
            } else if tool_call_id.len() == 0 {
                Some("identifier must not be empty"@)
            } else {
                None
            }
        },
        ContentBlockView::Image { blob } => blob_obstacle(blob),
        ContentBlockView::Blob { blob } => blob_obstacle(blob),
        _ => None,
    }
}

/// What keeps the first block that cannot be taken from being taken.
pub open spec fn content_obstacle(s: Seq<ContentBlockView>) -> Option<Seq<char>>
    decreases s,
{
    if s.len() == 0 {
        None
    } else if let Some(obstacle) = content_obstacle(s.drop_last()) {
        Some(obstacle)
    } else {
        block_obstacle(s.last())
    }
}

proof fn lemma_first_obstacle(s: Seq<ContentBlockView>, n: int)
    requires
        0 <= n <= s.len(),
        content_obstacle(s.take(n)) is Some,
    ensures
        content_obstacle(s) == content_obstacle(s.take(n)),
    decreases s.len() - n,
{
    if n < s.len() {
        assert(s.take(n + 1).drop_last() =~= s.take(n));
        lemma_first_obstacle(s, n + 1);
    } else {
        assert(s.take(n) =~= s);
    }
}

/// Takes a tool call, given what reading its arguments as JSON gave. The
/// arguments stay the text that they are.
pub fn tool_call_block(
    id: &str,
    name: String,
    arguments_json: String,
    reading: Result<JsonRoot, String>,
) -> (r: Result<ContentBlock, String>)
    ensures
        match r {
            Ok(block) => tool_call_obstacle(id@, reading_view(reading)) is None && block@ == (
            ContentBlockView::ToolCall { id: id@, name: name@, arguments_json: arguments_json@ }),
            Err(message) => tool_call_obstacle(id@, reading_view(reading)) == Some(message@),
        },
{
    match JsonText::from_reading(arguments_json, reading) {
        Ok(arguments_json) => match ToolCallId::new(id) {
            Ok(id) => Ok(ContentBlock::ToolCall { id, name, arguments_json }),
            Err(error) => Err(error.message()),
        },
        Err(message) => Err(message),
    }
}

/// Takes a wire block as a block.
pub fn domain_block(block: &WireContentBlock) -> (r: Result<ContentBlock, String>)
    ensures
        match r {
            Ok(taken) => block_obstacle(block@) is None && taken@ == block@,
            Err(message) => block_obstacle(block@) == Some(message@),
        },
    decreases block,
{
    match block {
        WireContentBlock::Text { text } => Ok(ContentBlock::Text { text: text.clone() }),
        WireContentBlock::Reasoning { text } => Ok(ContentBlock::Reasoning { text: text.clone() }),
        WireContentBlock::Image { blob } => match domain_blob(blob) {
            Ok(blob) => Ok(ContentBlock::Image { blob }),
            Err(message) => Err(message),
        },
        WireContentBlock::Blob { blob } => match domain_blob(blob) {
            Ok(blob) => Ok(ContentBlock::Blob { blob }),
            Err(message) => Err(message),
        },
        WireContentBlock::ToolCall { id, name, arguments_json } => {
            let reading = read_json(arguments_json.as_str());
            tool_call_block(id.as_str(), name.clone(), arguments_json.clone(), reading)
        },
        WireContentBlock::ToolResult { tool_call_id, content, is_error } => {
            assert(block@->ToolResult_content =~= wire_content_view(content@));
            match domain_content(content) {
                Ok(content) => {
                    let tool_call_id = match ToolCallId::new(tool_call_id.as_str()) {
                        Ok(id) => id,
                        Err(error) => {
                            return Err(error.message());
                        },
                    };
                    let taken = ContentBlock::ToolResult {
                        tool_call_id,
                        content,
                        is_error: *is_error,
                    };
                    assert(taken@->ToolResult_content =~= content_view(content@));
                    Ok(taken)
                },
                Err(message) => Err(message),
            }
        },
    }
}

/// Takes a row of wire blocks.
pub fn domain_content(content: &Vec<WireContentBlock>) -> (r: Result<Vec<ContentBlock>, String>)
    ensures
        match r {
            Ok(taken) => content_obstacle(wire_content_view(content@)) is None && content_view(
                taken@,
            ) == wire_content_view(content@),
            Err(message) => content_obstacle(wire_content_view(content@)) == Some(message@),
        },
    decreases content@,
{
    let ghost all = wire_content_view(content@);
    let mut taken: Vec<ContentBlock> = Vec::new();
    let mut i: usize = 0;
    while i < content.len()
        invariant
            i <= content@.len(),
            all == wire_content_view(content@),
            taken@.len() == i,
            forall|j: int| 0 <= j < i ==> (#[trigger] taken@[j])@ == content@[j]@,
            content_obstacle(all.take(i as int)) is None,
        decreases content@.len() - i,
    {
        assert(all.take(i + 1).drop_last() =~= all.take(i as int));
        assert(all.take(i + 1).last() == content@[i as int]@);
        match domain_block(&content[i]) {
            Ok(block) => {
                taken.push(block);
            },
            Err(message) => {
                proof {
                    lemma_first_obstacle(all, i + 1);
                }
                return Err(message);
            },
        }
        i = i + 1;
    }
    assert(all.take(i as int) =~= all);
    assert(content_view(taken@) =~= all);
    Ok(taken)
}

fn domain_usage(usage: WireTokenUsage) -> (r: TokenUsage)
    ensures
        r@ == usage@,
{
    TokenUsage {
        input_tokens: usage.input_tokens,
        output_tokens: usage.output_tokens,
        extensions: usage.extensions,
    }
}

fn domain_failure(failure: Option<WirePortableError>) -> (r: Option<PortableError>)
    ensures
        opt_failure(r) == wire_failure(failure),
{
    match failure {
        Some(failure) => Some(
            PortableError {
                code: domain_code(failure.code),
                message: failure.message,
                details: failure.details,
            },
        ),
        None => None,
    }
}

/// One event of a stream, in its place.
#[derive(Debug, PartialEq)]
pub struct LlmStreamItem {
    pub seq: u64,
    pub event: WireLlmStreamEvent,
}

/// A failure that a provider's message caused.
pub open spec fn protocol_failure(message: Seq<char>) -> PortableErrorView {
    plain_failure(ErrorCode::ProviderProtocolError, message)
}

pub open spec fn sequence_failure(e: CounterError) -> PortableErrorView {
    protocol_failure(
        "provider LLM stream sequence cannot be represented by Harness: "@ + counter_error_text(e),
    )
}

/// What keeps an event from being taken.
pub open spec fn item_failure(seq: u64, event: StreamEventView) -> Option<PortableErrorView> {
    if seq == 0 {
        Some(sequence_failure(CounterError::Zero))
    } else if seq > MAX_JSON_SAFE_INTEGER {
        Some(sequence_failure(CounterError::TooLarge))
    } else {
        match event {
            StreamEventView::ToolCallDelta { call_id, .. } if call_id.len() == 0 => Some(
                protocol_failure(
                    "provider emitted invalid ToolCallId: "@ + "identifier must not be empty"@,
                ),
            ),
            StreamEventView::BlockEnd { block, .. } => match block_obstacle(block) {
                Some(message) => Some(
                    protocol_failure("failed to decode provider ContentBlock: "@ + message),
                ),
                None => None,
            },
            _ => None,
        }
    }
}

fn protocol_error(context: &str, message: &str) -> (r: PortableError)
    ensures
        r@ == protocol_failure(context@ + message@),
{
    PortableError::new(ErrorCode::ProviderProtocolError, concat2(context, message))
}

/// Takes one event of a provider's stream as an event of the model.
pub fn map_llm_stream_item(item: LlmStreamItem) -> (r: Result<SequencedStreamEvent, PortableError>)
    ensures
        match r {
            Ok(event) => {
                &&& item_failure(item.seq, item.event@) is None
                &&& event.seq@ == item.seq
                &&& event.event@ == item.event@
            },
            Err(failure) => item_failure(item.seq, item.event@) == Some(failure@),
        },
{
    let seq = match StreamSeq::new(item.seq) {
        Ok(seq) => seq,
        Err(error) => {
            return Err(
                protocol_error(
                    "provider LLM stream sequence cannot be represented by Harness: ",
                    error.message().as_str(),
                ),
            );
        },
    };
    let event = match item.event {
        WireLlmStreamEvent::BlockStart { index, block_type } => StreamEvent::BlockStart {
            index,
            block_type: match block_type {
                WireBlockType::Text => BlockType::Text,
                WireBlockType::Reasoning => BlockType::Reasoning,
                WireBlockType::ToolCall => BlockType::ToolCall,
            },
        },
        WireLlmStreamEvent::TextDelta { index, text } => StreamEvent::TextDelta { index, text },
        WireLlmStreamEvent::ReasoningDelta { index, text } => StreamEvent::ReasoningDelta {
            index,
            text,
        },
        WireLlmStreamEvent::ToolCallDelta { index, call_id, name, arguments_delta } => {
            match ToolCallId::new(call_id.as_str()) {
                Ok(call_id) => StreamEvent::ToolCallDelta { index, call_id, name, arguments_delta },
                Err(error) => {
                    return Err(
                        protocol_error(
                            "provider emitted invalid ToolCallId: ",
                            error.message().as_str(),
                        ),
                    );
                },
            }
        },
        WireLlmStreamEvent::BlockEnd { index, block } => match domain_block(&block) {
            Ok(block) => StreamEvent::BlockEnd { index, block },
            Err(message) => {
                return Err(
                    protocol_error("failed to decode provider ContentBlock: ", message.as_str()),
                );
            },
        },
        WireLlmStreamEvent::Usage { usage } => StreamEvent::Usage(domain_usage(usage)),
        WireLlmStreamEvent::Finish { reason, failure } => {
            let failure = domain_failure(failure);
            StreamEvent::Finish(
                FinishEvent {
                    reason: match reason {
                        WireFinishReason::Completed => FinishReason::Completed,
                        WireFinishReason::MaxTokens => FinishReason::MaxTokens,
                        WireFinishReason::Error => FinishReason::Error,
                        WireFinishReason::Cancelled => FinishReason::Cancelled,
                    },
                    failure,
                },
            )
        },
    };
    Ok(SequencedStreamEvent::new(seq, event))
}

/// The outcome that a provider's outcome stands for.
pub open spec fn outcome_meaning(o: ProviderOutcomeView) -> ToolOutcomeView {
    match o {
        ProviderOutcomeView::Success { content } => ToolOutcomeView::Success { content },
        ProviderOutcomeView::Error { code, message, content } => ToolOutcomeView::Error {
            code,
            message,
            content,
        },
        ProviderOutcomeView::Cancelled { cause } => ToolOutcomeView::Cancelled {
            cause: cause_of(cause),
        },
    }
}

/// What keeps an outcome from being taken.
pub open spec fn outcome_failure(o: ProviderOutcomeView) -> Option<PortableErrorView> {
    let obstacle = match o {
        ProviderOutcomeView::Success { content } => content_obstacle(content),
        ProviderOutcomeView::Error { content, .. } => content_obstacle(content),
        ProviderOutcomeView::Cancelled { .. } => None,
    };
    match obstacle {
        Some(message) => Some(
            protocol_failure("failed to decode provider Tool content: "@ + message),
        ),
        None => None,
    }
}

/// Takes a provider's outcome.
pub fn map_tool_outcome(outcome: ProviderToolOutcome) -> (r: Result<ToolOutcome, PortableError>)
    ensures
        match r {
            Ok(taken) => outcome_failure(outcome@) is None && taken@ == outcome_meaning(outcome@),
            Err(failure) => outcome_failure(outcome@) == Some(failure@),
        },
{
    match outcome {
        ProviderToolOutcome::Success { content } => match domain_content(&content) {
            Ok(content) => Ok(ToolOutcome::Success { content }),
            Err(message) => Err(
                protocol_error("failed to decode provider Tool content: ", message.as_str()),
            ),
        },
        ProviderToolOutcome::Error { code, message, content } => match domain_content(&content) {
            Ok(content) => Ok(ToolOutcome::Error { code, message, content }),
            Err(message) => Err(
                protocol_error("failed to decode provider Tool content: ", message.as_str()),
            ),
        },
        ProviderToolOutcome::Cancelled { cause } => Ok(
            ToolOutcome::Cancelled { cause: domain_cancel_cause(cause) },
        ),
    }
}

/// A block that passes the checks of the wire can be taken.
pub proof fn law_checked_blocks_are_taken(b: ContentBlockView)
    requires
        block_fault(b) is None,
    ensures
        block_obstacle(b) is None,
    decreases b,
{
    if let ContentBlockView::ToolResult { content, .. } = b {
        law_checked_content_is_taken(content);
    }
}

/// Content that passes the checks of the wire can be taken.
pub proof fn law_checked_content_is_taken(s: Seq<ContentBlockView>)
    requires
        content_fault(s) is None,
    ensures
        content_obstacle(s) is None,
    decreases s,
{
    if s.len() > 0 {
        law_checked_content_is_taken(s.drop_last());
        law_checked_blocks_are_taken(s.last());
    }
}

/// A block is taken if and only if everything in it can be: the arguments of a call read as
/// JSON, calls and results name their call, stored bytes have a name and a digest, and the
/// content of a result can be taken. Plain text always can.
pub proof fn law_blocks_are_taken_whole(b: ContentBlockView)
    ensures
        block_obstacle(b) is None <==> match b {
            ContentBlockView::Text { .. } => true,
            ContentBlockView::Reasoning { .. } => true,
            ContentBlockView::Image { blob } => blob.id.len() > 0 && is_sha256(blob.sha256),
            ContentBlockView::Blob { blob } => blob.id.len() > 0 && is_sha256(blob.sha256),
            ContentBlockView::ToolCall { id, arguments_json, .. } => id.len() > 0 && json_reading(
                arguments_json,
            ) is Ok,
            ContentBlockView::ToolResult { tool_call_id, content, .. } => tool_call_id.len() > 0
                && forall|i: int|
                0 <= i < content.len() ==> block_obstacle(#[trigger] content[i]) is None,
        },
{
    if let ContentBlockView::ToolResult { content, .. } = b {
        law_content_is_taken_block_by_block(content);
    }
}

/// Content is taken if and only if each of its blocks is.
pub proof fn law_content_is_taken_block_by_block(s: Seq<ContentBlockView>)
    ensures
        content_obstacle(s) is None <==> forall|i: int|
            0 <= i < s.len() ==> block_obstacle(#[trigger] s[i]) is None,
    decreases s.len(),
{
    if s.len() > 0 {
        let rest = s.drop_last();
        law_content_is_taken_block_by_block(rest);
        if content_obstacle(s) is None {
            assert forall|i: int| 0 <= i < s.len() implies block_obstacle(
                #[trigger] s[i],
            ) is None by {
                if i < rest.len() {
                    assert(rest[i] == s[i]);
                }
            }
        } else if forall|i: int| 0 <= i < s.len() ==> block_obstacle(#[trigger] s[i]) is None {
            assert forall|i: int| 0 <= i < rest.len() implies block_obstacle(
                #[trigger] rest[i],
            ) is None by {
                assert(block_obstacle(s[i]) is None);
            }
            assert(block_obstacle(s[s.len() - 1]) is None);
        }
    }
}

/// An event of a provider's stream is taken if and only if its number can be a number of a
/// stream, a piece of a call names its call, and a block that ends can be taken. Whatever
/// keeps it from being taken is a fault of the provider.
pub proof fn law_stream_items_are_taken(seq: u64, event: StreamEventView)
    ensures
        item_failure(seq, event) is None <==> {
            &&& 1 <= seq <= MAX_JSON_SAFE_INTEGER
            &&& event matches StreamEventView::ToolCallDelta { call_id, .. } ==> call_id.len() > 0
            &&& event matches StreamEventView::BlockEnd { block, .. } ==> block_obstacle(
                block,
            ) is None
        },
        item_failure(seq, event) matches Some(e) ==> e.code == ErrorCode::ProviderProtocolError
            && e.details.len() == 0,
{
}

/// A provider's outcome means what it says: success with its content, an error with its
/// code, message and content, a cancellation with its cause. It is taken if and only if its
/// content is.
pub proof fn law_outcomes_mean_what_they_say(o: ProviderOutcomeView)
    ensures
        match o {
            ProviderOutcomeView::Success { content } => {
                &&& outcome_meaning(o) == (ToolOutcomeView::Success { content })
                &&& outcome_failure(o) is None <==> content_obstacle(content) is None
            },
            ProviderOutcomeView::Error { code, message, content } => {
                &&& outcome_meaning(o) == (ToolOutcomeView::Error { code, message, content })
                &&& outcome_failure(o) is None <==> content_obstacle(content) is None
            },
            ProviderOutcomeView::Cancelled { cause } => {
                &&& outcome_meaning(o) == (ToolOutcomeView::Cancelled { cause: cause_of(cause) })
                &&& outcome_failure(o) is None
            },
        },
        outcome_failure(o) matches Some(e) ==> e.code == ErrorCode::ProviderProtocolError,
{
}

} // verus!
