//! Wire values that several methods of the protocol share.
//!
//! A wire value and the domain value that it stands for have one model, so what
//! is said of one can be held against the other.

use vstd::prelude::*;

use crate::json::{json_reading, read_json, reading_view, JsonRoot, JsonRootView, JsonText};
use crate::message::{
    clone_named_json, named_json, BlobRefView, ContentBlockView, MessageSourceView, MessageView, PortableErrorView,
    TokenUsageView,
};
use crate::text::{concat2, concat3, opt_text};
use crate::types::{CancelCause, ErrorCode, Role, MAX_JSON_SAFE_INTEGER};

verus! {

#[derive(Clone, Copy, Debug, PartialEq, Eq, Structural)]
pub enum WireRole {
    System,
    User,
    Assistant,
}

/// The role that a wire role stands for.
pub open spec fn role_of(role: WireRole) -> Role {
    match role {
        WireRole::System => Role::System,
        WireRole::User => Role::User,
        WireRole::Assistant => Role::Assistant,
    }
}

#[derive(Debug, PartialEq, Eq)]
pub enum WireMessageSource {
    User,
    Model { provider: String, model: String },
    Plugin,
    System,
}

impl View for WireMessageSource {
    type V = MessageSourceView;

    open spec fn view(&self) -> MessageSourceView {
        match self {
            WireMessageSource::User => MessageSourceView::User,
            WireMessageSource::Model { provider, model } => MessageSourceView::Model {
                provider: provider@,
                model: model@,
            },
            WireMessageSource::Plugin => MessageSourceView::Plugin,
            WireMessageSource::System => MessageSourceView::System,
        }
    }
}

impl Clone for WireMessageSource {
    fn clone(&self) -> (r: Self)
        ensures
            r == *self,
    {
        match self {
            WireMessageSource::User => WireMessageSource::User,
            WireMessageSource::Model { provider, model } => WireMessageSource::Model {
                provider: provider.clone(),
                model: model.clone(),
            },
            WireMessageSource::Plugin => WireMessageSource::Plugin,
            WireMessageSource::System => WireMessageSource::System,
        }
    }
}

#[derive(Debug, PartialEq, Eq)]
pub struct WireBlobRef {
    pub id: String,
    pub sha256: String,
    pub size: u64,
    pub media_type: Option<String>,
}

impl View for WireBlobRef {
    type V = BlobRefView;

    open spec fn view(&self) -> BlobRefView {
        BlobRefView {
            id: self.id@,
            sha256: self.sha256@,
            size: self.size,
            media_type: opt_text(self.media_type),
        }
    }
}

impl Clone for WireBlobRef {
    fn clone(&self) -> (r: Self)
        ensures
            r == *self,
    {
        WireBlobRef {
            id: self.id.clone(),
            sha256: self.sha256.clone(),
            size: self.size,
            media_type: self.media_type.clone(),
        }
    }
}

#[derive(Debug, PartialEq)]
pub enum WireContentBlock {
    Text { text: String },
    Reasoning { text: String },
    Image { blob: WireBlobRef },
    ToolCall { id: String, name: String, arguments_json: String },
    ToolResult { tool_call_id: String, content: Vec<WireContentBlock>, is_error: bool },
    Blob { blob: WireBlobRef },
}

/// The model of one block.
pub open spec fn wire_block_view(b: WireContentBlock) -> ContentBlockView
    decreases b,
{
    match b {
        WireContentBlock::Text { text } => ContentBlockView::Text { text: text@ },
        WireContentBlock::Reasoning { text } => ContentBlockView::Reasoning { text: text@ },
        WireContentBlock::Image { blob } => ContentBlockView::Image { blob: blob@ },
        WireContentBlock::ToolCall { id, name, arguments_json } => ContentBlockView::ToolCall {
            id: id@,
            name: name@,
            arguments_json: arguments_json@,
        },
        WireContentBlock::ToolResult { tool_call_id, content, is_error } => {
            ContentBlockView::ToolResult {
                tool_call_id: tool_call_id@,
                content: Seq::new(
                    content@.len(),
                    |i: int|
                        if 0 <= i < content@.len() {
                            wire_block_view(content@[i])
                        } else {
                            arbitrary()
                        },
                ),
                is_error,
            }
        },
        WireContentBlock::Blob { blob } => ContentBlockView::Blob { blob: blob@ },
    }
}

impl View for WireContentBlock {
    type V = ContentBlockView;

    open spec fn view(&self) -> ContentBlockView {
        wire_block_view(*self)
    }
}

/// The model of a row of blocks.
pub open spec fn wire_content_view(s: Seq<WireContentBlock>) -> Seq<ContentBlockView> {
    s.map_values(|b: WireContentBlock| b@)
}

impl Clone for WireContentBlock {
    fn clone(&self) -> (r: Self)
        ensures
            r@ == self@,
        decreases self,
    {
        match self {
            WireContentBlock::Text { text } => WireContentBlock::Text { text: text.clone() },
            WireContentBlock::Reasoning { text } => WireContentBlock::Reasoning {
                text: text.clone(),
            },
            WireContentBlock::Image { blob } => WireContentBlock::Image { blob: blob.clone() },
            WireContentBlock::Blob { blob } => WireContentBlock::Blob { blob: blob.clone() },
            WireContentBlock::ToolCall { id, name, arguments_json } => WireContentBlock::ToolCall {
                id: id.clone(),
                name: name.clone(),
                arguments_json: arguments_json.clone(),
            },
            WireContentBlock::ToolResult { tool_call_id, content, is_error } => {
                let mut copy: Vec<WireContentBlock> = Vec::new();
                let mut i: usize = 0;
                while i < content.len()
                    invariant
                        i <= content@.len(),
                        copy@.len() == i,
                        forall|j: int| 0 <= j < i ==> (#[trigger] copy@[j])@ == content@[j]@,
                        self matches WireContentBlock::ToolResult { content: c, .. } && c
                            == content,
                    decreases content@.len() - i,
                {
                    copy.push(content[i].clone());
                    i = i + 1;
                }
                let r = WireContentBlock::ToolResult {
                    tool_call_id: tool_call_id.clone(),
                    content: copy,
                    is_error: *is_error,
                };
                assert(r@->ToolResult_content =~= self@->ToolResult_content);
                r
            },
        }
    }
}

/// A copy of a row of blocks.
pub fn clone_wire_content(content: &Vec<WireContentBlock>) -> (r: Vec<WireContentBlock>)
    ensures
        wire_content_view(r@) == wire_content_view(content@),
{
    let r = content.clone();
    assert(wire_content_view(r@) =~= wire_content_view(content@));
    r
}

#[derive(Debug, PartialEq)]
pub struct WireMessage {
    pub id: String,
    pub role: WireRole,
    pub source: WireMessageSource,
    pub content: Vec<WireContentBlock>,
}

impl View for WireMessage {
    type V = MessageView;

    open spec fn view(&self) -> MessageView {
        MessageView {
            id: self.id@,
            role: role_of(self.role),
            source: self.source@,
            content: wire_content_view(self.content@),
        }
    }
}

impl Clone for WireMessage {
    fn clone(&self) -> (r: Self)
        ensures
            r@ == self@,
    {
        WireMessage {
            id: self.id.clone(),
            role: self.role,
            source: self.source.clone(),
            content: clone_wire_content(&self.content),
        }
    }
}

/// The model of a row of messages.
pub open spec fn wire_messages_view(s: Seq<WireMessage>) -> Seq<MessageView> {
    s.map_values(|m: WireMessage| m@)
}

#[derive(Clone, Copy, Debug, PartialEq, Eq, Structural)]
pub enum WireErrorCode {
    InvalidArgument,
    NotFound,
    Conflict,
    PermissionDenied,
    Cancelled,
    DeadlineExceeded,
    ProviderUnavailable,
    ProviderProtocolError,
    ToolExecutionFailed,
    ModelRequestFailed,
    SessionCorrupt,
    UnknownOutcome,
    Internal,
}

/// The code that a wire code stands for.
pub open spec fn code_of(code: WireErrorCode) -> ErrorCode {
    match code {
        WireErrorCode::InvalidArgument => ErrorCode::InvalidArgument,
        WireErrorCode::NotFound => ErrorCode::NotFound,
        WireErrorCode::Conflict => ErrorCode::Conflict,
        WireErrorCode::PermissionDenied => ErrorCode::PermissionDenied,
        WireErrorCode::Cancelled => ErrorCode::Cancelled,
        WireErrorCode::DeadlineExceeded => ErrorCode::DeadlineExceeded,
        WireErrorCode::ProviderUnavailable => ErrorCode::ProviderUnavailable,
        WireErrorCode::ProviderProtocolError => ErrorCode::ProviderProtocolError,
        WireErrorCode::ToolExecutionFailed => ErrorCode::ToolExecutionFailed,
        WireErrorCode::ModelRequestFailed => ErrorCode::ModelRequestFailed,
        WireErrorCode::SessionCorrupt => ErrorCode::SessionCorrupt,
        WireErrorCode::UnknownOutcome => ErrorCode::UnknownOutcome,
        WireErrorCode::Internal => ErrorCode::Internal,
    }
}

#[derive(Debug, PartialEq)]
pub struct WirePortableError {
    pub code: WireErrorCode,
    pub message: String,
    /// Named JSON values that go with the failure.
    pub details: Vec<(String, JsonText)>,
}

impl View for WirePortableError {
    type V = PortableErrorView;

    open spec fn view(&self) -> PortableErrorView {
        PortableErrorView {
            code: code_of(self.code),
            message: self.message@,
            details: named_json(self.details@),
        }
    }
}

impl Clone for WirePortableError {
    fn clone(&self) -> (r: Self)
        ensures
            r@ == self@,
    {
        WirePortableError {
            code: self.code,
            message: self.message.clone(),
            details: clone_named_json(&self.details),
        }
    }
}

#[derive(Debug, PartialEq)]
pub struct WireTokenUsage {
    pub input_tokens: u64,
    pub output_tokens: u64,
    /// The members beside the two counts.
    pub extensions: Vec<(String, JsonText)>,
}

impl View for WireTokenUsage {
    type V = TokenUsageView;

    open spec fn view(&self) -> TokenUsageView {
        TokenUsageView {
            input_tokens: self.input_tokens,
            output_tokens: self.output_tokens,
            extensions: named_json(self.extensions@),
        }
    }
}

impl Clone for WireTokenUsage {
    fn clone(&self) -> (r: Self)
        ensures
            r@ == self@,
    {
        WireTokenUsage {
            input_tokens: self.input_tokens,
            output_tokens: self.output_tokens,
            extensions: clone_named_json(&self.extensions),
        }
    }
}

impl Default for WireTokenUsage {
    fn default() -> (r: Self)
        ensures
            r.input_tokens == 0,
            r.output_tokens == 0,
            r.extensions@.len() == 0,
    {
        WireTokenUsage { input_tokens: 0, output_tokens: 0, extensions: Vec::new() }
    }
}

#[derive(Clone, Copy, Debug, PartialEq, Eq, Structural)]
pub enum WireCancelCauseKind {
    User,
    Parent,
    Timeout,
    Policy,
    Shutdown,
    Disposed,
}

/// The cause that a wire cause stands for.
pub open spec fn cause_of(kind: WireCancelCauseKind) -> CancelCause {
    match kind {
        WireCancelCauseKind::User => CancelCause::User,
        WireCancelCauseKind::Parent => CancelCause::Parent,
        WireCancelCauseKind::Timeout => CancelCause::Timeout,
        WireCancelCauseKind::Policy => CancelCause::Policy,
        WireCancelCauseKind::Shutdown => CancelCause::Shutdown,
        WireCancelCauseKind::Disposed => CancelCause::Disposed,
    }
}

#[derive(Clone, Copy, Debug, PartialEq, Eq, Structural)]
pub struct WireCancelCause {
    pub kind: WireCancelCauseKind,
}

/// Why a shared wire value is refused.
#[derive(Debug, PartialEq, Eq)]
#[non_exhaustive]
pub enum CommonWireValidationError {
    EmptyField(&'static str),
    InvalidSha256,
    UnsafeJsonInteger(&'static str),
    InvalidArgumentsJson(String),
}

#[verifier::ext_equal]
pub enum CommonWireErrorView {
    EmptyField(Seq<char>),
    InvalidSha256,
    UnsafeJsonInteger(Seq<char>),
    InvalidArgumentsJson(Seq<char>),
}

impl View for CommonWireValidationError {
    type V = CommonWireErrorView;

    open spec fn view(&self) -> CommonWireErrorView {
        match self {
            CommonWireValidationError::EmptyField(field) => CommonWireErrorView::EmptyField(field@),
            CommonWireValidationError::InvalidSha256 => CommonWireErrorView::InvalidSha256,
            CommonWireValidationError::UnsafeJsonInteger(field) => {
                CommonWireErrorView::UnsafeJsonInteger(field@)
            },
            CommonWireValidationError::InvalidArgumentsJson(message) => {
                CommonWireErrorView::InvalidArgumentsJson(message@)
            },
        }
    }
}

pub open spec fn common_error_text(e: CommonWireErrorView) -> Seq<char> {
    match e {
        CommonWireErrorView::EmptyField(field) => "wire field "@ + field + " must not be empty"@,
        CommonWireErrorView::InvalidSha256 => {
            "blob sha256 must contain exactly 64 lowercase hexadecimal characters"@
        },
        CommonWireErrorView::UnsafeJsonInteger(field) => {
            "wire integer "@ + field + " exceeds the maximum safe JSON integer"@
        },
        CommonWireErrorView::InvalidArgumentsJson(message) => {
            "argumentsJson is invalid JSON: "@ + message
        },
    }
}

impl CommonWireValidationError {
    pub fn message(&self) -> (r: String)
        ensures
            r@ == common_error_text(self@),
    {
        match self {
            CommonWireValidationError::EmptyField(field) => {
                concat3("wire field ", field, " must not be empty")
            },
            CommonWireValidationError::InvalidSha256 => {
                "blob sha256 must contain exactly 64 lowercase hexadecimal characters".to_owned()
            },
            CommonWireValidationError::UnsafeJsonInteger(field) => {
                concat3("wire integer ", field, " exceeds the maximum safe JSON integer")
            },
            CommonWireValidationError::InvalidArgumentsJson(message) => {
                concat2("argumentsJson is invalid JSON: ", message.as_str())
            },
        }
    }
}

/// The view of a check.
pub open spec fn common_check(r: Result<(), CommonWireValidationError>) -> Option<
    CommonWireErrorView,
> {
    match r {
        Ok(_) => None,
        Err(e) => Some(e@),
    }
}

pub open spec fn is_lower_hex(c: char) -> bool {
    '0' <= c <= '9' || 'a' <= c <= 'f'
}

/// Whether a text is a SHA-256 digest in lower-case hexadecimal notation.
pub open spec fn is_sha256(s: Seq<char>) -> bool {
    s.len() == 64 && forall|i: int| 0 <= i < s.len() ==> is_lower_hex(#[trigger] s[i])
}

/// What is wrong with a blob: its id first, then the digest, the size and the
/// media type.
pub open spec fn blob_fault(b: BlobRefView) -> Option<CommonWireErrorView> {
    if b.id.len() == 0 {
        Some(CommonWireErrorView::EmptyField("blob.id"@))
    } else if !is_sha256(b.sha256) {
        Some(CommonWireErrorView::InvalidSha256)
    } else if b.size > MAX_JSON_SAFE_INTEGER {
        Some(CommonWireErrorView::UnsafeJsonInteger("blob.size"@))
    } else if b.media_type is Some && b.media_type->0.len() == 0 {
        Some(CommonWireErrorView::EmptyField("blob.mediaType"@))
    } else {
        None
    }
}

/// What is wrong with a tool call, given what reading its arguments as JSON gave.
pub open spec fn tool_call_fault(
    id: Seq<char>,
    name: Seq<char>,
    arguments: Result<JsonRootView, Seq<char>>,
) -> Option<CommonWireErrorView> {
    if id.len() == 0 {
        Some(CommonWireErrorView::EmptyField("toolCall.id"@))
    } else if name.len() == 0 {
        Some(CommonWireErrorView::EmptyField("toolCall.name"@))
    } else {
        match arguments {
            Ok(_) => None,
            Err(message) => Some(CommonWireErrorView::InvalidArgumentsJson(message)),
        }
    }
}

/// What is wrong with a block. A tool result is as good as its own blocks.
pub open spec fn block_fault(b: ContentBlockView) -> Option<CommonWireErrorView>
    decreases b,
{
    match b {
        ContentBlockView::Text { .. } => None,
        ContentBlockView::Reasoning { .. } => None,
        ContentBlockView::Image { blob } => blob_fault(blob),
        ContentBlockView::Blob { blob } => blob_fault(blob),
        ContentBlockView::ToolCall { id, name, arguments_json } => tool_call_fault(
            id,
            name,
            json_reading(arguments_json),
        ),
        ContentBlockView::ToolResult { tool_call_id, content, .. } => {
            if tool_call_id.len() == 0 {
                Some(CommonWireErrorView::EmptyField("toolResult.toolCallId"@))
            } else {
                content_fault(content)
            }
        },
    }
}

/// The fault of the first faulty block.
pub open spec fn content_fault(s: Seq<ContentBlockView>) -> Option<CommonWireErrorView>
    decreases s,
{
    if s.len() == 0 {
        None
    } else if let Some(fault) = content_fault(s.drop_last()) {
        Some(fault)
    } else {
        block_fault(s.last())
    }
}

/// What is wrong with a message.
pub open spec fn message_fault(m: MessageView) -> Option<CommonWireErrorView> {
    if m.id.len() == 0 {
        Some(CommonWireErrorView::EmptyField("message.id"@))
    } else if m.source is Model && m.source->provider.len() == 0 {
        Some(CommonWireErrorView::EmptyField("message.source.provider"@))
    } else if m.source is Model && m.source->model.len() == 0 {
        Some(CommonWireErrorView::EmptyField("message.source.model"@))
    } else {
        content_fault(m.content)
    }
}

/// What is wrong with a failure.
pub open spec fn failure_fault(e: PortableErrorView) -> Option<CommonWireErrorView> {
    if e.message.len() == 0 {
        Some(CommonWireErrorView::EmptyField("error.message"@))
    } else {
        None
    }
}

/// What is wrong with a usage report.
pub open spec fn usage_fault(u: TokenUsageView) -> Option<CommonWireErrorView> {
    if u.input_tokens > MAX_JSON_SAFE_INTEGER {
        Some(CommonWireErrorView::UnsafeJsonInteger("usage.inputTokens"@))
    } else if u.output_tokens > MAX_JSON_SAFE_INTEGER {
        Some(CommonWireErrorView::UnsafeJsonInteger("usage.outputTokens"@))
    } else {
        None
    }
}

fn lower_hex(c: char) -> (r: bool)
    ensures
        r == is_lower_hex(c),
{
    ('0' <= c && c <= '9') || ('a' <= c && c <= 'f')
}

pub(crate) fn sha256_text(s: &str) -> (r: bool)
    ensures
        r == is_sha256(s@),
{
    for c in iter: s.chars()
        invariant
            iter.seq() == s@,
            forall|i: int| 0 <= i < iter.index() ==> is_lower_hex(#[trigger] s@[i]),
    {
        if !lower_hex(c) {
            assert(!is_lower_hex(s@[iter.index() as int]));
            return false;
        }
    }
    s.unicode_len() == 64
}

impl WireBlobRef {
    pub fn validate(&self) -> (r: Result<(), CommonWireValidationError>)
        ensures
            common_check(r) == blob_fault(self@),
    {
        if self.id.as_str().is_empty() {
            return Err(CommonWireValidationError::EmptyField("blob.id"));
        }
        if !sha256_text(self.sha256.as_str()) {
            return Err(CommonWireValidationError::InvalidSha256);
        }
        if self.size > MAX_JSON_SAFE_INTEGER {
            return Err(CommonWireValidationError::UnsafeJsonInteger("blob.size"));
        }
        if let Some(media_type) = &self.media_type {
            if media_type.as_str().is_empty() {
                return Err(CommonWireValidationError::EmptyField("blob.mediaType"));
            }
        }
        Ok(())
    }
}

/// Checks a tool call, given what reading its arguments as JSON gave.
pub fn check_tool_call(id: &str, name: &str, arguments: Result<JsonRoot, String>) -> (r: Result<
    (),
    CommonWireValidationError,
>)
    ensures
        common_check(r) == tool_call_fault(id@, name@, reading_view(arguments)),
{
    if id.is_empty() {
        return Err(CommonWireValidationError::EmptyField("toolCall.id"));
    }
    if name.is_empty() {
        return Err(CommonWireValidationError::EmptyField("toolCall.name"));
    }
    match arguments {
        Ok(_) => Ok(()),
        Err(message) => Err(CommonWireValidationError::InvalidArgumentsJson(message)),
    }
}

impl WireContentBlock {
    pub fn validate(&self) -> (r: Result<(), CommonWireValidationError>)
        ensures
            common_check(r) == block_fault(self@),
        decreases self,
    {
        match self {
            WireContentBlock::Text { .. } => Ok(()),
            WireContentBlock::Reasoning { .. } => Ok(()),
            WireContentBlock::Image { blob } => blob.validate(),
            WireContentBlock::Blob { blob } => blob.validate(),
            WireContentBlock::ToolCall { id, name, arguments_json } => check_tool_call(
                id.as_str(),
                name.as_str(),
                read_json(arguments_json.as_str()),
            ),
            WireContentBlock::ToolResult { tool_call_id, content, .. } => {
                if tool_call_id.as_str().is_empty() {
                    return Err(CommonWireValidationError::EmptyField("toolResult.toolCallId"));
                }
                assert(self@->ToolResult_content =~= wire_content_view(content@));
                validate_content(content)
            },
        }
    }
}

/// Checks a row of blocks, first to last.
pub fn validate_content(content: &Vec<WireContentBlock>) -> (r: Result<
    (),
    CommonWireValidationError,
>)
    ensures
        common_check(r) == content_fault(wire_content_view(content@)),
    decreases content@,
{
    let ghost all = wire_content_view(content@);
    let mut i: usize = 0;
    while i < content.len()
        invariant
            i <= content@.len(),
            all == wire_content_view(content@),
            content_fault(all.take(i as int)) is None,
        decreases content@.len() - i,
    {
        assert(all.take(i + 1).drop_last() =~= all.take(i as int));
        assert(all.take(i + 1).last() == content@[i as int]@);
        match content[i].validate() {
            Ok(()) => {},
            Err(error) => {
                proof {
                    lemma_first_fault(all, i + 1);
                }
                return Err(error);
            },
        }
        i = i + 1;
    }
    assert(all.take(i as int) =~= all);
    Ok(())
}

/// A fault among the first `n` blocks is the fault of all of them.
proof fn lemma_first_fault(s: Seq<ContentBlockView>, n: int)
    requires
        0 <= n <= s.len(),
        content_fault(s.take(n)) is Some,
    ensures
        content_fault(s) == content_fault(s.take(n)),
    decreases s.len() - n,
{
    if n < s.len() {
        assert(s.take(n + 1).drop_last() =~= s.take(n));
        lemma_first_fault(s, n + 1);
    } else {
        assert(s.take(n) =~= s);
    }
}

impl WireMessage {
    pub fn validate(&self) -> (r: Result<(), CommonWireValidationError>)
        ensures
            common_check(r) == message_fault(self@),
    {
        if self.id.as_str().is_empty() {
            return Err(CommonWireValidationError::EmptyField("message.id"));
        }
        if let WireMessageSource::Model { provider, model } = &self.source {
            if provider.as_str().is_empty() {
                return Err(CommonWireValidationError::EmptyField("message.source.provider"));
            }
            if model.as_str().is_empty() {
                return Err(CommonWireValidationError::EmptyField("message.source.model"));
            }
        }
        validate_content(&self.content)
    }
}

impl WirePortableError {
    pub fn validate(&self) -> (r: Result<(), CommonWireValidationError>)
        ensures
            common_check(r) == failure_fault(self@),
    {
        if self.message.as_str().is_empty() {
            return Err(CommonWireValidationError::EmptyField("error.message"));
        }
        Ok(())
    }
}

impl WireTokenUsage {
    pub fn validate(&self) -> (r: Result<(), CommonWireValidationError>)
        ensures
            common_check(r) == usage_fault(self@),
    {
        if self.input_tokens > MAX_JSON_SAFE_INTEGER {
            return Err(CommonWireValidationError::UnsafeJsonInteger("usage.inputTokens"));
        }
        if self.output_tokens > MAX_JSON_SAFE_INTEGER {
            return Err(CommonWireValidationError::UnsafeJsonInteger("usage.outputTokens"));
        }
        Ok(())
    }
}

/// What reading a text as a time in RFC 3339 notation gives: the distance of its
/// offset from UTC in seconds, or nothing where it is no such time.
pub uninterp spec fn rfc3339_offset(text: Seq<char>) -> Option<i32>;

/// Reads `text` with `time::OffsetDateTime::parse` under the well-known `Rfc3339`
/// description and takes `offset().whole_seconds()` of what it gives. The claim is
/// that the outcome depends on the text alone.
#[verifier::external_body]
pub(crate) fn read_rfc3339(text: &str) -> (r: Option<i32>)
    ensures
        r == rfc3339_offset(text@),
{
    match time::OffsetDateTime::parse(text, &time::format_description::well_known::Rfc3339) {
        Ok(parsed) => Some(parsed.offset().whole_seconds()),
        Err(_) => None,
    }
}

/// Whether a text is a time in RFC 3339 notation with a UTC offset.
pub open spec fn is_utc(text: Seq<char>) -> bool {
    rfc3339_offset(text) == Some(0i32)
}

/// Whether an offset, as read from a time, is UTC.
pub fn utc_offset(offset: Option<i32>) -> (r: bool)
    ensures
        r == (offset == Some(0i32)),
{
    match offset {
        Some(seconds) => seconds == 0,
        None => false,
    }
}

/// Whether `value` is a time in RFC 3339 notation with a UTC offset.
pub fn is_utc_rfc3339(value: &str) -> (r: bool)
    ensures
        r == is_utc(value@),
{
    utc_offset(read_rfc3339(value))
}

/// Content passes exactly when every block of it does.
pub proof fn law_content_is_checked_block_by_block(s: Seq<ContentBlockView>)
    ensures
        content_fault(s) is None <==> forall|i: int|
            0 <= i < s.len() ==> block_fault(#[trigger] s[i]) is None,
    decreases s.len(),
{
    if s.len() > 0 {
        law_content_is_checked_block_by_block(s.drop_last());
        assert forall|i: int| 0 <= i < s.len() - 1 implies s.drop_last()[i] == s[i] by {}
        if content_fault(s) is None {
            assert forall|i: int| 0 <= i < s.len() implies block_fault(#[trigger] s[i]) is None by {
                if i < s.len() - 1 {
                    assert(s.drop_last()[i] == s[i]);
                }
            }
        } else if content_fault(s.drop_last()) is None {
            assert(block_fault(s[s.len() - 1]) is Some);
        }
    }
}

/// A block passes if and only if everything in it does: stored bytes have a name, a digest, a
/// size that JSON can hold and no empty media type; a call has an identifier, a name and
/// arguments that read as JSON; a result names its call, and its own blocks pass.
pub proof fn law_blocks_pass_when_complete(b: ContentBlockView)
    ensures
        block_fault(b) is None <==> match b {
            ContentBlockView::Text { .. } => true,
            ContentBlockView::Reasoning { .. } => true,
            ContentBlockView::Image { blob } => is_whole_blob(blob),
            ContentBlockView::Blob { blob } => is_whole_blob(blob),
            ContentBlockView::ToolCall { id, name, arguments_json } => id.len() > 0 && name.len()
                > 0 && json_reading(arguments_json) is Ok,
            ContentBlockView::ToolResult { tool_call_id, content, .. } => tool_call_id.len() > 0
                && forall|i: int|
                0 <= i < content.len() ==> block_fault(#[trigger] content[i]) is None,
        },
{
    if let ContentBlockView::ToolResult { content, .. } = b {
        law_content_is_checked_block_by_block(content);
    }
}

/// Whether a reference to stored bytes says all that it must, in a form that it may.
pub open spec fn is_whole_blob(b: BlobRefView) -> bool {
    &&& b.id.len() > 0
    &&& b.sha256.len() == 64
    &&& forall|i: int|
        0 <= i < b.sha256.len() ==> ('0' <= #[trigger] b.sha256[i] && b.sha256[i] <= '9') || ('a'
            <= b.sha256[i] && b.sha256[i] <= 'f')
    &&& b.size <= MAX_JSON_SAFE_INTEGER
    &&& b.media_type matches Some(t) ==> t.len() > 0
}

/// A message passes if and only if it has an identifier, a model that it came from is named
/// with its provider, and its content passes.
pub proof fn law_messages_pass_when_complete(m: MessageView)
    ensures
        message_fault(m) is None <==> {
            &&& m.id.len() > 0
            &&& m.source matches MessageSourceView::Model { provider, model } ==> provider.len() > 0
                && model.len() > 0
            &&& content_fault(m.content) is None
        },
{
}

/// A failure passes if and only if it has a message, and a usage report if and only if JSON
/// can hold its counts.
pub proof fn law_reports_pass_when_complete(e: PortableErrorView, u: TokenUsageView)
    ensures
        failure_fault(e) is None <==> e.message.len() > 0,
        usage_fault(u) is None <==> u.input_tokens <= MAX_JSON_SAFE_INTEGER && u.output_tokens
            <= MAX_JSON_SAFE_INTEGER,
{
}

/// A wire role, cause or code stands for the one of the same name.
pub proof fn law_wire_names_keep_their_meaning()
    ensures
        role_of(WireRole::System) == Role::System,
        role_of(WireRole::User) == Role::User,
        role_of(WireRole::Assistant) == Role::Assistant,
        cause_of(WireCancelCauseKind::User) == CancelCause::User,
        cause_of(WireCancelCauseKind::Parent) == CancelCause::Parent,
        cause_of(WireCancelCauseKind::Timeout) == CancelCause::Timeout,
        cause_of(WireCancelCauseKind::Policy) == CancelCause::Policy,
        cause_of(WireCancelCauseKind::Shutdown) == CancelCause::Shutdown,
        cause_of(WireCancelCauseKind::Disposed) == CancelCause::Disposed,
        code_of(WireErrorCode::InvalidArgument) == ErrorCode::InvalidArgument,
        code_of(WireErrorCode::NotFound) == ErrorCode::NotFound,
        code_of(WireErrorCode::Conflict) == ErrorCode::Conflict,
        code_of(WireErrorCode::PermissionDenied) == ErrorCode::PermissionDenied,
        code_of(WireErrorCode::Cancelled) == ErrorCode::Cancelled,
        code_of(WireErrorCode::DeadlineExceeded) == ErrorCode::DeadlineExceeded,
        code_of(WireErrorCode::ProviderUnavailable) == ErrorCode::ProviderUnavailable,
        code_of(WireErrorCode::ProviderProtocolError) == ErrorCode::ProviderProtocolError,
        code_of(WireErrorCode::ToolExecutionFailed) == ErrorCode::ToolExecutionFailed,
        code_of(WireErrorCode::ModelRequestFailed) == ErrorCode::ModelRequestFailed,
        code_of(WireErrorCode::SessionCorrupt) == ErrorCode::SessionCorrupt,
        code_of(WireErrorCode::UnknownOutcome) == ErrorCode::UnknownOutcome,
        code_of(WireErrorCode::Internal) == ErrorCode::Internal,
{
}

/// The model of a wire block says everything that the block says.
pub proof fn law_models_of_wire_blocks_are_whole(b: WireContentBlock)
    ensures
        match b {
            WireContentBlock::Text { text } => b@ == (ContentBlockView::Text { text: text@ }),
            WireContentBlock::Reasoning { text } => b@ == (ContentBlockView::Reasoning {
                text: text@,
            }),
            WireContentBlock::Image { blob } => b@ is Image && b@->Image_blob.id == blob.id@
                && b@->Image_blob.sha256 == blob.sha256@ && b@->Image_blob.size == blob.size
                && b@->Image_blob.media_type == opt_text(blob.media_type),
            WireContentBlock::Blob { blob } => b@ is Blob && b@->Blob_blob.id == blob.id@
                && b@->Blob_blob.sha256 == blob.sha256@ && b@->Blob_blob.size == blob.size
                && b@->Blob_blob.media_type == opt_text(blob.media_type),
            WireContentBlock::ToolCall { id, name, arguments_json } => b@ == (
            ContentBlockView::ToolCall { id: id@, name: name@, arguments_json: arguments_json@ }),
            WireContentBlock::ToolResult { tool_call_id, content, is_error } => {
                &&& b@ matches ContentBlockView::ToolResult {
                    tool_call_id: i,
                    content: c,
                    is_error: e,
                }
                &&& i == tool_call_id@ && e == is_error
                &&& c.len() == content@.len()
                &&& forall|k: int| 0 <= k < c.len() ==> (#[trigger] c[k]) == content@[k]@
            },
        },
{
}

/// The model of a wire message says who it is from, in which role and what it says; that of
/// a failure or a usage report says all of it.
pub proof fn law_models_of_wire_messages_are_whole(
    m: WireMessage,
    e: WirePortableError,
    u: WireTokenUsage,
)
    ensures
        m@.id == m.id@,
        m@.role == role_of(m.role),
        m.source is User <==> m@.source is User,
        m.source is Plugin <==> m@.source is Plugin,
        m.source is System <==> m@.source is System,
        m.source matches WireMessageSource::Model { provider, model } ==> m@.source == (
        MessageSourceView::Model { provider: provider@, model: model@ }),
        m@.content.len() == m.content@.len(),
        forall|k: int| 0 <= k < m.content@.len() ==> (#[trigger] m@.content[k]) == m.content@[k]@,
        e@.code == code_of(e.code),
        e@.message == e.message@,
        e@.details.len() == e.details@.len(),
        forall|k: int|
            0 <= k < e.details@.len() ==> (#[trigger] e@.details[k]) == (
                e.details@[k].0@,
                e.details@[k].1@,
            ),
        u@.input_tokens == u.input_tokens,
        u@.output_tokens == u.output_tokens,
        u@.extensions.len() == u.extensions@.len(),
        forall|k: int|
            0 <= k < u.extensions@.len() ==> (#[trigger] u@.extensions[k]) == (
                u.extensions@[k].0@,
                u.extensions@[k].1@,
            ),
{
}

/// What is reported of a reference to stored bytes is what is wrong with it.
pub proof fn law_blob_faults_are_named(b: BlobRefView)
    ensures
        match blob_fault(b) {
            None => true,
            Some(CommonWireErrorView::EmptyField(field)) => {
                ||| field == "blob.id"@ && b.id.len() == 0
                ||| field == "blob.mediaType"@ && b.media_type is Some && b.media_type->0.len() == 0
            },
            Some(CommonWireErrorView::InvalidSha256) => b.sha256.len() != 64 || exists|i: int|
                0 <= i < b.sha256.len() && !(('0' <= #[trigger] b.sha256[i] && b.sha256[i] <= '9')
                    || ('a' <= b.sha256[i] && b.sha256[i] <= 'f')),
            Some(CommonWireErrorView::UnsafeJsonInteger(field)) => field == "blob.size"@ && b.size
                > MAX_JSON_SAFE_INTEGER,
            Some(_) => false,
        },
{
}

/// What is reported of a call is what is wrong with it.
pub proof fn law_call_faults_are_named(
    id: Seq<char>,
    name: Seq<char>,
    arguments: Result<JsonRootView, Seq<char>>,
)
    ensures
        match tool_call_fault(id, name, arguments) {
            None => true,
            Some(CommonWireErrorView::EmptyField(field)) => {
                ||| field == "toolCall.id"@ && id.len() == 0
                ||| field == "toolCall.name"@ && name.len() == 0
            },
            Some(CommonWireErrorView::InvalidArgumentsJson(message)) => arguments == Err::<
                JsonRootView,
                Seq<char>,
            >(message),
            Some(_) => false,
        },
{
}

/// What is reported of content is the fault of one of its blocks, and every block before that
/// one passes; what is reported of a block is the fault of what it holds.
pub proof fn law_content_faults_are_those_of_the_first_faulty_block(
    s: Seq<ContentBlockView>,
) -> (k: int)
    requires
        content_fault(s) is Some,
    ensures
        0 <= k < s.len(),
        content_fault(s) == block_fault(s[k]),
        forall|i: int| 0 <= i < k ==> block_fault(#[trigger] s[i]) is None,
        match s[k] {
            ContentBlockView::Image { blob } => content_fault(s) == blob_fault(blob),
            ContentBlockView::Blob { blob } => content_fault(s) == blob_fault(blob),
            ContentBlockView::ToolCall { id, name, arguments_json } => content_fault(s)
                == tool_call_fault(id, name, json_reading(arguments_json)),
            ContentBlockView::ToolResult { tool_call_id, content, .. } => if tool_call_id.len()
                == 0 {
                content_fault(s) == Some(
                    CommonWireErrorView::EmptyField("toolResult.toolCallId"@),
                )
            } else {
                content_fault(s) == content_fault(content)
            },
            _ => false,
        },
    decreases s.len(),
{
    let front = s.drop_last();
    if content_fault(front) is Some {
        let k = law_content_faults_are_those_of_the_first_faulty_block(front);
        assert forall|i: int| 0 <= i < k implies block_fault(#[trigger] s[i]) is None by {
            assert(front[i] == s[i]);
        }
        k
    } else {
        law_content_is_checked_block_by_block(front);
        assert forall|i: int| 0 <= i < s.len() - 1 implies block_fault(#[trigger] s[i]) is None by {
            assert(front[i] == s[i]);
        }
        s.len() - 1
    }
}

/// What is reported of a message is what is wrong with it: its own names before its content.
pub proof fn law_message_faults_are_named(m: MessageView)
    ensures
        m.id.len() == 0 ==> message_fault(m) == Some(CommonWireErrorView::EmptyField("message.id"@)),
        m.id.len() > 0 ==> match m.source {
            MessageSourceView::Model { provider, model } if provider.len() == 0 => message_fault(m)
                == Some(CommonWireErrorView::EmptyField("message.source.provider"@)),
            MessageSourceView::Model { provider, model } if model.len() == 0 => message_fault(m)
                == Some(CommonWireErrorView::EmptyField("message.source.model"@)),
            _ => message_fault(m) == content_fault(m.content),
        },
{
}

/// What is reported of a failure or of usage is what is wrong with it.
pub proof fn law_report_faults_are_named(e: PortableErrorView, u: TokenUsageView)
    ensures
        failure_fault(e) matches Some(fault) ==> fault == CommonWireErrorView::EmptyField(
            "error.message"@,
        ),
        match usage_fault(u) {
            None => true,
            Some(CommonWireErrorView::UnsafeJsonInteger(field)) => {
                ||| field == "usage.inputTokens"@ && u.input_tokens > MAX_JSON_SAFE_INTEGER
                ||| field == "usage.outputTokens"@ && u.output_tokens > MAX_JSON_SAFE_INTEGER
            },
            Some(_) => false,
        },
{
}

} // verus!
