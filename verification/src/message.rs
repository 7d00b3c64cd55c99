//! Messages, the content they carry, and the failures and outcomes that are
//! recorded beside them.

use vstd::prelude::*;

use crate::json::JsonText;
use crate::text::{opt_text, same_opt_text};
use crate::types::{CancelCause, ErrorCode, Identifier, MessageId, ProviderId, Role, ToolCallId};

verus! {

/// A reference to immutable stored bytes.
#[derive(Debug, PartialEq, Eq)]
pub struct BlobRef {
    pub id: String,
    pub sha256: String,
    pub size: u64,
    pub media_type: Option<String>,
}

#[verifier::ext_equal]
pub struct BlobRefView {
    pub id: Seq<char>,
    pub sha256: Seq<char>,
    pub size: u64,
    pub media_type: Option<Seq<char>>,
}

impl View for BlobRef {
    type V = BlobRefView;

    open spec fn view(&self) -> BlobRefView {
        BlobRefView {
            id: self.id@,
            sha256: self.sha256@,
            size: self.size,
            media_type: opt_text(self.media_type),
        }
    }
}

impl Clone for BlobRef {
    fn clone(&self) -> (r: Self)
        ensures
            r == *self,
    {
        BlobRef {
            id: self.id.clone(),
            sha256: self.sha256.clone(),
            size: self.size,
            media_type: self.media_type.clone(),
        }
    }
}

impl BlobRef {
    pub fn same(&self, other: &BlobRef) -> (r: bool)
        ensures
            r == (self@ == other@),
    {
        self.id == other.id && self.sha256 == other.sha256 && self.size == other.size
            && same_opt_text(&self.media_type, &other.media_type)
    }
}

/// One block of message content.
#[derive(Debug, PartialEq)]
pub enum ContentBlock {
    Text { text: String },
    Reasoning { text: String },
    Image { blob: BlobRef },
    ToolCall { id: ToolCallId, name: String, arguments_json: JsonText },
    ToolResult { tool_call_id: ToolCallId, content: Vec<ContentBlock>, is_error: bool },
    Blob { blob: BlobRef },
}

#[verifier::ext_equal]
pub enum ContentBlockView {
    Text { text: Seq<char> },
    Reasoning { text: Seq<char> },
    Image { blob: BlobRefView },
    ToolCall { id: Seq<char>, name: Seq<char>, arguments_json: Seq<char> },
    ToolResult { tool_call_id: Seq<char>, content: Seq<ContentBlockView>, is_error: bool },
    Blob { blob: BlobRefView },
}

/// The model of one block.
pub open spec fn block_view(b: ContentBlock) -> ContentBlockView
    decreases b,
{
    match b {
        ContentBlock::Text { text } => ContentBlockView::Text { text: text@ },
        ContentBlock::Reasoning { text } => ContentBlockView::Reasoning { text: text@ },
        ContentBlock::Image { blob } => ContentBlockView::Image { blob: blob@ },
        ContentBlock::ToolCall { id, name, arguments_json } => ContentBlockView::ToolCall {
            id: id@,
            name: name@,
            arguments_json: arguments_json@,
        },
        ContentBlock::ToolResult { tool_call_id, content, is_error } => {
            ContentBlockView::ToolResult {
                tool_call_id: tool_call_id@,
                content: Seq::new(
                    content@.len(),
                    |i: int|
                        if 0 <= i < content@.len() {
                            block_view(content@[i])
                        } else {
                            arbitrary()
                        },
                ),
                is_error,
            }
        },
        ContentBlock::Blob { blob } => ContentBlockView::Blob { blob: blob@ },
    }
}

impl View for ContentBlock {
    type V = ContentBlockView;

    open spec fn view(&self) -> ContentBlockView {
        block_view(*self)
    }
}

/// The model of a row of blocks.
pub open spec fn content_view(s: Seq<ContentBlock>) -> Seq<ContentBlockView> {
    s.map_values(|b: ContentBlock| b@)
}

impl Clone for ContentBlock {
    fn clone(&self) -> (r: Self)
        ensures
            r@ == self@,
        decreases self,
    {
        match self {
            ContentBlock::Text { text } => ContentBlock::Text { text: text.clone() },
            ContentBlock::Reasoning { text } => ContentBlock::Reasoning { text: text.clone() },
            ContentBlock::Image { blob } => ContentBlock::Image { blob: blob.clone() },
            ContentBlock::ToolCall { id, name, arguments_json } => ContentBlock::ToolCall {
                id: id.clone(),
                name: name.clone(),
                arguments_json: arguments_json.clone(),
            },
            ContentBlock::ToolResult { tool_call_id, content, is_error } => {
                let mut copy: Vec<ContentBlock> = Vec::new();
                let mut i: usize = 0;
                while i < content.len()
                    invariant
                        i <= content@.len(),
                        copy@.len() == i,
                        forall|j: int| 0 <= j < i ==> (#[trigger] copy@[j])@ == content@[j]@,
                        self matches ContentBlock::ToolResult { content: c, .. } && c == content,
                    decreases content@.len() - i,
                {
                    copy.push(content[i].clone());
                    i = i + 1;
                }
                let r = ContentBlock::ToolResult {
                    tool_call_id: tool_call_id.clone(),
                    content: copy,
                    is_error: *is_error,
                };
                assert(r@->ToolResult_content =~= self@->ToolResult_content);
                r
            },
            ContentBlock::Blob { blob } => ContentBlock::Blob { blob: blob.clone() },
        }
    }
}

/// A copy of a row of blocks.
pub fn clone_content(content: &Vec<ContentBlock>) -> (r: Vec<ContentBlock>)
    ensures
        content_view(r@) == content_view(content@),
{
    let r = content.clone();
    assert(content_view(r@) =~= content_view(content@));
    r
}

impl ContentBlock {
    pub fn text(text: &str) -> (r: ContentBlock)
        ensures
            r@ == (ContentBlockView::Text { text: text@ }),
    {
        ContentBlock::Text { text: text.to_owned() }
    }

    /// Whether two blocks say the same.
    pub fn same(&self, other: &ContentBlock) -> (r: bool)
        ensures
            r == (self@ == other@),
        decreases self,
    {
        match (self, other) {
            (ContentBlock::Text { text: a }, ContentBlock::Text { text: b }) => *a == *b,
            (ContentBlock::Reasoning { text: a }, ContentBlock::Reasoning { text: b }) => *a == *b,
            (ContentBlock::Image { blob: a }, ContentBlock::Image { blob: b }) => a.same(b),
            (ContentBlock::Blob { blob: a }, ContentBlock::Blob { blob: b }) => a.same(b),
            (
                ContentBlock::ToolCall { id: a, name: n, arguments_json: j },
                ContentBlock::ToolCall { id: b, name: m, arguments_json: k },
            ) => a.same(b) && *n == *m && j.same(k),
            (
                ContentBlock::ToolResult { tool_call_id: a, content: c, is_error: e },
                ContentBlock::ToolResult { tool_call_id: b, content: d, is_error: f },
            ) => {
                let ghost left = self@->ToolResult_content;
                let ghost right = other@->ToolResult_content;
                assert(left.len() == c@.len() && right.len() == d@.len());
                if !a.same(b) || *e != *f || c.len() != d.len() {
                    return false;
                }
                let mut i: usize = 0;
                while i < c.len()
                    invariant
                        i <= c@.len(),
                        c@.len() == d@.len(),
                        left.len() == c@.len(),
                        right.len() == d@.len(),
                        forall|j: int|
                            0 <= j < c@.len() ==> #[trigger] left[j] == c@[j]@ && right[j]
                                == d@[j]@,
                        forall|j: int| 0 <= j < i ==> left[j] == right[j],
                        left == self@->ToolResult_content,
                        right == other@->ToolResult_content,
                        self matches ContentBlock::ToolResult { content: cc, .. } && cc == c,
                        other matches ContentBlock::ToolResult { content: dd, .. } && dd == d,
                    decreases c@.len() - i,
                {
                    if !c[i].same(&d[i]) {
                        assert(left[i as int] != right[i as int]);
                        return false;
                    }
                    assert(left[i as int] == right[i as int]);
                    i = i + 1;
                }
                assert(left =~= right);
                true
            },
            _ => false,
        }
    }
}

/// Whether two rows of blocks say the same.
pub fn same_content(a: &Vec<ContentBlock>, b: &Vec<ContentBlock>) -> (r: bool)
    ensures
        r == (content_view(a@) == content_view(b@)),
{
    if a.len() != b.len() {
        assert(content_view(a@).len() != content_view(b@).len());
        return false;
    }
    let mut i: usize = 0;
    while i < a.len()
        invariant
            i <= a@.len(),
            a@.len() == b@.len(),
            forall|j: int| 0 <= j < i ==> (#[trigger] a@[j])@ == b@[j]@,
        decreases a@.len() - i,
    {
        if !a[i].same(&b[i]) {
            assert(content_view(a@)[i as int] != content_view(b@)[i as int]);
            return false;
        }
        i = i + 1;
    }
    assert(content_view(a@) =~= content_view(b@));
    true
}

/// Who produced a message.
#[derive(Debug, PartialEq, Eq)]
pub enum MessageSource {
    User,
    Model { provider: ProviderId, model: String },
    Plugin,
    System,
}

#[verifier::ext_equal]
pub enum MessageSourceView {
    User,
    Model { provider: Seq<char>, model: Seq<char> },
    Plugin,
    System,
}

impl View for MessageSource {
    type V = MessageSourceView;

    open spec fn view(&self) -> MessageSourceView {
        match self {
            MessageSource::User => MessageSourceView::User,
            MessageSource::Model { provider, model } => MessageSourceView::Model {
                provider: provider@,
                model: model@,
            },
            MessageSource::Plugin => MessageSourceView::Plugin,
            MessageSource::System => MessageSourceView::System,
        }
    }
}

impl Clone for MessageSource {
    fn clone(&self) -> (r: Self)
        ensures
            r == *self,
    {
        match self {
            MessageSource::User => MessageSource::User,
            MessageSource::Model { provider, model } => MessageSource::Model {
                provider: provider.clone(),
                model: model.clone(),
            },
            MessageSource::Plugin => MessageSource::Plugin,
            MessageSource::System => MessageSource::System,
        }
    }
}

impl MessageSource {
    pub fn same(&self, other: &MessageSource) -> (r: bool)
        ensures
            r == (self@ == other@),
    {
        match (self, other) {
            (MessageSource::User, MessageSource::User) => true,
            (
                MessageSource::Model { provider: p, model: m },
                MessageSource::Model { provider: q, model: n },
            ) => p.same(q) && *m == *n,
            (MessageSource::Plugin, MessageSource::Plugin) => true,
            (MessageSource::System, MessageSource::System) => true,
            _ => false,
        }
    }
}

#[derive(Debug, PartialEq)]
pub struct Message {
    pub id: MessageId,
    pub role: Role,
    pub source: MessageSource,
    pub content: Vec<ContentBlock>,
}

#[verifier::ext_equal]
pub struct MessageView {
    pub id: Seq<char>,
    pub role: Role,
    pub source: MessageSourceView,
    pub content: Seq<ContentBlockView>,
}

impl View for Message {
    type V = MessageView;

    open spec fn view(&self) -> MessageView {
        MessageView {
            id: self.id@,
            role: self.role,
            source: self.source@,
            content: content_view(self.content@),
        }
    }
}

impl Clone for Message {
    fn clone(&self) -> (r: Self)
        ensures
            r@ == self@,
    {
        Message {
            id: self.id.clone(),
            role: self.role,
            source: self.source.clone(),
            content: clone_content(&self.content),
        }
    }
}

impl Message {
    pub fn same(&self, other: &Message) -> (r: bool)
        ensures
            r == (self@ == other@),
    {
        self.id.same(&other.id) && self.role == other.role && self.source.same(&other.source)
            && same_content(&self.content, &other.content)
    }
}

/// The model of a row of messages.
pub open spec fn messages_view(s: Seq<Message>) -> Seq<MessageView> {
    s.map_values(|m: Message| m@)
}

/// A copy of a row of messages.
pub fn clone_messages(messages: &Vec<Message>) -> (r: Vec<Message>)
    ensures
        messages_view(r@) == messages_view(messages@),
{
    let r = messages.clone();
    assert(messages_view(r@) =~= messages_view(messages@));
    r
}

/// A failure in the form in which it crosses process boundaries.
#[derive(Debug, PartialEq, Eq)]
pub struct PortableError {
    pub code: ErrorCode,
    pub message: String,
    /// Named JSON values that go with the failure.
    pub details: Vec<(String, JsonText)>,
}

#[verifier::ext_equal]
pub struct PortableErrorView {
    pub code: ErrorCode,
    pub message: Seq<char>,
    pub details: Seq<(Seq<char>, Seq<char>)>,
}

/// The model of named JSON values.
pub open spec fn named_json(s: Seq<(String, JsonText)>) -> Seq<(Seq<char>, Seq<char>)> {
    s.map_values(|m: (String, JsonText)| (m.0@, m.1@))
}

/// A copy of named JSON values.
pub fn clone_named_json(values: &Vec<(String, JsonText)>) -> (r: Vec<(String, JsonText)>)
    ensures
        named_json(r@) == named_json(values@),
{
    let mut r: Vec<(String, JsonText)> = Vec::new();
    let mut i: usize = 0;
    while i < values.len()
        invariant
            i <= values@.len(),
            r@ == values@.take(i as int),
        decreases values@.len() - i,
    {
        r.push((values[i].0.clone(), values[i].1.clone()));
        i = i + 1;
    }
    assert(r@ =~= values@);
    r
}

/// Whether two rows of named JSON values are equal, texts compared as written.
pub fn same_named_json(a: &Vec<(String, JsonText)>, b: &Vec<(String, JsonText)>) -> (r: bool)
    ensures
        r == (named_json(a@) == named_json(b@)),
{
    if a.len() != b.len() {
        assert(named_json(a@).len() != named_json(b@).len());
        return false;
    }
    let mut i: usize = 0;
    while i < a.len()
        invariant
            i <= a@.len(),
            a@.len() == b@.len(),
            forall|j: int|
                0 <= j < i ==> (#[trigger] a@[j]).0@ == b@[j].0@ && a@[j].1@ == b@[j].1@,
        decreases a@.len() - i,
    {
        if a[i].0 != b[i].0 || !a[i].1.same(&b[i].1) {
            assert(named_json(a@)[i as int] != named_json(b@)[i as int]);
            return false;
        }
        i = i + 1;
    }
    assert(named_json(a@) =~= named_json(b@));
    true
}

impl View for PortableError {
    type V = PortableErrorView;

    open spec fn view(&self) -> PortableErrorView {
        PortableErrorView {
            code: self.code,
            message: self.message@,
            details: named_json(self.details@),
        }
    }
}

impl Clone for PortableError {
    fn clone(&self) -> (r: Self)
        ensures
            r@ == self@,
    {
        PortableError {
            code: self.code,
            message: self.message.clone(),
            details: clone_named_json(&self.details),
        }
    }
}

/// A failure without details.
pub open spec fn plain_failure(code: ErrorCode, message: Seq<char>) -> PortableErrorView {
    PortableErrorView { code, message, details: Seq::empty() }
}

impl PortableError {
    pub fn new(code: ErrorCode, message: String) -> (r: PortableError)
        ensures
            r@ == plain_failure(code, message@),
    {
        let r = PortableError { code, message, details: Vec::new() };
        assert(r@.details =~= Seq::empty());
        r
    }

    pub fn same(&self, other: &PortableError) -> (r: bool)
        ensures
            r == (self@ == other@),
    {
        self.code == other.code && self.message == other.message && same_named_json(
            &self.details,
            &other.details,
        )
    }
}

#[derive(Debug, PartialEq, Eq)]
pub struct TokenUsage {
    pub input_tokens: u64,
    pub output_tokens: u64,
    pub extensions: Vec<(String, JsonText)>,
}

#[verifier::ext_equal]
pub struct TokenUsageView {
    pub input_tokens: u64,
    pub output_tokens: u64,
    pub extensions: Seq<(Seq<char>, Seq<char>)>,
}

impl View for TokenUsage {
    type V = TokenUsageView;

    open spec fn view(&self) -> TokenUsageView {
        TokenUsageView {
            input_tokens: self.input_tokens,
            output_tokens: self.output_tokens,
            extensions: named_json(self.extensions@),
        }
    }
}

impl Clone for TokenUsage {
    fn clone(&self) -> (r: Self)
        ensures
            r@ == self@,
    {
        TokenUsage {
            input_tokens: self.input_tokens,
            output_tokens: self.output_tokens,
            extensions: clone_named_json(&self.extensions),
        }
    }
}

impl TokenUsage {
    pub fn same(&self, other: &TokenUsage) -> (r: bool)
        ensures
            r == (self@ == other@),
    {
        self.input_tokens == other.input_tokens && self.output_tokens == other.output_tokens
            && same_named_json(&self.extensions, &other.extensions)
    }
}

/// The view of an optional token count.
pub open spec fn opt_usage(o: Option<TokenUsage>) -> Option<TokenUsageView> {
    match o {
        Some(u) => Some(u@),
        None => None,
    }
}

/// Whether two optional token counts are equal.
pub fn same_opt_usage(a: &Option<TokenUsage>, b: &Option<TokenUsage>) -> (r: bool)
    ensures
        r == (opt_usage(*a) == opt_usage(*b)),
{
    match (a, b) {
        (Some(x), Some(y)) => x.same(y),
        (None, None) => true,
        _ => false,
    }
}

/// How a tool call ended.
#[derive(Debug, PartialEq)]
pub enum ToolOutcome {
    Success { content: Vec<ContentBlock> },
    Error { code: String, message: String, content: Vec<ContentBlock> },
    Denied { reason: String },
    Cancelled { cause: CancelCause },
    /// The call may or may not have taken effect.
    Unknown { reason: String },
}

#[verifier::ext_equal]
pub enum ToolOutcomeView {
    Success { content: Seq<ContentBlockView> },
    Error { code: Seq<char>, message: Seq<char>, content: Seq<ContentBlockView> },
    Denied { reason: Seq<char> },
    Cancelled { cause: CancelCause },
    Unknown { reason: Seq<char> },
}

impl View for ToolOutcome {
    type V = ToolOutcomeView;

    open spec fn view(&self) -> ToolOutcomeView {
        match self {
            ToolOutcome::Success { content } => ToolOutcomeView::Success {
                content: content_view(content@),
            },
            ToolOutcome::Error { code, message, content } => ToolOutcomeView::Error {
                code: code@,
                message: message@,
                content: content_view(content@),
            },
            ToolOutcome::Denied { reason } => ToolOutcomeView::Denied { reason: reason@ },
            ToolOutcome::Cancelled { cause } => ToolOutcomeView::Cancelled { cause: *cause },
            ToolOutcome::Unknown { reason } => ToolOutcomeView::Unknown { reason: reason@ },
        }
    }
}

impl Clone for ToolOutcome {
    fn clone(&self) -> (r: Self)
        ensures
            r@ == self@,
    {
        match self {
            ToolOutcome::Success { content } => ToolOutcome::Success {
                content: clone_content(content),
            },
            ToolOutcome::Error { code, message, content } => ToolOutcome::Error {
                code: code.clone(),
                message: message.clone(),
                content: clone_content(content),
            },
            ToolOutcome::Denied { reason } => ToolOutcome::Denied { reason: reason.clone() },
            ToolOutcome::Cancelled { cause } => ToolOutcome::Cancelled { cause: *cause },
            ToolOutcome::Unknown { reason } => ToolOutcome::Unknown { reason: reason.clone() },
        }
    }
}

/// An error outcome that carries no content.
pub open spec fn plain_error(code: Seq<char>, message: Seq<char>) -> ToolOutcomeView {
    ToolOutcomeView::Error { code, message, content: Seq::empty() }
}

impl ToolOutcome {
    pub fn plain_error(code: &str, message: String) -> (r: ToolOutcome)
        ensures
            r@ == plain_error(code@, message@),
    {
        let r = ToolOutcome::Error { code: code.to_owned(), message, content: Vec::new() };
        assert(r@->Error_content =~= Seq::empty());
        r
    }

    pub fn same(&self, other: &ToolOutcome) -> (r: bool)
        ensures
            r == (self@ == other@),
    {
        match (self, other) {
            (ToolOutcome::Success { content: a }, ToolOutcome::Success { content: b }) => {
                same_content(a, b)
            },
            (
                ToolOutcome::Error { code: c, message: m, content: a },
                ToolOutcome::Error { code: d, message: n, content: b },
            ) => *c == *d && *m == *n && same_content(a, b),
            (ToolOutcome::Denied { reason: a }, ToolOutcome::Denied { reason: b }) => *a == *b,
            (ToolOutcome::Cancelled { cause: a }, ToolOutcome::Cancelled { cause: b }) => *a == *b,
            (ToolOutcome::Unknown { reason: a }, ToolOutcome::Unknown { reason: b }) => *a == *b,
            _ => false,
        }
    }
}

/// The view of an optional identifier.
pub open spec fn opt_id(o: Option<Identifier>) -> Option<Seq<char>> {
    match o {
        Some(id) => Some(id@),
        None => None,
    }
}

/// The model of a block says everything that the block says.
pub proof fn law_models_of_blocks_are_whole(b: ContentBlock)
    ensures
        match b {
            ContentBlock::Text { text } => b@ == (ContentBlockView::Text { text: text@ }),
            ContentBlock::Reasoning { text } => b@ == (ContentBlockView::Reasoning { text: text@ }),
            ContentBlock::Image { blob } => b@ is Image && b@->Image_blob.id == blob.id@
                && b@->Image_blob.sha256 == blob.sha256@ && b@->Image_blob.size == blob.size
                && b@->Image_blob.media_type == opt_text(blob.media_type),
            ContentBlock::Blob { blob } => b@ is Blob && b@->Blob_blob.id == blob.id@
                && b@->Blob_blob.sha256 == blob.sha256@ && b@->Blob_blob.size == blob.size
                && b@->Blob_blob.media_type == opt_text(blob.media_type),
            ContentBlock::ToolCall { id, name, arguments_json } => b@ == (
            ContentBlockView::ToolCall { id: id@, name: name@, arguments_json: arguments_json@ }),
            ContentBlock::ToolResult { tool_call_id, content, is_error } => {
                &&& b@ matches ContentBlockView::ToolResult {
                    tool_call_id: i,
                    content: c,
                    is_error: e,
                }
                &&& i == tool_call_id@ && e == is_error
                &&& c.len() == content@.len()
                &&& forall|k: int| 0 <= k < c.len() ==> (#[trigger] c[k]) == content@[k]@
            },
        },
{
}

/// The model of a message says who it is from, in which role and what it says, block by
/// block; that of a failure or of a usage report says all of it.
pub proof fn law_models_of_messages_are_whole(m: Message, e: PortableError, u: TokenUsage)
    ensures
        m@.id == m.id@,
        m@.role == m.role,
        m.source is User <==> m@.source is User,
        m.source is Plugin <==> m@.source is Plugin,
        m.source is System <==> m@.source is System,
        m.source matches MessageSource::Model { provider, model } ==> m@.source == (
        MessageSourceView::Model { provider: provider@, model: model@ }),
        m@.content.len() == m.content@.len(),
        forall|k: int| 0 <= k < m.content@.len() ==> (#[trigger] m@.content[k]) == m.content@[k]@,
        e@.code == e.code,
        e@.message == e.message@,
        e@.details.len() == e.details@.len(),
        forall|k: int|
            0 <= k < e.details@.len() ==> (#[trigger] e@.details[k]) == (
                e.details@[k].0@,
                e.details@[k].1@,
            ),
        u@.input_tokens == u.input_tokens,
        u@.output_tokens == u.output_tokens,
        u@.extensions.len() == u.extensions@.len(),
        forall|k: int|
            0 <= k < u.extensions@.len() ==> (#[trigger] u@.extensions[k]) == (
                u.extensions@[k].0@,
                u.extensions@[k].1@,
            ),
{
}

/// The model of an outcome says how the call ended and with what.
pub proof fn law_models_of_outcomes_are_whole(o: ToolOutcome)
    ensures
        match o {
            ToolOutcome::Success { content } => {
                &&& o@ matches ToolOutcomeView::Success { content: c }
                &&& c.len() == content@.len()
                &&& forall|k: int| 0 <= k < c.len() ==> (#[trigger] c[k]) == content@[k]@
            },
            ToolOutcome::Error { code, message, content } => {
                &&& o@ matches ToolOutcomeView::Error { code: n, message: m, content: c }
                &&& n == code@ && m == message@
                &&& c.len() == content@.len()
                &&& forall|k: int| 0 <= k < c.len() ==> (#[trigger] c[k]) == content@[k]@
            },
            ToolOutcome::Denied { reason } => o@ == (ToolOutcomeView::Denied { reason: reason@ }),
            ToolOutcome::Cancelled { cause } => o@ == (ToolOutcomeView::Cancelled { cause }),
            ToolOutcome::Unknown { reason } => o@ == (ToolOutcomeView::Unknown { reason: reason@ }),
        },
{
}

/// A failure or an error outcome that is made without more has its code and message, and
/// nothing else.
pub proof fn law_plain_failures_carry_no_more(code: ErrorCode, name: Seq<char>, message: Seq<char>)
    ensures
        plain_failure(code, message).code == code,
        plain_failure(code, message).message == message,
        plain_failure(code, message).details.len() == 0,
        plain_error(name, message) matches ToolOutcomeView::Error { code: c, message: m, content }
            && c == name && m == message && content.len() == 0,
{
}

} // verus!
