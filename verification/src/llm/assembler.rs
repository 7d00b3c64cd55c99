//! Putting a streamed answer together.
//!
//! A stream numbers its events from one. Content arrives in blocks; several may
//! be open at once, and each ends with the complete block, which must be what
//! its pieces add up to. A stream ends with exactly one finish event.

use std::collections::BTreeMap;

use vstd::prelude::*;
use vstd::std_specs::cmp::OrdSpec;
use vstd::std_specs::btree::{increasing_seq, spec_btree_map_iter};
use vstd::std_specs::iter::IteratorSpec;

use crate::json::{json_reading, read_json, reading_view, JsonRoot, JsonRootView, JsonText};
use crate::llm::stream::{
    BlockType, FinishEvent, FinishReason, FinishView, SequencedStreamEvent, StreamEvent,
    StreamEventView,
};
use crate::message::{
    content_view, opt_id, opt_usage, ContentBlock, ContentBlockView, PortableError, TokenUsage,
    TokenUsageView,
};
use crate::text::{concat2, concat3, concat4, decimal, decimal_text, opt_text};
use crate::types::{ErrorCode, StreamSeq, ToolCallId, MAX_JSON_SAFE_INTEGER};

verus! {

#[derive(Debug, PartialEq)]
pub enum LlmStreamOutcome {
    Assistant {
        content: Vec<ContentBlock>,
        usage: Option<TokenUsage>,
        finish_reason: FinishReason,
    },
    Failure { failure: PortableError, finish_reason: FinishReason },
}

/// How a stream breaks its rules.
#[allow(inconsistent_fields)]
#[derive(Debug, PartialEq, Eq)]
pub enum StreamAssemblyError {
    InvalidSequence { expected: StreamSeq, actual: StreamSeq },
    EventAfterFinish,
    DuplicateBlock(u32),
    MissingOpenBlock(u32),
    DeltaKindMismatch(u32),
    ToolCallIdChanged { index: u32, expected: ToolCallId, actual: ToolCallId },
    ToolCallNameChanged { index: u32, expected: String, actual: String },
    MissingToolCallId(u32),
    MissingToolCallName(u32),
    InvalidToolCallJson { index: u32, message: String },
    BlockEndMismatch(u32),
    DuplicateUsage,
    UsageWhileBlockOpen,
    FinishWhileBlockOpen,
    InvalidFinishFailure(FinishReason),
    MissingFinish,
    SequenceOverflow,
}

#[allow(inconsistent_fields)]
#[verifier::ext_equal]
pub enum AssemblyErrorView {
    InvalidSequence { expected: int, actual: int },
    EventAfterFinish,
    DuplicateBlock(u32),
    MissingOpenBlock(u32),
    DeltaKindMismatch(u32),
    ToolCallIdChanged { index: u32, expected: Seq<char>, actual: Seq<char> },
    ToolCallNameChanged { index: u32, expected: Seq<char>, actual: Seq<char> },
    MissingToolCallId(u32),
    MissingToolCallName(u32),
    InvalidToolCallJson { index: u32, message: Seq<char> },
    BlockEndMismatch(u32),
    DuplicateUsage,
    UsageWhileBlockOpen,
    FinishWhileBlockOpen,
    InvalidFinishFailure(FinishReason),
    MissingFinish,
    SequenceOverflow,
}

impl View for StreamAssemblyError {
    type V = AssemblyErrorView;

    open spec fn view(&self) -> AssemblyErrorView {
        match self {
            StreamAssemblyError::InvalidSequence { expected, actual } => {
                AssemblyErrorView::InvalidSequence { expected: expected@, actual: actual@ }
            },
            StreamAssemblyError::EventAfterFinish => AssemblyErrorView::EventAfterFinish,
            StreamAssemblyError::DuplicateBlock(i) => AssemblyErrorView::DuplicateBlock(*i),
            StreamAssemblyError::MissingOpenBlock(i) => AssemblyErrorView::MissingOpenBlock(*i),
            StreamAssemblyError::DeltaKindMismatch(i) => AssemblyErrorView::DeltaKindMismatch(*i),
            StreamAssemblyError::ToolCallIdChanged { index, expected, actual } => {
                AssemblyErrorView::ToolCallIdChanged {
                    index: *index,
                    expected: expected@,
                    actual: actual@,
                }
            },
            StreamAssemblyError::ToolCallNameChanged { index, expected, actual } => {
                AssemblyErrorView::ToolCallNameChanged {
                    index: *index,
                    expected: expected@,
                    actual: actual@,
                }
            },
            StreamAssemblyError::MissingToolCallId(i) => AssemblyErrorView::MissingToolCallId(*i),
            StreamAssemblyError::MissingToolCallName(i) => {
                AssemblyErrorView::MissingToolCallName(*i)
            },
            StreamAssemblyError::InvalidToolCallJson { index, message } => {
                AssemblyErrorView::InvalidToolCallJson { index: *index, message: message@ }
            },
            StreamAssemblyError::BlockEndMismatch(i) => AssemblyErrorView::BlockEndMismatch(*i),
            StreamAssemblyError::DuplicateUsage => AssemblyErrorView::DuplicateUsage,
            StreamAssemblyError::UsageWhileBlockOpen => AssemblyErrorView::UsageWhileBlockOpen,
            StreamAssemblyError::FinishWhileBlockOpen => AssemblyErrorView::FinishWhileBlockOpen,
            StreamAssemblyError::InvalidFinishFailure(reason) => {
                AssemblyErrorView::InvalidFinishFailure(*reason)
            },
            StreamAssemblyError::MissingFinish => AssemblyErrorView::MissingFinish,
            StreamAssemblyError::SequenceOverflow => AssemblyErrorView::SequenceOverflow,
        }
    }
}

/// The name of a finish reason.
pub open spec fn reason_name(reason: FinishReason) -> Seq<char> {
    match reason {
        FinishReason::Completed => "Completed"@,
        FinishReason::MaxTokens => "MaxTokens"@,
        FinishReason::Error => "Error"@,
        FinishReason::Cancelled => "Cancelled"@,
    }
}

/// A broken rule in words.
pub open spec fn assembly_error_text(e: AssemblyErrorView) -> Seq<char> {
    match e {
        AssemblyErrorView::InvalidSequence { expected, actual } => {
            "stream sequence must start at 1 and increase by exactly one; expected "@ + decimal(
                expected as nat,
            ) + ", got "@ + decimal(actual as nat)
        },
        AssemblyErrorView::EventAfterFinish => "stream event was received after finish"@,
        AssemblyErrorView::DuplicateBlock(i) => {
            "block index "@ + decimal(i as nat) + " was started more than once"@
        },
        AssemblyErrorView::MissingOpenBlock(i) => {
            "block index "@ + decimal(i as nat) + " is not open"@
        },
        AssemblyErrorView::DeltaKindMismatch(i) => {
            "stream delta kind does not match block index "@ + decimal(i as nat)
        },
        AssemblyErrorView::ToolCallIdChanged { index, expected, actual } => {
            "tool-call delta for block "@ + decimal(index as nat) + " changed call id from "@
                + expected + " to "@ + actual
        },
        AssemblyErrorView::ToolCallNameChanged { index, expected, actual } => {
            "tool-call delta for block "@ + decimal(index as nat) + " changed name from "@
                + expected + " to "@ + actual
        },
        AssemblyErrorView::MissingToolCallId(i) => {
            "tool-call block "@ + decimal(i as nat) + " ended without a call id"@
        },
        AssemblyErrorView::MissingToolCallName(i) => {
            "tool-call block "@ + decimal(i as nat) + " ended without a name"@
        },
        AssemblyErrorView::InvalidToolCallJson { index, message } => {
            "tool-call block "@ + decimal(index as nat) + " ended with invalid JSON arguments: "@
                + message
        },
        AssemblyErrorView::BlockEndMismatch(i) => {
            "block-end content for index "@ + decimal(i as nat)
                + " does not match the normalized deltas"@
        },
        AssemblyErrorView::DuplicateUsage => "usage may be emitted at most once"@,
        AssemblyErrorView::UsageWhileBlockOpen => {
            "usage may not be emitted while a content block is open"@
        },
        AssemblyErrorView::FinishWhileBlockOpen => {
            "finish may not be emitted while a content block is open"@
        },
        AssemblyErrorView::InvalidFinishFailure(reason) => {
            "finish reason "@ + reason_name(reason) + " has an invalid failure payload"@
        },
        AssemblyErrorView::MissingFinish => "stream ended without exactly one finish event"@,
        AssemblyErrorView::SequenceOverflow => "stream sequence overflow"@,
    }
}

impl StreamAssemblyError {
    pub fn message(&self) -> (r: String)
        ensures
            r@ == assembly_error_text(self@),
    {
        match self {
            StreamAssemblyError::InvalidSequence { expected, actual } => {
                concat4(
                    "stream sequence must start at 1 and increase by exactly one; expected ",
                    decimal_text(expected.get()).as_str(),
                    ", got ",
                    decimal_text(actual.get()).as_str(),
                )
            },
            StreamAssemblyError::EventAfterFinish => {
                "stream event was received after finish".to_owned()
            },
            StreamAssemblyError::DuplicateBlock(i) => {
                concat3(
                    "block index ",
                    decimal_text(*i as u64).as_str(),
                    " was started more than once",
                )
            },
            StreamAssemblyError::MissingOpenBlock(i) => {
                concat3("block index ", decimal_text(*i as u64).as_str(), " is not open")
            },
            StreamAssemblyError::DeltaKindMismatch(i) => {
                concat2(
                    "stream delta kind does not match block index ",
                    decimal_text(*i as u64).as_str(),
                )
            },
            StreamAssemblyError::ToolCallIdChanged { index, expected, actual } => {
                let mut text = concat4(
                    "tool-call delta for block ",
                    decimal_text(*index as u64).as_str(),
                    " changed call id from ",
                    expected.as_str(),
                );
                text.append(" to ");
                text.append(actual.as_str());
                text
            },
            StreamAssemblyError::ToolCallNameChanged { index, expected, actual } => {
                let mut text = concat4(
                    "tool-call delta for block ",
                    decimal_text(*index as u64).as_str(),
                    " changed name from ",
                    expected.as_str(),
                );
                text.append(" to ");
                text.append(actual.as_str());
                text
            },
            StreamAssemblyError::MissingToolCallId(i) => {
                concat3(
                    "tool-call block ",
                    decimal_text(*i as u64).as_str(),
                    " ended without a call id",
                )
            },
            StreamAssemblyError::MissingToolCallName(i) => {
                concat3(
                    "tool-call block ",
                    decimal_text(*i as u64).as_str(),
                    " ended without a name",
                )
            },
            StreamAssemblyError::InvalidToolCallJson { index, message } => {
                concat4(
                    "tool-call block ",
                    decimal_text(*index as u64).as_str(),
                    " ended with invalid JSON arguments: ",
                    message.as_str(),
                )
            },
            StreamAssemblyError::BlockEndMismatch(i) => {
                concat3(
                    "block-end content for index ",
                    decimal_text(*i as u64).as_str(),
                    " does not match the normalized deltas",
                )
            },
            StreamAssemblyError::DuplicateUsage => "usage may be emitted at most once".to_owned(),
            StreamAssemblyError::UsageWhileBlockOpen => {
                "usage may not be emitted while a content block is open".to_owned()
            },
            StreamAssemblyError::FinishWhileBlockOpen => {
                "finish may not be emitted while a content block is open".to_owned()
            },
            StreamAssemblyError::InvalidFinishFailure(reason) => {
                let name = match reason {
                    FinishReason::Completed => "Completed",
                    FinishReason::MaxTokens => "MaxTokens",
                    FinishReason::Error => "Error",
                    FinishReason::Cancelled => "Cancelled",
                };
                concat3("finish reason ", name, " has an invalid failure payload")
            },
            StreamAssemblyError::MissingFinish => {
                "stream ended without exactly one finish event".to_owned()
            },
            StreamAssemblyError::SequenceOverflow => "stream sequence overflow".to_owned(),
        }
    }
}

/// A block whose end has not arrived.
#[derive(Debug)]
pub enum OpenBlock {
    Text(String),
    Reasoning(String),
    ToolCall { call_id: Option<ToolCallId>, name: Option<String>, arguments: String },
}

#[verifier::ext_equal]
pub enum OpenView {
    Text(Seq<char>),
    Reasoning(Seq<char>),
    ToolCall { call_id: Option<Seq<char>>, name: Option<Seq<char>>, arguments: Seq<char> },
}

impl View for OpenBlock {
    type V = OpenView;

    open spec fn view(&self) -> OpenView {
        match self {
            OpenBlock::Text(text) => OpenView::Text(text@),
            OpenBlock::Reasoning(text) => OpenView::Reasoning(text@),
            OpenBlock::ToolCall { call_id, name, arguments } => OpenView::ToolCall {
                call_id: opt_id(*call_id),
                name: opt_text(*name),
                arguments: arguments@,
            },
        }
    }
}

/// The part of an answer that has arrived.
#[derive(Debug)]
pub struct LlmStreamAssembler {
    last_seq: Option<StreamSeq>,
    open: BTreeMap<u32, OpenBlock>,
    completed: BTreeMap<u32, ContentBlock>,
    usage: Option<TokenUsage>,
    finish: Option<FinishEvent>,
}

/// The model of [`LlmStreamAssembler`].
#[verifier::ext_equal]
pub struct AssemblyView {
    pub last_seq: Option<int>,
    pub open: Map<u32, OpenView>,
    pub completed: Map<u32, ContentBlockView>,
    pub usage: Option<TokenUsageView>,
    pub finish: Option<FinishView>,
}

pub open spec fn opt_finish(o: Option<FinishEvent>) -> Option<FinishView> {
    match o {
        Some(f) => Some(f@),
        None => None,
    }
}

pub open spec fn opt_seq(o: Option<StreamSeq>) -> Option<int> {
    match o {
        Some(s) => Some(s@),
        None => None,
    }
}

impl View for LlmStreamAssembler {
    type V = AssemblyView;

    closed spec fn view(&self) -> AssemblyView {
        AssemblyView {
            last_seq: opt_seq(self.last_seq),
            open: self.open@.map_values(|b: OpenBlock| b@),
            completed: self.completed@.map_values(|b: ContentBlock| b@),
            usage: opt_usage(self.usage),
            finish: opt_finish(self.finish),
        }
    }
}

/// An assembler that has received nothing.
pub open spec fn empty_assembly() -> AssemblyView {
    AssemblyView {
        last_seq: None,
        open: Map::empty(),
        completed: Map::empty(),
        usage: None,
        finish: None,
    }
}

/// What a received event leads to: the new state, and the broken rule if any.
#[verifier::ext_equal]
pub struct Pushed {
    pub state: AssemblyView,
    pub fault: Option<AssemblyErrorView>,
}

pub open spec fn accepted(state: AssemblyView) -> Pushed {
    Pushed { state, fault: None }
}

pub open spec fn refused(state: AssemblyView, fault: AssemblyErrorView) -> Pushed {
    Pushed { state, fault: Some(fault) }
}

/// A block of which nothing has arrived.
pub open spec fn empty_block(block_type: BlockType) -> OpenView {
    match block_type {
        BlockType::Text => OpenView::Text(Seq::empty()),
        BlockType::Reasoning => OpenView::Reasoning(Seq::empty()),
        BlockType::ToolCall => OpenView::ToolCall {
            call_id: None,
            name: None,
            arguments: Seq::empty(),
        },
    }
}

pub open spec fn with_open(v: AssemblyView, index: u32, block: OpenView) -> AssemblyView {
    AssemblyView { open: v.open.insert(index, block), ..v }
}

/// A piece of a tool call: the call identifier comes with every piece and never
/// changes, the name may come with any and never changes.
pub open spec fn push_tool_delta(
    v: AssemblyView,
    index: u32,
    call_id: Seq<char>,
    name: Option<Seq<char>>,
    delta: Seq<char>,
) -> Pushed {
    if !v.open.contains_key(index) {
        refused(v, AssemblyErrorView::MissingOpenBlock(index))
    } else {
        match v.open[index] {
            OpenView::ToolCall { call_id: known_id, name: known_name, arguments } => {
                if known_id is Some && known_id != Some(call_id) {
                    refused(
                        v,
                        AssemblyErrorView::ToolCallIdChanged {
                            index,
                            expected: known_id->0,
                            actual: call_id,
                        },
                    )
                } else if name is Some && known_name is Some && known_name != name {
                    refused(
                        with_open(
                            v,
                            index,
                            OpenView::ToolCall {
                                call_id: Some(call_id),
                                name: known_name,
                                arguments,
                            },
                        ),
                        AssemblyErrorView::ToolCallNameChanged {
                            index,
                            expected: known_name->0,
                            actual: name->0,
                        },
                    )
                } else {
                    accepted(
                        with_open(
                            v,
                            index,
                            OpenView::ToolCall {
                                call_id: Some(call_id),
                                name: if known_name is Some {
                                    known_name
                                } else {
                                    name
                                },
                                arguments: arguments + delta,
                            },
                        ),
                    )
                }
            },
            _ => refused(v, AssemblyErrorView::DeltaKindMismatch(index)),
        }
    }
}

/// The block that the pieces of an open block add up to, where `reading` is what
/// reading a text as JSON gives.
pub open spec fn finalized(
    index: u32,
    open: OpenView,
    reading: spec_fn(Seq<char>) -> Result<JsonRootView, Seq<char>>,
) -> Result<ContentBlockView, AssemblyErrorView> {
    match open {
        OpenView::Text(text) => Ok(ContentBlockView::Text { text }),
        OpenView::Reasoning(text) => Ok(ContentBlockView::Reasoning { text }),
        OpenView::ToolCall { call_id: None, .. } => Err(
            AssemblyErrorView::MissingToolCallId(index),
        ),
        OpenView::ToolCall { name: None, .. } => Err(AssemblyErrorView::MissingToolCallName(index)),
        OpenView::ToolCall { call_id: Some(id), name: Some(name), arguments } => {
            match reading(arguments) {
                Ok(_) => Ok(
                    ContentBlockView::ToolCall { id, name, arguments_json: arguments },
                ),
                Err(message) => Err(AssemblyErrorView::InvalidToolCallJson { index, message }),
            }
        },
    }
}

/// The end of a block.
pub open spec fn push_block_end(
    v: AssemblyView,
    index: u32,
    block: ContentBlockView,
    reading: spec_fn(Seq<char>) -> Result<JsonRootView, Seq<char>>,
) -> Pushed {
    if !v.open.contains_key(index) {
        refused(v, AssemblyErrorView::MissingOpenBlock(index))
    } else {
        let closed = AssemblyView { open: v.open.remove(index), ..v };
        match finalized(index, v.open[index], reading) {
            Err(fault) => refused(closed, fault),
            Ok(expected) => if expected != block {
                refused(closed, AssemblyErrorView::BlockEndMismatch(index))
            } else {
                accepted(
                    AssemblyView { completed: v.completed.insert(index, block), ..closed },
                )
            },
        }
    }
}

/// Whether a finish event carries the failure that its reason calls for.
pub open spec fn finish_is_valid(f: FinishView) -> bool {
    match f.reason {
        FinishReason::Completed | FinishReason::MaxTokens => f.failure is None,
        FinishReason::Error => f.failure matches Some(e) && e.code != ErrorCode::Cancelled,
        FinishReason::Cancelled => f.failure matches Some(e) && e.code == ErrorCode::Cancelled,
    }
}

/// What an event with the right number leads to.
pub open spec fn push_event(
    v: AssemblyView,
    event: StreamEventView,
    reading: spec_fn(Seq<char>) -> Result<JsonRootView, Seq<char>>,
) -> Pushed {
    match event {
        StreamEventView::BlockStart { index, block_type } => {
            if v.open.contains_key(index) || v.completed.contains_key(index) {
                refused(v, AssemblyErrorView::DuplicateBlock(index))
            } else {
                accepted(with_open(v, index, empty_block(block_type)))
            }
        },
        StreamEventView::TextDelta { index, text } => {
            if !v.open.contains_key(index) {
                refused(v, AssemblyErrorView::MissingOpenBlock(index))
            } else if let OpenView::Text(buffer) = v.open[index] {
                accepted(with_open(v, index, OpenView::Text(buffer + text)))
            } else {
                refused(v, AssemblyErrorView::DeltaKindMismatch(index))
            }
        },
        StreamEventView::ReasoningDelta { index, text } => {
            if !v.open.contains_key(index) {
                refused(v, AssemblyErrorView::MissingOpenBlock(index))
            } else if let OpenView::Reasoning(buffer) = v.open[index] {
                accepted(with_open(v, index, OpenView::Reasoning(buffer + text)))
            } else {
                refused(v, AssemblyErrorView::DeltaKindMismatch(index))
            }
        },
        StreamEventView::ToolCallDelta { index, call_id, name, arguments_delta } => {
            push_tool_delta(v, index, call_id, name, arguments_delta)
        },
        StreamEventView::BlockEnd { index, block } => push_block_end(v, index, block, reading),
        StreamEventView::Usage(usage) => {
            if v.open.dom().len() > 0 {
                refused(v, AssemblyErrorView::UsageWhileBlockOpen)
            } else {
                Pushed {
                    state: AssemblyView { usage: Some(usage), ..v },
                    fault: if v.usage is Some {
                        Some(AssemblyErrorView::DuplicateUsage)
                    } else {
                        None
                    },
                }
            }
        },
        StreamEventView::Finish(finish) => {
            if v.open.dom().len() > 0 {
                refused(v, AssemblyErrorView::FinishWhileBlockOpen)
            } else if !finish_is_valid(finish) {
                refused(v, AssemblyErrorView::InvalidFinishFailure(finish.reason))
            } else {
                accepted(AssemblyView { finish: Some(finish), ..v })
            }
        },
    }
}

/// The number that the next event must have.
pub open spec fn expected_seq(v: AssemblyView) -> int {
    match v.last_seq {
        Some(last) => last + 1,
        None => 1,
    }
}

/// What a received event leads to.
pub open spec fn pushed(
    v: AssemblyView,
    seq: int,
    event: StreamEventView,
    reading: spec_fn(Seq<char>) -> Result<JsonRootView, Seq<char>>,
) -> Pushed {
    if v.finish is Some {
        refused(v, AssemblyErrorView::EventAfterFinish)
    } else if expected_seq(v) > MAX_JSON_SAFE_INTEGER {
        refused(v, AssemblyErrorView::SequenceOverflow)
    } else if seq != expected_seq(v) {
        refused(
            v,
            AssemblyErrorView::InvalidSequence { expected: expected_seq(v), actual: seq },
        )
    } else {
        push_event(AssemblyView { last_seq: Some(seq), ..v }, event, reading)
    }
}

/// The view of a refusal.
pub open spec fn fault_view(r: Result<(), StreamAssemblyError>) -> Option<AssemblyErrorView> {
    match r {
        Ok(_) => None,
        Err(e) => Some(e@),
    }
}

/// Whether `content` is the completed blocks in ascending order of their index.
pub open spec fn in_index_order(
    content: Seq<ContentBlockView>,
    completed: Map<u32, ContentBlockView>,
) -> bool {
    exists|keys: Seq<u32>| is_index_order(keys, content, completed)
}

/// Whether `keys` are the indexes of all completed blocks in ascending order,
/// and `content` are their blocks.
pub open spec fn is_index_order(
    keys: Seq<u32>,
    content: Seq<ContentBlockView>,
    completed: Map<u32, ContentBlockView>,
) -> bool {
    &&& keys.len() == content.len()
    &&& forall|i: int, j: int| 0 <= i < j < keys.len() ==> keys[i] < keys[j]
    &&& forall|k: u32| completed.contains_key(k) <==> keys.contains(k)
    &&& forall|i: int| 0 <= i < keys.len() ==> content[i] == completed[#[trigger] keys[i]]
}

/// Whether `r` is what the stream amounts to when it has ended.
pub open spec fn is_outcome(
    v: AssemblyView,
    r: Result<LlmStreamOutcome, StreamAssemblyError>,
) -> bool {
    match v.finish {
        None => r matches Err(StreamAssemblyError::MissingFinish),
        Some(finish) => match finish.reason {
            FinishReason::Completed | FinishReason::MaxTokens => {
                &&& r matches Ok(LlmStreamOutcome::Assistant { content, usage, finish_reason })
                &&& in_index_order(content_view(content@), v.completed)
                &&& opt_usage(usage) == v.usage
                &&& finish_reason == finish.reason
            },
            FinishReason::Error | FinishReason::Cancelled => {
                &&& r matches Ok(LlmStreamOutcome::Failure { failure, finish_reason })
                &&& finish.failure == Some(failure@)
                &&& finish_reason == finish.reason
            },
        },
    }
}

/// The arguments of the tool call that an event ends, or an empty text.
pub open spec fn ending_text(v: AssemblyView, event: StreamEventView) -> Seq<char> {
    match event {
        StreamEventView::BlockEnd { index, .. } => if v.open.contains_key(index) {
            match v.open[index] {
                OpenView::ToolCall { arguments, .. } => arguments,
                _ => Seq::empty(),
            }
        } else {
            Seq::empty()
        },
        _ => Seq::empty(),
    }
}

/// Whether a recorded finish carries the failure that its reason calls for.
pub open spec fn is_sound(v: AssemblyView) -> bool {
    v.finish matches Some(f) ==> finish_is_valid(f)
}

proof fn lemma_open_insert(m: Map<u32, OpenBlock>, k: u32, b: OpenBlock)
    ensures
        m.insert(k, b).map_values(|b: OpenBlock| b@) == m.map_values(|b: OpenBlock| b@).insert(
            k,
            b@,
        ),
        m.remove(k).insert(k, b).map_values(|b: OpenBlock| b@) == m.map_values(
            |b: OpenBlock| b@,
        ).insert(k, b@),
        m.remove(k).map_values(|b: OpenBlock| b@) == m.map_values(|b: OpenBlock| b@).remove(k),
{
    assert(m.insert(k, b).map_values(|b: OpenBlock| b@) =~= m.map_values(
        |b: OpenBlock| b@,
    ).insert(k, b@));
    assert(m.remove(k).insert(k, b) =~= m.insert(k, b));
    assert(m.remove(k).map_values(|b: OpenBlock| b@) =~= m.map_values(|b: OpenBlock| b@).remove(k));
}

/// Puts the end of an open block together, where `reading` is what reading its
/// arguments as JSON gave.
pub fn finalize_open_block(index: u32, open: OpenBlock, reading: Result<JsonRoot, String>) -> (r:
    Result<ContentBlock, StreamAssemblyError>)
    ensures
        match r {
            Ok(block) => finalized(index, open@, |t: Seq<char>| reading_view(reading)) == Ok::<
                ContentBlockView,
                AssemblyErrorView,
            >(block@),
            Err(e) => finalized(index, open@, |t: Seq<char>| reading_view(reading)) == Err::<
                ContentBlockView,
                AssemblyErrorView,
            >(e@),
        },
{
    match open {
        OpenBlock::Text(text) => Ok(ContentBlock::Text { text }),
        OpenBlock::Reasoning(text) => Ok(ContentBlock::Reasoning { text }),
        OpenBlock::ToolCall { call_id, name, arguments } => {
            let id = match call_id {
                Some(id) => id,
                None => {
                    return Err(StreamAssemblyError::MissingToolCallId(index));
                },
            };
            let name = match name {
                Some(name) => name,
                None => {
                    return Err(StreamAssemblyError::MissingToolCallName(index));
                },
            };
            match JsonText::from_reading(arguments, reading) {
                Ok(arguments_json) => Ok(ContentBlock::ToolCall { id, name, arguments_json }),
                Err(message) => Err(StreamAssemblyError::InvalidToolCallJson { index, message }),
            }
        },
    }
}

fn validate_finish(finish: &FinishEvent) -> (r: bool)
    ensures
        r == finish_is_valid(finish@),
{
    match finish.reason {
        FinishReason::Completed | FinishReason::MaxTokens => finish.failure.is_none(),
        FinishReason::Error => match &finish.failure {
            Some(failure) => failure.code != ErrorCode::Cancelled,
            None => false,
        },
        FinishReason::Cancelled => match &finish.failure {
            Some(failure) => failure.code == ErrorCode::Cancelled,
            None => false,
        },
    }
}

proof fn lemma_increasing(s: Seq<u32>)
    requires
        increasing_seq(s),
    ensures
        forall|i: int, j: int| 0 <= i < j < s.len() ==> s[i] < s[j],
{
    broadcast use vstd::std_specs::btree::group_btree_axioms;

    assert forall|i: int, j: int| 0 <= i < j < s.len() implies s[i] < s[j] by {
        assert(s[i].cmp_spec(&s[j]) is Less);
    }
}

impl LlmStreamAssembler {
    pub fn new() -> (r: LlmStreamAssembler)
        ensures
            r@ == empty_assembly(),
            is_sound(r@),
    {
        let r = LlmStreamAssembler {
            last_seq: None,
            open: BTreeMap::new(),
            completed: BTreeMap::new(),
            usage: None,
            finish: None,
        };
        assert(r@.open =~= Map::empty());
        assert(r@.completed =~= Map::empty());
        r
    }

    /// Takes in the next event.
    pub fn push(&mut self, item: SequencedStreamEvent) -> (r: Result<(), StreamAssemblyError>)
        requires
            is_sound(old(self)@),
        ensures
            is_sound(final(self)@),
            pushed(old(self)@, item.seq@, item.event@, |t: Seq<char>| json_reading(t)) == (Pushed {
                state: final(self)@,
                fault: fault_view(r),
            }),
    {
        let reading = read_json(self.ending_arguments(&item).as_str());
        let ghost before = self@;
        proof {
            assert(pushed(before, item.seq@, item.event@, |t: Seq<char>| json_reading(t))
                == pushed(before, item.seq@, item.event@, |t: Seq<char>| reading_view(reading)));
        }
        self.push_read(item, reading)
    }

    /// The arguments of the tool call that `item` ends, or an empty text.
    pub fn ending_arguments(&self, item: &SequencedStreamEvent) -> (r: String)
        ensures
            r@ == ending_text(self@, item.event@),
    {
        broadcast use vstd::std_specs::btree::group_btree_axioms;

        if let StreamEvent::BlockEnd { index, .. } = &item.event {
            if let Some(OpenBlock::ToolCall { arguments, .. }) = self.open.get(index) {
                return arguments.clone();
            }
        }
        String::new()
    }

    /// Takes in the next event, where `reading` is what reading the arguments of
    /// a tool call that ends with it as JSON gave.
    pub fn push_read(
        &mut self,
        item: SequencedStreamEvent,
        reading: Result<JsonRoot, String>,
    ) -> (r: Result<(), StreamAssemblyError>)
        requires
            is_sound(old(self)@),
        ensures
            is_sound(final(self)@),
            pushed(
                old(self)@,
                item.seq@,
                item.event@,
                |t: Seq<char>| reading_view(reading),
            ) == (Pushed { state: final(self)@, fault: fault_view(r) }),
    {
        broadcast use vstd::std_specs::btree::group_btree_axioms;

        assert(self@.open.dom() =~= self.open@.dom());
        if self.finish.is_some() {
            return Err(StreamAssemblyError::EventAfterFinish);
        }
        let expected = match &self.last_seq {
            Some(seq) => match seq.checked_next() {
                Ok(next) => next,
                Err(_) => {
                    return Err(StreamAssemblyError::SequenceOverflow);
                },
            },
            None => StreamSeq::first(),
        };
        if item.seq.get() != expected.get() {
            return Err(StreamAssemblyError::InvalidSequence { expected, actual: item.seq });
        }
        self.last_seq = Some(item.seq);
        match item.event {
            StreamEvent::BlockStart { index, block_type } => self.start_block(index, block_type),
            StreamEvent::TextDelta { index, text } => self.extend_text(index, text, false),
            StreamEvent::ReasoningDelta { index, text } => self.extend_text(index, text, true),
            StreamEvent::ToolCallDelta { index, call_id, name, arguments_delta } => {
                self.extend_tool_call(index, call_id, name, arguments_delta)
            },
            StreamEvent::BlockEnd { index, block } => self.end_block(index, block, reading),
            StreamEvent::Usage(usage) => {
                if !self.open.is_empty() {
                    return Err(StreamAssemblyError::UsageWhileBlockOpen);
                }
                let duplicate = self.usage.is_some();
                self.usage = Some(usage);
                if duplicate {
                    return Err(StreamAssemblyError::DuplicateUsage);
                }
                Ok(())
            },
            StreamEvent::Finish(finish) => {
                if !self.open.is_empty() {
                    return Err(StreamAssemblyError::FinishWhileBlockOpen);
                }
                if !validate_finish(&finish) {
                    return Err(StreamAssemblyError::InvalidFinishFailure(finish.reason));
                }
                self.finish = Some(finish);
                Ok(())
            },
        }
    }

    fn start_block(&mut self, index: u32, block_type: BlockType) -> (r: Result<
        (),
        StreamAssemblyError,
    >)
        ensures
            push_event(
                old(self)@,
                StreamEventView::BlockStart { index, block_type },
                |t: Seq<char>| json_reading(t),
            ) == (Pushed { state: final(self)@, fault: fault_view(r) }),
    {
        broadcast use vstd::std_specs::btree::group_btree_axioms;

        if self.open.contains_key(&index) || self.completed.contains_key(&index) {
            return Err(StreamAssemblyError::DuplicateBlock(index));
        }
        let block = match block_type {
            BlockType::Text => OpenBlock::Text(String::new()),
            BlockType::Reasoning => OpenBlock::Reasoning(String::new()),
            BlockType::ToolCall => OpenBlock::ToolCall {
                call_id: None,
                name: None,
                arguments: String::new(),
            },
        };
        proof {
            lemma_open_insert(self.open@, index, block);
        }
        self.open.insert(index, block);
        Ok(())
    }

    fn extend_text(&mut self, index: u32, text: String, reasoning: bool) -> (r: Result<
        (),
        StreamAssemblyError,
    >)
        ensures
            push_event(
                old(self)@,
                if reasoning {
                    StreamEventView::ReasoningDelta { index, text: text@ }
                } else {
                    StreamEventView::TextDelta { index, text: text@ }
                },
                |t: Seq<char>| json_reading(t),
            ) == (Pushed { state: final(self)@, fault: fault_view(r) }),
    {
        broadcast use vstd::std_specs::btree::group_btree_axioms;

        let ghost before = self.open@;
        let (block, fits) = match self.open.remove(&index) {
            None => {
                assert(self.open@ =~= before);
                return Err(StreamAssemblyError::MissingOpenBlock(index));
            },
            Some(OpenBlock::Text(buffer)) => {
                let mut buffer = buffer;
                if !reasoning {
                    buffer.append(text.as_str());
                }
                (OpenBlock::Text(buffer), !reasoning)
            },
            Some(OpenBlock::Reasoning(buffer)) => {
                let mut buffer = buffer;
                if reasoning {
                    buffer.append(text.as_str());
                }
                (OpenBlock::Reasoning(buffer), reasoning)
            },
            Some(other) => (other, false),
        };
        proof {
            lemma_open_insert(before, index, block);
            if !fits {
                assert(before.insert(index, block) =~= before);
                assert(before.remove(index).insert(index, block) =~= before);
            }
        }
        self.open.insert(index, block);
        if fits {
            Ok(())
        } else {
            Err(StreamAssemblyError::DeltaKindMismatch(index))
        }
    }

    fn extend_tool_call(
        &mut self,
        index: u32,
        call_id: ToolCallId,
        name: Option<String>,
        arguments_delta: String,
    ) -> (r: Result<(), StreamAssemblyError>)
        ensures
            push_tool_delta(old(self)@, index, call_id@, opt_text(name), arguments_delta@) == (
            Pushed { state: final(self)@, fault: fault_view(r) }),
    {
        broadcast use vstd::std_specs::btree::group_btree_axioms;

        let ghost before = self.open@;
        let ghost view = before.map_values(|b: OpenBlock| b@);
        let (known_id, known_name, arguments) = match self.open.remove(&index) {
            None => {
                assert(self.open@ =~= before);
                return Err(StreamAssemblyError::MissingOpenBlock(index));
            },
            Some(OpenBlock::ToolCall { call_id, name, arguments }) => (call_id, name, arguments),
            Some(other) => {
                proof {
                    assert(before.remove(index).insert(index, other) =~= before);
                }
                self.open.insert(index, other);
                return Err(StreamAssemblyError::DeltaKindMismatch(index));
            },
        };
        let mut fault: Option<StreamAssemblyError> = None;
        let mut arguments = arguments;
        let call_id = match known_id {
            Some(existing) => {
                if !existing.same(&call_id) {
                    fault = Some(
                        StreamAssemblyError::ToolCallIdChanged {
                            index,
                            expected: existing.clone(),
                            actual: call_id,
                        },
                    );
                }
                existing
            },
            None => call_id,
        };
        let name = if fault.is_some() {
            known_name
        } else {
            match (known_name, name) {
                (Some(existing), Some(new)) => {
                    if existing != new {
                        fault = Some(
                            StreamAssemblyError::ToolCallNameChanged {
                                index,
                                expected: existing.clone(),
                                actual: new,
                            },
                        );
                    }
                    Some(existing)
                },
                (Some(existing), None) => Some(existing),
                (None, new) => new,
            }
        };
        if fault.is_none() {
            arguments.append(arguments_delta.as_str());
        }
        let block = OpenBlock::ToolCall { call_id: Some(call_id), name, arguments };
        proof {
            lemma_open_insert(before, index, block);
            if fault matches Some(StreamAssemblyError::ToolCallIdChanged { .. }) {
                assert(view.insert(index, block@) =~= view);
            }
        }
        self.open.insert(index, block);
        match fault {
            Some(error) => Err(error),
            None => Ok(()),
        }
    }

    fn end_block(
        &mut self,
        index: u32,
        block: ContentBlock,
        reading: Result<JsonRoot, String>,
    ) -> (r: Result<(), StreamAssemblyError>)
        ensures
            push_block_end(old(self)@, index, block@, |t: Seq<char>| reading_view(reading)) == (
            Pushed { state: final(self)@, fault: fault_view(r) }),
    {
        broadcast use vstd::std_specs::btree::group_btree_axioms;

        let ghost before = self.open@;
        let open = match self.open.remove(&index) {
            Some(open) => open,
            None => {
                assert(self.open@ =~= before);
                return Err(StreamAssemblyError::MissingOpenBlock(index));
            },
        };
        proof {
            lemma_open_insert(before, index, open);
        }
        match finalize_open_block(index, open, reading) {
            Err(error) => Err(error),
            Ok(expected) => {
                if !expected.same(&block) {
                    return Err(StreamAssemblyError::BlockEndMismatch(index));
                }
                let ghost completed = self.completed@;
                proof {
                    assert(completed.insert(index, block).map_values(|b: ContentBlock| b@)
                        =~= completed.map_values(|b: ContentBlock| b@).insert(index, block@));
                }
                self.completed.insert(index, block);
                Ok(())
            },
        }
    }

    /// What the stream amounts to, now that it has ended.
    pub fn finish(self) -> (r: Result<LlmStreamOutcome, StreamAssemblyError>)
        requires
            is_sound(self@),
        ensures
            is_outcome(self@, r),
    {
        broadcast use vstd::std_specs::btree::group_btree_axioms;

        let ghost view = self@;
        let finish = match self.finish {
            Some(finish) => finish,
            None => {
                return Err(StreamAssemblyError::MissingFinish);
            },
        };
        match finish.reason {
            FinishReason::Completed | FinishReason::MaxTokens => {
                let mut content: Vec<ContentBlock> = Vec::new();
                let ghost mut entries: Seq<(&u32, &ContentBlock)> = Seq::empty();
                for entry in iter: self.completed.iter()
                    invariant
                        content@.len() == iter.index(),
                        entries == iter.seq().take(iter.index() as int),
                        increasing_seq(iter.seq().map_values(|kv: (&u32, &ContentBlock)| *kv.0)),
                        iter.seq() == spec_btree_map_iter(&self.completed).remaining(),
                        forall|i: int|
                            0 <= i < content@.len() ==> (#[trigger] content@[i])@
                                == iter.seq()[i].1@,
                {
                    proof {
                        entries = entries.push(entry);
                        assert(iter.seq().take(iter.index() + 1) =~= entries);
                    }
                    content.push(entry.1.clone());
                }
                proof {
                    let keys = entries.map_values(|kv: (&u32, &ContentBlock)| *kv.0);
                    let all = spec_btree_map_iter(&self.completed).remaining();
                    assert(entries =~= all);
                    lemma_increasing(keys);
                    assert forall|k: u32| view.completed.contains_key(k) implies keys.contains(
                        k,
                    ) by {
                        assert(self.completed@.contains_key(k));
                        assert(all.contains((&k, &self.completed@[k])));
                        let i = choose|i: int|
                            0 <= i < all.len() && all[i] == (&k, &self.completed@[k]);
                        assert(keys[i] == k);
                    }
                    assert forall|i: int| 0 <= i < keys.len() implies view.completed.contains_key(
                        #[trigger] keys[i],
                    ) && content_view(content@)[i] == view.completed[keys[i]] by {
                        assert(self.completed@.contains_key(*all[i].0));
                    }
                    assert(is_index_order(keys, content_view(content@), view.completed));
                }
                Ok(
                    LlmStreamOutcome::Assistant {
                        content,
                        usage: self.usage,
                        finish_reason: finish.reason,
                    },
                )
            },
            FinishReason::Error | FinishReason::Cancelled => match finish.failure {
                Some(failure) => Ok(
                    LlmStreamOutcome::Failure { failure, finish_reason: finish.reason },
                ),
                None => Err(StreamAssemblyError::MissingFinish),
            },
        }
    }
}

/// Reading a text as JSON.
pub open spec fn reading_of_text() -> spec_fn(Seq<char>) -> Result<JsonRootView, Seq<char>> {
    |t: Seq<char>| json_reading(t)
}

/// What a row of events leads to, as long as none breaks a rule.
pub open spec fn run(v: AssemblyView, items: Seq<(int, StreamEventView)>) -> Option<AssemblyView>
    decreases items.len(),
{
    if items.len() == 0 {
        Some(v)
    } else {
        match run(v, items.drop_last()) {
            None => None,
            Some(w) => {
                let p = pushed(w, items.last().0, items.last().1, reading_of_text());
                if p.fault is None {
                    Some(p.state)
                } else {
                    None
                }
            },
        }
    }
}

/// A stream is accepted only if it numbers its events one, two, three and so on.
pub proof fn law_stream_is_contiguous(items: Seq<(int, StreamEventView)>)
    requires
        run(empty_assembly(), items) is Some,
    ensures
        forall|i: int| 0 <= i < items.len() ==> (#[trigger] items[i]).0 == i + 1,
        run(empty_assembly(), items)->0.last_seq == (if items.len() == 0 {
            None::<int>
        } else {
            Some(items.len() as int)
        }),
    decreases items.len(),
{
    if items.len() > 0 {
        law_stream_is_contiguous(items.drop_last());
        let w = run(empty_assembly(), items.drop_last())->0;
        assert(pushed(w, items.last().0, items.last().1, reading_of_text()).fault is None);
        assert forall|i: int| 0 <= i < items.len() implies (#[trigger] items[i]).0 == i + 1 by {
            if i < items.len() - 1 {
                assert(items[i] == items.drop_last()[i]);
            }
        }
    }
}

/// After the finish event every further event is refused and changes nothing.
pub proof fn law_nothing_after_finish(v: AssemblyView, seq: int, event: StreamEventView)
    requires
        v.finish is Some,
    ensures
        pushed(v, seq, event, reading_of_text()) == refused(v, AssemblyErrorView::EventAfterFinish),
{
}

/// A finish event is accepted only when no block is open, and then it is the one
/// finish of the stream.
pub proof fn law_finish_closes_the_stream(v: AssemblyView, seq: int, finish: FinishView)
    requires
        pushed(v, seq, StreamEventView::Finish(finish), reading_of_text()).fault is None,
    ensures
        v.finish is None,
        v.open.dom().len() == 0,
        finish_is_valid(finish),
        pushed(v, seq, StreamEventView::Finish(finish), reading_of_text()).state.finish == Some(
            finish,
        ),
{
}

/// A block that has ended is never opened again and never changes.
pub proof fn law_ended_blocks_stay(v: AssemblyView, seq: int, event: StreamEventView, index: u32)
    requires
        v.completed.contains_key(index),
        !v.open.contains_key(index),
    ensures
        ({
            let w = pushed(v, seq, event, reading_of_text()).state;
            w.completed.contains_key(index) && w.completed[index] == v.completed[index]
                && !w.open.contains_key(index)
        }),
{
}

/// The pieces of a text in a row.
pub open spec fn joined(pieces: Seq<Seq<char>>) -> Seq<char>
    decreases pieces.len(),
{
    if pieces.len() == 0 {
        Seq::empty()
    } else {
        joined(pieces.drop_last()) + pieces.last()
    }
}

/// A row of text pieces for one block, numbered from `first` on.
pub open spec fn text_deltas(index: u32, first: int, pieces: Seq<Seq<char>>) -> Seq<
    (int, StreamEventView),
> {
    Seq::new(
        pieces.len(),
        |i: int| (first + i, StreamEventView::TextDelta { index, text: pieces[i] }),
    )
}

/// An open text block holds what its pieces add up to, so it can only end with
/// exactly that text.
pub proof fn law_text_is_the_sum_of_its_pieces(
    v: AssemblyView,
    index: u32,
    first: int,
    pieces: Seq<Seq<char>>,
    block: ContentBlockView,
)
    requires
        v.open.contains_key(index),
        v.open[index] == OpenView::Text(Seq::empty()),
        run(v, text_deltas(index, first, pieces)) is Some,
    ensures
        ({
            let w = run(v, text_deltas(index, first, pieces))->0;
            &&& w.open.contains_key(index)
            &&& w.open[index] == OpenView::Text(joined(pieces))
            &&& push_block_end(w, index, block, reading_of_text()).fault is None <==> block == (
            ContentBlockView::Text { text: joined(pieces) })
        }),
    decreases pieces.len(),
{
    let items = text_deltas(index, first, pieces);
    if pieces.len() > 0 {
        assert(items.drop_last() =~= text_deltas(index, first, pieces.drop_last()));
        law_text_is_the_sum_of_its_pieces(v, index, first, pieces.drop_last(), block);
    }
}

/// A row of reasoning pieces for one block, numbered from `first` on.
pub open spec fn reasoning_deltas(index: u32, first: int, pieces: Seq<Seq<char>>) -> Seq<
    (int, StreamEventView),
> {
    Seq::new(
        pieces.len(),
        |i: int| (first + i, StreamEventView::ReasoningDelta { index, text: pieces[i] }),
    )
}

/// A row of argument pieces of one call, numbered from `first` on.
pub open spec fn argument_deltas(
    index: u32,
    first: int,
    call_id: Seq<char>,
    name: Option<Seq<char>>,
    pieces: Seq<Seq<char>>,
) -> Seq<(int, StreamEventView)> {
    Seq::new(
        pieces.len(),
        |i: int|
            (
                first + i,
                StreamEventView::ToolCallDelta { index, call_id, name, arguments_delta: pieces[i] },
            ),
    )
}

/// Whether `pieces.len()` events, numbered from `first` on, are the next of the stream.
pub open spec fn come_next(v: AssemblyView, first: int, pieces: Seq<Seq<char>>) -> bool {
    &&& v.finish is None
    &&& match v.last_seq {
        Some(last) => first == last + 1,
        None => first == 1,
    }
    &&& first + pieces.len() <= MAX_JSON_SAFE_INTEGER
}

/// The pieces of an open text block are all accepted, the block holds all of them in a
/// row, and its end is accepted if and only if it is a text block with exactly that text.
pub proof fn law_text_pieces_are_kept(
    v: AssemblyView,
    index: u32,
    first: int,
    before: Seq<char>,
    pieces: Seq<Seq<char>>,
    block: ContentBlockView,
)
    requires
        v.open.contains_key(index),
        v.open[index] == OpenView::Text(before),
        come_next(v, first, pieces),
    ensures
        run(v, text_deltas(index, first, pieces)) matches Some(w) && {
            let end = pushed(
                w,
                first + pieces.len(),
                StreamEventView::BlockEnd { index, block },
                reading_of_text(),
            );
            &&& w.open == v.open.insert(index, OpenView::Text(before + joined(pieces)))
            &&& w.completed == v.completed && w.usage == v.usage && w.finish == v.finish
            &&& pieces.len() > 0 ==> w.last_seq == Some(first + pieces.len() - 1)
            &&& pieces.len() == 0 ==> w.last_seq == v.last_seq
            &&& end.fault is None <==> block == (ContentBlockView::Text {
                text: before + joined(pieces),
            })
            &&& end.fault is None ==> end.state.completed == v.completed.insert(index, block)
                && end.state.open == v.open.remove(index)
        },
    decreases pieces.len(),
{
    let items = text_deltas(index, first, pieces);
    if pieces.len() > 0 {
        assert(items.drop_last() =~= text_deltas(index, first, pieces.drop_last()));
        law_text_pieces_are_kept(v, index, first, before, pieces.drop_last(), block);
        let w = run(v, items.drop_last())->0;
        let held = before + joined(pieces.drop_last());
        assert(held + pieces.last() =~= before + joined(pieces));
        assert(w.open[index] == OpenView::Text(held));
        assert(v.open.insert(index, OpenView::Text(held)).insert(
            index,
            OpenView::Text(held + pieces.last()),
        ) =~= v.open.insert(index, OpenView::Text(before + joined(pieces))));
    } else {
        assert(before + joined(pieces) =~= before);
        assert(v.open.insert(index, OpenView::Text(before)) =~= v.open);
    }
    let w = run(v, items)->0;
    assert(w.open.remove(index) =~= v.open.remove(index));
}

/// The pieces of an open reasoning block are all accepted, the block holds all of them in
/// a row, and its end is accepted if and only if it is a reasoning block with exactly that
/// text.
pub proof fn law_reasoning_pieces_are_kept(
    v: AssemblyView,
    index: u32,
    first: int,
    before: Seq<char>,
    pieces: Seq<Seq<char>>,
    block: ContentBlockView,
)
    requires
        v.open.contains_key(index),
        v.open[index] == OpenView::Reasoning(before),
        come_next(v, first, pieces),
    ensures
        run(v, reasoning_deltas(index, first, pieces)) matches Some(w) && {
            let end = pushed(
                w,
                first + pieces.len(),
                StreamEventView::BlockEnd { index, block },
                reading_of_text(),
            );
            &&& w.open == v.open.insert(index, OpenView::Reasoning(before + joined(pieces)))
            &&& w.completed == v.completed && w.usage == v.usage && w.finish == v.finish
            &&& pieces.len() > 0 ==> w.last_seq == Some(first + pieces.len() - 1)
            &&& pieces.len() == 0 ==> w.last_seq == v.last_seq
            &&& end.fault is None <==> block == (ContentBlockView::Reasoning {
                text: before + joined(pieces),
            })
            &&& end.fault is None ==> end.state.completed == v.completed.insert(index, block)
                && end.state.open == v.open.remove(index)
        },
    decreases pieces.len(),
{
    let items = reasoning_deltas(index, first, pieces);
    if pieces.len() > 0 {
        assert(items.drop_last() =~= reasoning_deltas(index, first, pieces.drop_last()));
        law_reasoning_pieces_are_kept(v, index, first, before, pieces.drop_last(), block);
        let w = run(v, items.drop_last())->0;
        let held = before + joined(pieces.drop_last());
        assert(held + pieces.last() =~= before + joined(pieces));
        assert(w.open[index] == OpenView::Reasoning(held));
        assert(v.open.insert(index, OpenView::Reasoning(held)).insert(
            index,
            OpenView::Reasoning(held + pieces.last()),
        ) =~= v.open.insert(index, OpenView::Reasoning(before + joined(pieces))));
    } else {
        assert(before + joined(pieces) =~= before);
        assert(v.open.insert(index, OpenView::Reasoning(before)) =~= v.open);
    }
    let w = run(v, items)->0;
    assert(w.open.remove(index) =~= v.open.remove(index));
}

/// The argument pieces of an open call are all accepted under its identifier and name,
/// and the call holds all of them in a row. Its end is accepted if and only if they read
/// as JSON and the block is the call with exactly these arguments.
pub proof fn law_argument_pieces_are_kept(
    v: AssemblyView,
    index: u32,
    first: int,
    call_id: Seq<char>,
    name: Seq<char>,
    before: Seq<char>,
    pieces: Seq<Seq<char>>,
    block: ContentBlockView,
)
    requires
        v.open.contains_key(index),
        v.open[index] == (OpenView::ToolCall {
            call_id: Some(call_id),
            name: Some(name),
            arguments: before,
        }),
        come_next(v, first, pieces),
    ensures
        run(v, argument_deltas(index, first, call_id, Some(name), pieces)) matches Some(w) && {
            let arguments = before + joined(pieces);
            let end = pushed(
                w,
                first + pieces.len(),
                StreamEventView::BlockEnd { index, block },
                reading_of_text(),
            );
            &&& w.open == v.open.insert(
                index,
                OpenView::ToolCall { call_id: Some(call_id), name: Some(name), arguments },
            )
            &&& w.completed == v.completed && w.usage == v.usage && w.finish == v.finish
            &&& pieces.len() > 0 ==> w.last_seq == Some(first + pieces.len() - 1)
            &&& pieces.len() == 0 ==> w.last_seq == v.last_seq
            &&& end.fault is None <==> json_reading(arguments) is Ok && block == (
            ContentBlockView::ToolCall { id: call_id, name, arguments_json: arguments })
            &&& end.fault is None ==> end.state.completed == v.completed.insert(index, block)
                && end.state.open == v.open.remove(index)
        },
    decreases pieces.len(),
{
    let items = argument_deltas(index, first, call_id, Some(name), pieces);
    let open = |arguments: Seq<char>|
        OpenView::ToolCall { call_id: Some(call_id), name: Some(name), arguments };
    if pieces.len() > 0 {
        assert(items.drop_last() =~= argument_deltas(
            index,
            first,
            call_id,
            Some(name),
            pieces.drop_last(),
        ));
        law_argument_pieces_are_kept(
            v,
            index,
            first,
            call_id,
            name,
            before,
            pieces.drop_last(),
            block,
        );
        let w = run(v, items.drop_last())->0;
        let held = before + joined(pieces.drop_last());
        assert(held + pieces.last() =~= before + joined(pieces));
        assert(w.open[index] == open(held));
        assert(v.open.insert(index, open(held)).insert(index, open(held + pieces.last()))
            =~= v.open.insert(index, open(before + joined(pieces))));
    } else {
        assert(before + joined(pieces) =~= before);
        assert(v.open.insert(index, open(before)) =~= v.open);
    }
    let w = run(v, items)->0;
    assert(w.open.remove(index) =~= v.open.remove(index));
}

/// The first piece of a call fixes its identifier, and the first name that comes fixes
/// its name. A piece with another identifier or another name is refused.
pub proof fn law_calls_keep_their_identity(
    v: AssemblyView,
    index: u32,
    call_id: Seq<char>,
    name: Option<Seq<char>>,
    delta: Seq<char>,
    seq: int,
)
    requires
        v.open.contains_key(index),
        v.open[index] is ToolCall,
        come_next(v, seq, Seq::empty()),
    ensures
        ({
            let known = v.open[index];
            let p = pushed(
                v,
                seq,
                StreamEventView::ToolCallDelta { index, call_id, name, arguments_delta: delta },
                reading_of_text(),
            );
            let other_id = known->call_id matches Some(id) && id != call_id;
            let other_name = known->name matches Some(n) && name matches Some(m) && m != n;
            &&& other_id ==> p.fault is Some && p.state.open == v.open
            &&& !other_id && other_name ==> p.fault is Some
            &&& !other_id && !other_name ==> {
                &&& p.fault is None
                &&& p.state.open[index] matches OpenView::ToolCall {
                    call_id: c,
                    name: n,
                    arguments,
                }
                &&& c == Some(call_id)
                &&& known->name is Some ==> n == known->name
                &&& known->name is None ==> n == name
                &&& arguments == known->arguments + delta
            }
        }),
{
}

/// A block starts empty, and no index is used for two blocks.
pub proof fn law_blocks_start_empty(v: AssemblyView, seq: int, index: u32, block_type: BlockType)
    requires
        come_next(v, seq, Seq::empty()),
    ensures
        ({
            let p = pushed(
                v,
                seq,
                StreamEventView::BlockStart { index, block_type },
                reading_of_text(),
            );
            if v.open.contains_key(index) || v.completed.contains_key(index) {
                p.fault == Some(AssemblyErrorView::DuplicateBlock(index)) && p.state.open == v.open
                    && p.state.completed == v.completed
            } else {
                &&& p.fault is None
                &&& p.state.open.contains_key(index)
                &&& match block_type {
                    BlockType::Text => p.state.open[index] matches OpenView::Text(t) && t.len()
                        == 0,
                    BlockType::Reasoning => p.state.open[index] matches OpenView::Reasoning(t)
                        && t.len() == 0,
                    BlockType::ToolCall => p.state.open[index] matches OpenView::ToolCall {
                        call_id: None,
                        name: None,
                        arguments,
                    } && arguments.len() == 0,
                }
            }
        }),
{
}

/// The block that an event is about, if any.
pub open spec fn block_of(event: StreamEventView) -> Option<u32> {
    match event {
        StreamEventView::BlockStart { index, .. } => Some(index),
        StreamEventView::TextDelta { index, .. } => Some(index),
        StreamEventView::ReasoningDelta { index, .. } => Some(index),
        StreamEventView::ToolCallDelta { index, .. } => Some(index),
        StreamEventView::BlockEnd { index, .. } => Some(index),
        StreamEventView::Usage(_) | StreamEventView::Finish(_) => None,
    }
}

/// An event touches only the block that it is about: every other block stays as it is,
/// and only usage and finish events touch usage and finish.
pub proof fn law_other_blocks_are_not_touched(
    v: AssemblyView,
    seq: int,
    event: StreamEventView,
    other: u32,
)
    requires
        block_of(event) != Some(other),
    ensures
        ({
            let w = pushed(v, seq, event, reading_of_text()).state;
            &&& w.open.contains_key(other) == v.open.contains_key(other)
            &&& v.open.contains_key(other) ==> w.open[other] == v.open[other]
            &&& w.completed.contains_key(other) == v.completed.contains_key(other)
            &&& v.completed.contains_key(other) ==> w.completed[other] == v.completed[other]
            &&& !(event is Usage) ==> w.usage == v.usage
            &&& !(event is Finish) ==> w.finish == v.finish
        }),
{
}

/// Pieces and ends for a block that is not open are refused, and so are pieces of
/// another kind than their block; both leave all blocks as they are.
pub proof fn law_pieces_fit_their_block(v: AssemblyView, seq: int, event: StreamEventView, index: u32)
    requires
        come_next(v, seq, Seq::empty()),
        block_of(event) == Some(index),
        !(event is BlockStart),
    ensures
        ({
            let p = pushed(v, seq, event, reading_of_text());
            let open = v.open.contains_key(index);
            let fits = match event {
                StreamEventView::TextDelta { .. } => v.open[index] is Text,
                StreamEventView::ReasoningDelta { .. } => v.open[index] is Reasoning,
                StreamEventView::ToolCallDelta { .. } => v.open[index] is ToolCall,
                _ => true,
            };
            &&& !open ==> p.fault == Some(AssemblyErrorView::MissingOpenBlock(index))
            &&& open && !fits ==> p.fault == Some(AssemblyErrorView::DeltaKindMismatch(index))
            &&& !open || !fits ==> p.state.open == v.open && p.state.completed == v.completed
        }),
{
}

/// A block that ends is no longer open, whether its end is accepted or not. A call can
/// end only with an identifier and a name.
pub proof fn law_block_end_closes(v: AssemblyView, seq: int, index: u32, block: ContentBlockView)
    requires
        come_next(v, seq, Seq::empty()),
        v.open.contains_key(index),
    ensures
        ({
            let p = pushed(
                v,
                seq,
                StreamEventView::BlockEnd { index, block },
                reading_of_text(),
            );
            &&& !p.state.open.contains_key(index)
            &&& p.fault is None ==> p.state.completed == v.completed.insert(index, block)
            &&& p.fault is Some ==> p.state.completed == v.completed
            &&& v.open[index] matches OpenView::ToolCall { call_id: None, .. } ==> p.fault == Some(
                AssemblyErrorView::MissingToolCallId(index),
            )
            &&& v.open[index] matches OpenView::ToolCall { call_id: Some(_), name: None, .. }
                ==> p.fault == Some(AssemblyErrorView::MissingToolCallName(index))
        }),
{
}

/// An event with another number than the next is refused and changes nothing. The first
/// number is one.
pub proof fn law_numbers_follow(v: AssemblyView, seq: int, event: StreamEventView)
    requires
        v.finish is None,
    ensures
        ({
            let p = pushed(v, seq, event, reading_of_text());
            &&& v.last_seq is None && seq != 1 ==> p.state == v && p.fault == Some(
                AssemblyErrorView::InvalidSequence { expected: 1, actual: seq },
            )
            &&& v.last_seq matches Some(last) ==> {
                &&& last < MAX_JSON_SAFE_INTEGER && seq != last + 1 ==> p.state == v && p.fault
                    == Some(
                    AssemblyErrorView::InvalidSequence { expected: last + 1, actual: seq },
                )
                &&& last == MAX_JSON_SAFE_INTEGER ==> p.state == v && p.fault == Some(
                    AssemblyErrorView::SequenceOverflow,
                )
            }
            &&& come_next(v, seq, Seq::empty()) ==> p.state.last_seq == Some(seq)
        }),
{
}

/// Usage is taken once, and only while no block is open.
pub proof fn law_usage_is_taken_once(v: AssemblyView, seq: int, usage: TokenUsageView)
    requires
        come_next(v, seq, Seq::empty()),
        v.open.dom().finite(),
    ensures
        ({
            let p = pushed(v, seq, StreamEventView::Usage(usage), reading_of_text());
            &&& p.fault is None <==> v.usage is None && forall|i: u32| !v.open.contains_key(i)
            &&& p.fault is None ==> p.state.usage == Some(usage)
            &&& p.state.open == v.open && p.state.completed == v.completed
        }),
{
    lemma_no_open_block(v);
}

/// A finish is accepted while no block is open, with a failure for an error or a
/// cancellation and without one otherwise. The code of a failure says that the work was
/// cancelled if and only if the reason says so.
pub proof fn law_finish_matches_its_reason(v: AssemblyView, seq: int, finish: FinishView)
    requires
        come_next(v, seq, Seq::empty()),
        v.open.dom().finite(),
    ensures
        ({
            let p = pushed(v, seq, StreamEventView::Finish(finish), reading_of_text());
            let fails = finish.reason == FinishReason::Error || finish.reason
                == FinishReason::Cancelled;
            &&& p.fault is None <==> {
                &&& forall|i: u32| !v.open.contains_key(i)
                &&& finish.failure is Some <==> fails
                &&& finish.failure matches Some(e) ==> (e.code == ErrorCode::Cancelled <==> (
                finish.reason == FinishReason::Cancelled))
            }
            &&& p.fault is None ==> p.state.finish == Some(finish)
            &&& p.fault is Some ==> p.state.finish is None
            &&& p.state.open == v.open && p.state.completed == v.completed && p.state.usage
                == v.usage
        }),
{
    lemma_no_open_block(v);
}

proof fn lemma_no_open_block(v: AssemblyView)
    requires
        v.open.dom().finite(),
    ensures
        v.open.dom().len() == 0 <==> forall|i: u32| !v.open.contains_key(i),
{
    if v.open.dom().len() == 0 {
        assert forall|i: u32| !v.open.contains_key(i) by {
            assert(!v.open.dom().contains(i));
        }
    } else if forall|i: u32| !v.open.contains_key(i) {
        assert(v.open.dom() =~= Set::empty());
    }
}

/// An answer that was completed, or cut short by a limit, holds every ended block, once
/// and in the order of the indexes, with the usage and the reason that were received.
pub proof fn law_answer_holds_every_block(
    v: AssemblyView,
    r: Result<LlmStreamOutcome, StreamAssemblyError>,
    finish: FinishView,
    j: u32,
    k: u32,
) -> (at: (int, int))
    requires
        is_outcome(v, r),
        v.finish == Some(finish),
        finish.reason == FinishReason::Completed || finish.reason == FinishReason::MaxTokens,
        v.completed.contains_key(j),
        v.completed.contains_key(k),
        j <= k,
    ensures
        r matches Ok(LlmStreamOutcome::Assistant { content, usage, finish_reason }) && {
            &&& 0 <= at.0 <= at.1 < content@.len()
            &&& j < k ==> at.0 < at.1
            &&& content@.len() == v.completed.dom().len()
            &&& content@[at.0]@ == v.completed[j]
            &&& content@[at.1]@ == v.completed[k]
            &&& forall|i: int|
                0 <= i < content@.len() ==> exists|key: u32|
                    v.completed.contains_key(key) && (#[trigger] content@[i])@ == #[trigger] v.completed[key]
            &&& opt_usage(usage) == v.usage
            &&& finish_reason == finish.reason
        },
{
    let content = r->Ok_0->content@;
    let keys = choose|keys: Seq<u32>|
        is_index_order(keys, content_view(content), v.completed);
    assert(keys.contains(j) && keys.contains(k));
    let a = choose|i: int| 0 <= i < keys.len() && keys[i] == j;
    let b = choose|i: int| 0 <= i < keys.len() && keys[i] == k;
    assert(a <= b) by {
        if b < a {
            assert(keys[b] < keys[a]);
        }
    }
    assert(keys.no_duplicates());
    keys.unique_seq_to_set();
    assert(keys.to_set() =~= v.completed.dom());
    assert(content_view(content)[a] == content[a]@);
    assert(content_view(content)[b] == content[b]@);
    assert forall|i: int| 0 <= i < content.len() implies exists|key: u32|
        v.completed.contains_key(key) && (#[trigger] content[i])@ == #[trigger] v.completed[key] by {
        assert(content_view(content)[i] == content[i]@);
        assert(keys.contains(keys[i]));
        assert(v.completed.contains_key(keys[i]));
        assert(content[i]@ == v.completed[keys[i]]);
    }
    (a, b)
}

/// A stream that failed or was cancelled amounts to its failure, and one that never
/// finished amounts to nothing.
pub proof fn law_failure_is_handed_on(
    v: AssemblyView,
    r: Result<LlmStreamOutcome, StreamAssemblyError>,
)
    requires
        is_outcome(v, r),
    ensures
        v.finish is None ==> r matches Err(StreamAssemblyError::MissingFinish),
        v.finish matches Some(f) ==> (f.reason == FinishReason::Error || f.reason
            == FinishReason::Cancelled) ==> (r matches Ok(
            LlmStreamOutcome::Failure { failure, finish_reason },
        ) && f.failure == Some(failure@) && finish_reason == f.reason),
{
}

} // verus!
