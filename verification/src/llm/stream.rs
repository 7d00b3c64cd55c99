//! Events of a streamed model answer.

use vstd::prelude::*;

use crate::message::{
    ContentBlock, ContentBlockView, PortableError, PortableErrorView, TokenUsage, TokenUsageView,
};
use crate::text::opt_text;
use crate::types::{StreamSeq, ToolCallId};

verus! {

#[derive(Clone, Copy, Debug, PartialEq, Eq, Structural)]
pub enum BlockType {
    Text,
    Reasoning,
    ToolCall,
}

#[derive(Clone, Copy, Debug, PartialEq, Eq, Structural)]
pub enum FinishReason {
    Completed,
    MaxTokens,
    Error,
    Cancelled,
}

#[derive(Debug, PartialEq)]
pub struct FinishEvent {
    pub reason: FinishReason,
    pub failure: Option<PortableError>,
}

#[verifier::ext_equal]
pub struct FinishView {
    pub reason: FinishReason,
    pub failure: Option<PortableErrorView>,
}

/// The view of an optional failure.
pub open spec fn opt_failure(o: Option<PortableError>) -> Option<PortableErrorView> {
    match o {
        Some(e) => Some(e@),
        None => None,
    }
}

impl View for FinishEvent {
    type V = FinishView;

    open spec fn view(&self) -> FinishView {
        FinishView { reason: self.reason, failure: opt_failure(self.failure) }
    }
}

impl FinishEvent {
    pub fn completed() -> (r: FinishEvent)
        ensures
            r@ == (FinishView { reason: FinishReason::Completed, failure: None }),
    {
        FinishEvent { reason: FinishReason::Completed, failure: None }
    }

    pub fn max_tokens() -> (r: FinishEvent)
        ensures
            r@ == (FinishView { reason: FinishReason::MaxTokens, failure: None }),
    {
        FinishEvent { reason: FinishReason::MaxTokens, failure: None }
    }

    pub fn error(failure: PortableError) -> (r: FinishEvent)
        ensures
            r@ == (FinishView { reason: FinishReason::Error, failure: Some(failure@) }),
    {
        FinishEvent { reason: FinishReason::Error, failure: Some(failure) }
    }

    pub fn cancelled(failure: PortableError) -> (r: FinishEvent)
        ensures
            r@ == (FinishView { reason: FinishReason::Cancelled, failure: Some(failure@) }),
    {
        FinishEvent { reason: FinishReason::Cancelled, failure: Some(failure) }
    }
}

#[derive(Debug, PartialEq)]
pub enum StreamEvent {
    BlockStart { index: u32, block_type: BlockType },
    TextDelta { index: u32, text: String },
    ReasoningDelta { index: u32, text: String },
    ToolCallDelta {
        index: u32,
        call_id: ToolCallId,
        name: Option<String>,
        arguments_delta: String,
    },
    BlockEnd { index: u32, block: ContentBlock },
    Usage(TokenUsage),
    Finish(FinishEvent),
}

#[verifier::ext_equal]
pub enum StreamEventView {
    BlockStart { index: u32, block_type: BlockType },
    TextDelta { index: u32, text: Seq<char> },
    ReasoningDelta { index: u32, text: Seq<char> },
    ToolCallDelta {
        index: u32,
        call_id: Seq<char>,
        name: Option<Seq<char>>,
        arguments_delta: Seq<char>,
    },
    BlockEnd { index: u32, block: ContentBlockView },
    Usage(TokenUsageView),
    Finish(FinishView),
}

impl View for StreamEvent {
    type V = StreamEventView;

    open spec fn view(&self) -> StreamEventView {
        match self {
            StreamEvent::BlockStart { index, block_type } => StreamEventView::BlockStart {
                index: *index,
                block_type: *block_type,
            },
            StreamEvent::TextDelta { index, text } => StreamEventView::TextDelta {
                index: *index,
                text: text@,
            },
            StreamEvent::ReasoningDelta { index, text } => StreamEventView::ReasoningDelta {
                index: *index,
                text: text@,
            },
            StreamEvent::ToolCallDelta { index, call_id, name, arguments_delta } => {
                StreamEventView::ToolCallDelta {
                    index: *index,
                    call_id: call_id@,
                    name: opt_text(*name),
                    arguments_delta: arguments_delta@,
                }
            },
            StreamEvent::BlockEnd { index, block } => StreamEventView::BlockEnd {
                index: *index,
                block: block@,
            },
            StreamEvent::Usage(usage) => StreamEventView::Usage(usage@),
            StreamEvent::Finish(finish) => StreamEventView::Finish(finish@),
        }
    }
}

#[derive(Debug, PartialEq)]
pub struct SequencedStreamEvent {
    pub seq: StreamSeq,
    pub event: StreamEvent,
}

impl SequencedStreamEvent {
    pub fn new(seq: StreamSeq, event: StreamEvent) -> (r: SequencedStreamEvent)
        ensures
            r.seq == seq,
            r.event == event,
    {
        SequencedStreamEvent { seq, event }
    }
}

/// The model of an event says everything that the event says.
pub proof fn law_models_of_stream_events_are_whole(e: StreamEvent)
    ensures
        match e {
            StreamEvent::BlockStart { index, block_type } => e@ == (StreamEventView::BlockStart {
                index,
                block_type,
            }),
            StreamEvent::TextDelta { index, text } => e@ == (StreamEventView::TextDelta {
                index,
                text: text@,
            }),
            StreamEvent::ReasoningDelta { index, text } => e@ == (StreamEventView::ReasoningDelta {
                index,
                text: text@,
            }),
            StreamEvent::ToolCallDelta { index, call_id, name, arguments_delta } => e@ == (
            StreamEventView::ToolCallDelta {
                index,
                call_id: call_id@,
                name: match name {
                    Some(n) => Some(n@),
                    None => None,
                },
                arguments_delta: arguments_delta@,
            }),
            StreamEvent::BlockEnd { index, block } => e@ == (StreamEventView::BlockEnd {
                index,
                block: block@,
            }),
            StreamEvent::Usage(usage) => e@ == StreamEventView::Usage(usage@),
            StreamEvent::Finish(f) => {
                &&& e@ matches StreamEventView::Finish(v)
                &&& v.reason == f.reason
                &&& f.failure is Some <==> v.failure is Some
                &&& f.failure matches Some(failure) ==> v.failure == Some(failure@)
            },
        },
{
}

} // verus!
