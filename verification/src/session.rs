//! Session events and the projection of a session's history.
//!
//! A session is an append-only row of events. The projection is what the row
//! adds up to: which turn and step are open, what waits in the inbox, and which
//! model request, tool calls and approvals have no end yet.

use vstd::prelude::*;

use crate::json::JsonText;
use crate::message::{
    opt_usage, same_opt_usage, BlobRef, BlobRefView, Message, MessageView, PortableError,
    PortableErrorView, TokenUsage, TokenUsageView, ToolOutcome, ToolOutcomeView,
};
use crate::rows::{ascending, lemma_not_before_itself, text_before};
use crate::text::{opt_text, same_opt_text};
use crate::types::{
    ApprovalDecision, ApprovalId, EventId, EventSeq, IdempotencyKey, InboxTarget, InvocationId,
    MessageId, ProviderId, RequestId, SessionId, SideEffectClass, StepNo, ToolCallId, TurnNo,
};

verus! {

/// A point in time in RFC 3339 notation.
pub type Timestamp = String;

#[derive(Clone, Copy, Debug, PartialEq, Eq, Structural)]
pub struct StepPosition {
    pub turn: TurnNo,
    pub step: StepNo,
}

#[derive(Clone, Copy, Debug, PartialEq, Eq, Structural)]
pub enum StepEndReason {
    Completed,
    ToolContinuation,
    MaxTokens,
    ModelError,
    Cancelled,
    Blocked,
}

#[derive(Clone, Copy, Debug, PartialEq, Eq, Structural)]
pub enum TurnEndReason {
    Completed,
    MaxTokens,
    Error,
    Cancelled,
    Blocked,
}

#[derive(Clone, Copy, Debug, PartialEq, Eq, Structural)]
pub enum RecoveryBlockKind {
    UnknownToolOutcome,
}

#[derive(Debug, PartialEq)]
pub struct InboxEnqueued {
    pub message: Message,
    pub target: InboxTarget,
    pub wakeup: bool,
}

#[derive(Debug, PartialEq)]
pub struct ModelRequested {
    pub request_id: RequestId,
    pub provider: ProviderId,
    pub model: String,
    pub history_through_seq: EventSeq,
    pub request_snapshot: BlobRef,
    pub attempt: u32,
}

impl Clone for ModelRequested {
    fn clone(&self) -> (r: Self)
        ensures
            r == *self,
    {
        ModelRequested {
            request_id: self.request_id.clone(),
            provider: self.provider.clone(),
            model: self.model.clone(),
            history_through_seq: self.history_through_seq,
            request_snapshot: self.request_snapshot.clone(),
            attempt: self.attempt,
        }
    }
}

#[derive(Debug, PartialEq)]
pub struct AssistantMessage {
    pub request_id: RequestId,
    pub message: Message,
    pub usage: Option<TokenUsage>,
}

#[derive(Debug, PartialEq)]
pub struct ModelFailed {
    pub request_id: RequestId,
    pub failure: PortableError,
}

/// A tool call that the session has taken on.
#[derive(Debug, PartialEq)]
pub struct ToolCallRecorded {
    pub call_id: ToolCallId,
    pub tool: String,
    pub arguments_json: JsonText,
    pub side_effect: SideEffectClass,
}

impl Clone for ToolCallRecorded {
    fn clone(&self) -> (r: Self)
        ensures
            r == *self,
    {
        ToolCallRecorded {
            call_id: self.call_id.clone(),
            tool: self.tool.clone(),
            arguments_json: self.arguments_json.clone(),
            side_effect: self.side_effect,
        }
    }
}

/// A tool call that was handed to a provider.
#[derive(Debug, PartialEq)]
pub struct ToolDispatched {
    pub call_id: ToolCallId,
    pub invocation_id: InvocationId,
    pub provider_id: ProviderId,
    pub attempt: u32,
    pub idempotency_key: IdempotencyKey,
}

impl Clone for ToolDispatched {
    fn clone(&self) -> (r: Self)
        ensures
            r == *self,
    {
        ToolDispatched {
            call_id: self.call_id.clone(),
            invocation_id: self.invocation_id.clone(),
            provider_id: self.provider_id.clone(),
            attempt: self.attempt,
            idempotency_key: self.idempotency_key.clone(),
        }
    }
}

#[derive(Debug, PartialEq)]
pub struct ToolResultRecorded {
    pub call_id: ToolCallId,
    pub invocation_id: InvocationId,
    pub outcome: ToolOutcome,
}

#[derive(Debug, PartialEq)]
pub struct ApprovalRequested {
    pub approval_id: ApprovalId,
    pub call_id: ToolCallId,
    pub reason: String,
    pub risk: String,
}

impl Clone for ApprovalRequested {
    fn clone(&self) -> (r: Self)
        ensures
            r == *self,
    {
        ApprovalRequested {
            approval_id: self.approval_id.clone(),
            call_id: self.call_id.clone(),
            reason: self.reason.clone(),
            risk: self.risk.clone(),
        }
    }
}

#[derive(Debug, PartialEq)]
pub struct ApprovalResolved {
    pub approval_id: ApprovalId,
    pub call_id: ToolCallId,
    pub decision: ApprovalDecision,
    pub note: Option<String>,
}

impl Clone for ApprovalResolved {
    fn clone(&self) -> (r: Self)
        ensures
            r == *self,
    {
        ApprovalResolved {
            approval_id: self.approval_id.clone(),
            call_id: self.call_id.clone(),
            decision: self.decision,
            note: self.note.clone(),
        }
    }
}

#[derive(Debug, PartialEq)]
pub struct RecoveryBlocked {
    pub kind: RecoveryBlockKind,
    pub call_id: ToolCallId,
    pub invocation_id: InvocationId,
    pub reason: String,
}

impl Clone for RecoveryBlocked {
    fn clone(&self) -> (r: Self)
        ensures
            r == *self,
    {
        RecoveryBlocked {
            kind: self.kind,
            call_id: self.call_id.clone(),
            invocation_id: self.invocation_id.clone(),
            reason: self.reason.clone(),
        }
    }
}

/// What one session event says.
#[allow(inconsistent_fields)]
#[derive(Debug, PartialEq)]
pub enum SessionEventPayload {
    TurnStarted { turn: TurnNo },
    TurnEnded { reason: TurnEndReason },
    StepStarted { turn: TurnNo, step: StepNo },
    StepEnded { reason: StepEndReason },
    InboxEnqueued(InboxEnqueued),
    InboxClaimed { message_id: MessageId, target: InboxTarget },
    InboxDiscarded { message_id: MessageId, reason: String },
    UserMessage { message: Message },
    ModelRequested(ModelRequested),
    AssistantMessage(AssistantMessage),
    ModelFailed(ModelFailed),
    ToolCall(ToolCallRecorded),
    ToolDispatched(ToolDispatched),
    ToolResult(ToolResultRecorded),
    ApprovalRequested(ApprovalRequested),
    ApprovalResolved(ApprovalResolved),
    RecoveryBlocked(RecoveryBlocked),
}

/// The name under which events of a kind are stored.
pub open spec fn event_type_of(payload: SessionEventPayload) -> Seq<char> {
    match payload {
        SessionEventPayload::TurnStarted { .. } => "turn/started"@,
        SessionEventPayload::TurnEnded { .. } => "turn/ended"@,
        SessionEventPayload::StepStarted { .. } => "step/started"@,
        SessionEventPayload::StepEnded { .. } => "step/ended"@,
        SessionEventPayload::InboxEnqueued(_) => "inbox/enqueued"@,
        SessionEventPayload::InboxClaimed { .. } => "inbox/claimed"@,
        SessionEventPayload::InboxDiscarded { .. } => "inbox/discarded"@,
        SessionEventPayload::UserMessage { .. } => "user/message"@,
        SessionEventPayload::ModelRequested(_) => "model/requested"@,
        SessionEventPayload::AssistantMessage(_) => "assistant/message"@,
        SessionEventPayload::ModelFailed(_) => "model/failed"@,
        SessionEventPayload::ToolCall(_) => "tool/call"@,
        SessionEventPayload::ToolDispatched(_) => "tool/dispatched"@,
        SessionEventPayload::ToolResult(_) => "tool/result"@,
        SessionEventPayload::ApprovalRequested(_) => "approval/requested"@,
        SessionEventPayload::ApprovalResolved(_) => "approval/resolved"@,
        SessionEventPayload::RecoveryBlocked(_) => "recovery/blocked"@,
    }
}

impl SessionEventPayload {
    /// The name under which events of this kind are stored.
    pub fn event_type(&self) -> (r: &'static str)
        ensures
            r@ == event_type_of(*self),
    {
        match self {
            SessionEventPayload::TurnStarted { .. } => "turn/started",
            SessionEventPayload::TurnEnded { .. } => "turn/ended",
            SessionEventPayload::StepStarted { .. } => "step/started",
            SessionEventPayload::StepEnded { .. } => "step/ended",
            SessionEventPayload::InboxEnqueued(_) => "inbox/enqueued",
            SessionEventPayload::InboxClaimed { .. } => "inbox/claimed",
            SessionEventPayload::InboxDiscarded { .. } => "inbox/discarded",
            SessionEventPayload::UserMessage { .. } => "user/message",
            SessionEventPayload::ModelRequested(_) => "model/requested",
            SessionEventPayload::AssistantMessage(_) => "assistant/message",
            SessionEventPayload::ModelFailed(_) => "model/failed",
            SessionEventPayload::ToolCall(_) => "tool/call",
            SessionEventPayload::ToolDispatched(_) => "tool/dispatched",
            SessionEventPayload::ToolResult(_) => "tool/result",
            SessionEventPayload::ApprovalRequested(_) => "approval/requested",
            SessionEventPayload::ApprovalResolved(_) => "approval/resolved",
            SessionEventPayload::RecoveryBlocked(_) => "recovery/blocked",
        }
    }
}

#[allow(inconsistent_fields)]
#[verifier::ext_equal]
pub enum PayloadView {
    TurnStarted { turn: TurnNo },
    TurnEnded { reason: TurnEndReason },
    StepStarted { turn: TurnNo, step: StepNo },
    StepEnded { reason: StepEndReason },
    InboxEnqueued { message: MessageView, target: InboxTarget, wakeup: bool },
    InboxClaimed { message_id: Seq<char>, target: InboxTarget },
    InboxDiscarded { message_id: Seq<char>, reason: Seq<char> },
    UserMessage { message: MessageView },
    ModelRequested {
        request_id: Seq<char>,
        provider: Seq<char>,
        model: Seq<char>,
        history_through_seq: EventSeq,
        request_snapshot: BlobRefView,
        attempt: u32,
    },
    AssistantMessage {
        request_id: Seq<char>,
        message: MessageView,
        usage: Option<TokenUsageView>,
    },
    ModelFailed { request_id: Seq<char>, failure: PortableErrorView },
    ToolCall {
        call_id: Seq<char>,
        tool: Seq<char>,
        arguments_json: Seq<char>,
        side_effect: SideEffectClass,
    },
    ToolDispatched {
        call_id: Seq<char>,
        invocation_id: Seq<char>,
        provider_id: Seq<char>,
        attempt: u32,
        idempotency_key: Seq<char>,
    },
    ToolResult { call_id: Seq<char>, invocation_id: Seq<char>, outcome: ToolOutcomeView },
    ApprovalRequested {
        approval_id: Seq<char>,
        call_id: Seq<char>,
        reason: Seq<char>,
        risk: Seq<char>,
    },
    ApprovalResolved {
        approval_id: Seq<char>,
        call_id: Seq<char>,
        decision: ApprovalDecision,
        note: Option<Seq<char>>,
    },
    RecoveryBlocked {
        kind: RecoveryBlockKind,
        call_id: Seq<char>,
        invocation_id: Seq<char>,
        reason: Seq<char>,
    },
}

/// The payload that records a tool call.
pub open spec fn tool_call_view(c: ToolCallRecorded) -> PayloadView {
    PayloadView::ToolCall {
        call_id: c.call_id@,
        tool: c.tool@,
        arguments_json: c.arguments_json@,
        side_effect: c.side_effect,
    }
}

impl View for SessionEventPayload {
    type V = PayloadView;

    open spec fn view(&self) -> PayloadView {
        match self {
            SessionEventPayload::TurnStarted { turn } => PayloadView::TurnStarted { turn: *turn },
            SessionEventPayload::TurnEnded { reason } => PayloadView::TurnEnded { reason: *reason },
            SessionEventPayload::StepStarted { turn, step } => PayloadView::StepStarted {
                turn: *turn,
                step: *step,
            },
            SessionEventPayload::StepEnded { reason } => PayloadView::StepEnded { reason: *reason },
            SessionEventPayload::InboxEnqueued(d) => PayloadView::InboxEnqueued {
                message: d.message@,
                target: d.target,
                wakeup: d.wakeup,
            },
            SessionEventPayload::InboxClaimed { message_id, target } => PayloadView::InboxClaimed {
                message_id: message_id@,
                target: *target,
            },
            SessionEventPayload::InboxDiscarded { message_id, reason } => {
                PayloadView::InboxDiscarded { message_id: message_id@, reason: reason@ }
            },
            SessionEventPayload::UserMessage { message } => PayloadView::UserMessage {
                message: message@,
            },
            SessionEventPayload::ModelRequested(d) => PayloadView::ModelRequested {
                request_id: d.request_id@,
                provider: d.provider@,
                model: d.model@,
                history_through_seq: d.history_through_seq,
                request_snapshot: d.request_snapshot@,
                attempt: d.attempt,
            },
            SessionEventPayload::AssistantMessage(d) => PayloadView::AssistantMessage {
                request_id: d.request_id@,
                message: d.message@,
                usage: opt_usage(d.usage),
            },
            SessionEventPayload::ModelFailed(d) => PayloadView::ModelFailed {
                request_id: d.request_id@,
                failure: d.failure@,
            },
            SessionEventPayload::ToolCall(d) => tool_call_view(*d),
            SessionEventPayload::ToolDispatched(d) => PayloadView::ToolDispatched {
                call_id: d.call_id@,
                invocation_id: d.invocation_id@,
                provider_id: d.provider_id@,
                attempt: d.attempt,
                idempotency_key: d.idempotency_key@,
            },
            SessionEventPayload::ToolResult(d) => PayloadView::ToolResult {
                call_id: d.call_id@,
                invocation_id: d.invocation_id@,
                outcome: d.outcome@,
            },
            SessionEventPayload::ApprovalRequested(d) => PayloadView::ApprovalRequested {
                approval_id: d.approval_id@,
                call_id: d.call_id@,
                reason: d.reason@,
                risk: d.risk@,
            },
            SessionEventPayload::ApprovalResolved(d) => PayloadView::ApprovalResolved {
                approval_id: d.approval_id@,
                call_id: d.call_id@,
                decision: d.decision,
                note: opt_text(d.note),
            },
            SessionEventPayload::RecoveryBlocked(d) => PayloadView::RecoveryBlocked {
                kind: d.kind,
                call_id: d.call_id@,
                invocation_id: d.invocation_id@,
                reason: d.reason@,
            },
        }
    }
}

impl Clone for SessionEventPayload {
    fn clone(&self) -> (r: Self)
        ensures
            r@ == self@,
    {
        match self {
            SessionEventPayload::TurnStarted { turn } => SessionEventPayload::TurnStarted {
                turn: *turn,
            },
            SessionEventPayload::TurnEnded { reason } => SessionEventPayload::TurnEnded {
                reason: *reason,
            },
            SessionEventPayload::StepStarted { turn, step } => SessionEventPayload::StepStarted {
                turn: *turn,
                step: *step,
            },
            SessionEventPayload::StepEnded { reason } => SessionEventPayload::StepEnded {
                reason: *reason,
            },
            SessionEventPayload::InboxEnqueued(d) => SessionEventPayload::InboxEnqueued(
                InboxEnqueued {
                    message: d.message.clone(),
                    target: d.target,
                    wakeup: d.wakeup,
                },
            ),
            SessionEventPayload::InboxClaimed { message_id, target } => {
                SessionEventPayload::InboxClaimed {
                    message_id: message_id.clone(),
                    target: *target,
                }
            },
            SessionEventPayload::InboxDiscarded { message_id, reason } => {
                SessionEventPayload::InboxDiscarded {
                    message_id: message_id.clone(),
                    reason: reason.clone(),
                }
            },
            SessionEventPayload::UserMessage { message } => SessionEventPayload::UserMessage {
                message: message.clone(),
            },
            SessionEventPayload::ModelRequested(d) => SessionEventPayload::ModelRequested(
                d.clone(),
            ),
            SessionEventPayload::AssistantMessage(d) => {
                let usage = match &d.usage {
                    Some(usage) => Some(usage.clone()),
                    None => None,
                };
                SessionEventPayload::AssistantMessage(
                    AssistantMessage {
                        request_id: d.request_id.clone(),
                        message: d.message.clone(),
                        usage,
                    },
                )
            },
            SessionEventPayload::ModelFailed(d) => SessionEventPayload::ModelFailed(
                ModelFailed { request_id: d.request_id.clone(), failure: d.failure.clone() },
            ),
            SessionEventPayload::ToolCall(d) => SessionEventPayload::ToolCall(d.clone()),
            SessionEventPayload::ToolDispatched(d) => SessionEventPayload::ToolDispatched(
                d.clone(),
            ),
            SessionEventPayload::ToolResult(d) => SessionEventPayload::ToolResult(
                ToolResultRecorded {
                    call_id: d.call_id.clone(),
                    invocation_id: d.invocation_id.clone(),
                    outcome: d.outcome.clone(),
                },
            ),
            SessionEventPayload::ApprovalRequested(d) => SessionEventPayload::ApprovalRequested(
                d.clone(),
            ),
            SessionEventPayload::ApprovalResolved(d) => SessionEventPayload::ApprovalResolved(
                d.clone(),
            ),
            SessionEventPayload::RecoveryBlocked(d) => SessionEventPayload::RecoveryBlocked(
                d.clone(),
            ),
        }
    }
}

impl SessionEventPayload {
    /// Whether two payloads say the same.
    pub fn same(&self, other: &SessionEventPayload) -> (r: bool)
        ensures
            r == (self@ == other@),
    {
        match (self, other) {
            (
                SessionEventPayload::TurnStarted { turn: a },
                SessionEventPayload::TurnStarted { turn: b },
            ) => *a == *b,
            (
                SessionEventPayload::TurnEnded { reason: a },
                SessionEventPayload::TurnEnded { reason: b },
            ) => *a == *b,
            (
                SessionEventPayload::StepStarted { turn: a, step: s },
                SessionEventPayload::StepStarted { turn: b, step: t },
            ) => *a == *b && *s == *t,
            (
                SessionEventPayload::StepEnded { reason: a },
                SessionEventPayload::StepEnded { reason: b },
            ) => *a == *b,
            (SessionEventPayload::InboxEnqueued(a), SessionEventPayload::InboxEnqueued(b)) => {
                a.message.same(&b.message) && a.target == b.target && a.wakeup == b.wakeup
            },
            (
                SessionEventPayload::InboxClaimed { message_id: a, target: s },
                SessionEventPayload::InboxClaimed { message_id: b, target: t },
            ) => a.same(b) && *s == *t,
            (
                SessionEventPayload::InboxDiscarded { message_id: a, reason: s },
                SessionEventPayload::InboxDiscarded { message_id: b, reason: t },
            ) => a.same(b) && *s == *t,
            (
                SessionEventPayload::UserMessage { message: a },
                SessionEventPayload::UserMessage { message: b },
            ) => a.same(b),
            (SessionEventPayload::ModelRequested(a), SessionEventPayload::ModelRequested(b)) => {
                a.request_id.same(&b.request_id) && a.provider.same(&b.provider) && a.model
                    == b.model && a.history_through_seq == b.history_through_seq
                    && a.request_snapshot.same(&b.request_snapshot) && a.attempt == b.attempt
            },
            (
                SessionEventPayload::AssistantMessage(a),
                SessionEventPayload::AssistantMessage(b),
            ) => {
                a.request_id.same(&b.request_id) && a.message.same(&b.message) && same_opt_usage(
                    &a.usage,
                    &b.usage,
                )
            },
            (SessionEventPayload::ModelFailed(a), SessionEventPayload::ModelFailed(b)) => {
                a.request_id.same(&b.request_id) && a.failure.same(&b.failure)
            },
            (SessionEventPayload::ToolCall(a), SessionEventPayload::ToolCall(b)) => {
                a.call_id.same(&b.call_id) && a.tool == b.tool && a.arguments_json.same(
                    &b.arguments_json,
                ) && a.side_effect == b.side_effect
            },
            (SessionEventPayload::ToolDispatched(a), SessionEventPayload::ToolDispatched(b)) => {
                a.call_id.same(&b.call_id) && a.invocation_id.same(&b.invocation_id)
                    && a.provider_id.same(&b.provider_id) && a.attempt == b.attempt
                    && a.idempotency_key.same(&b.idempotency_key)
            },
            (SessionEventPayload::ToolResult(a), SessionEventPayload::ToolResult(b)) => {
                a.call_id.same(&b.call_id) && a.invocation_id.same(&b.invocation_id)
                    && a.outcome.same(&b.outcome)
            },
            (
                SessionEventPayload::ApprovalRequested(a),
                SessionEventPayload::ApprovalRequested(b),
            ) => {
                a.approval_id.same(&b.approval_id) && a.call_id.same(&b.call_id) && a.reason
                    == b.reason && a.risk == b.risk
            },
            (
                SessionEventPayload::ApprovalResolved(a),
                SessionEventPayload::ApprovalResolved(b),
            ) => {
                a.approval_id.same(&b.approval_id) && a.call_id.same(&b.call_id) && a.decision
                    == b.decision && same_opt_text(&a.note, &b.note)
            },
            (SessionEventPayload::RecoveryBlocked(a), SessionEventPayload::RecoveryBlocked(b)) => {
                a.kind == b.kind && a.call_id.same(&b.call_id) && a.invocation_id.same(
                    &b.invocation_id,
                ) && a.reason == b.reason
            },
            _ => false,
        }
    }
}

/// An event that is proposed for the session.
#[derive(Debug, PartialEq)]
pub struct NewSessionEvent {
    pub event_id: EventId,
    pub timestamp: Timestamp,
    pub payload: SessionEventPayload,
    pub turn: Option<TurnNo>,
    pub step: Option<StepNo>,
}

#[verifier::ext_equal]
pub struct DraftView {
    pub event_id: Seq<char>,
    pub timestamp: Seq<char>,
    pub payload: PayloadView,
    pub turn: Option<TurnNo>,
    pub step: Option<StepNo>,
}

/// What a draft says and where, apart from its identity and time.
#[verifier::ext_equal]
pub struct Shape {
    pub payload: PayloadView,
    pub turn: Option<TurnNo>,
    pub step: Option<StepNo>,
}

impl View for NewSessionEvent {
    type V = DraftView;

    open spec fn view(&self) -> DraftView {
        DraftView {
            event_id: self.event_id@,
            timestamp: self.timestamp@,
            payload: self.payload@,
            turn: self.turn,
            step: self.step,
        }
    }
}

pub open spec fn shape(d: NewSessionEvent) -> Shape {
    Shape { payload: d.payload@, turn: d.turn, step: d.step }
}

/// The shapes of a row of drafts.
pub open spec fn shapes(s: Seq<NewSessionEvent>) -> Seq<Shape> {
    s.map_values(|d: NewSessionEvent| shape(d))
}

/// The shape of one more draft comes last.
pub broadcast proof fn lemma_shapes_push(s: Seq<NewSessionEvent>, d: NewSessionEvent)
    ensures
        #[trigger] shapes(s.push(d)) == shapes(s).push(shape(d)),
{
    assert(shapes(s.push(d)) =~= shapes(s).push(shape(d)));
}

/// A payload inside a step.
pub open spec fn in_step(payload: PayloadView, position: StepPosition) -> Shape {
    Shape { payload, turn: Some(position.turn), step: Some(position.step) }
}

/// A payload inside a turn, outside any step.
pub open spec fn in_turn(payload: PayloadView, turn: TurnNo) -> Shape {
    Shape { payload, turn: Some(turn), step: None }
}

/// A payload outside any turn.
pub open spec fn outside_turns(payload: PayloadView) -> Shape {
    Shape { payload, turn: None, step: None }
}

impl Clone for NewSessionEvent {
    fn clone(&self) -> (r: Self)
        ensures
            r@ == self@,
    {
        NewSessionEvent {
            event_id: self.event_id.clone(),
            timestamp: self.timestamp.clone(),
            payload: self.payload.clone(),
            turn: self.turn,
            step: self.step,
        }
    }
}

impl NewSessionEvent {
    pub fn new(event_id: EventId, timestamp: Timestamp, payload: SessionEventPayload) -> (r: Self)
        ensures
            r.event_id == event_id,
            r.timestamp == timestamp,
            r.payload == payload,
            r.turn is None,
            r.step is None,
    {
        NewSessionEvent { event_id, timestamp, payload, turn: None, step: None }
    }

    pub fn in_turn(self, turn: TurnNo) -> (r: Self)
        ensures
            r == (NewSessionEvent { turn: Some(turn), ..self }),
    {
        NewSessionEvent {
            event_id: self.event_id,
            timestamp: self.timestamp,
            payload: self.payload,
            turn: Some(turn),
            step: self.step,
        }
    }

    pub fn in_step(self, turn: TurnNo, step: StepNo) -> (r: Self)
        ensures
            r == (NewSessionEvent { turn: Some(turn), step: Some(step), ..self }),
    {
        NewSessionEvent {
            event_id: self.event_id,
            timestamp: self.timestamp,
            payload: self.payload,
            turn: Some(turn),
            step: Some(step),
        }
    }
}

/// An event of the session, with its place in the row.
#[derive(Debug, PartialEq)]
pub struct SessionEvent {
    pub session_id: SessionId,
    pub seq: EventSeq,
    pub draft: NewSessionEvent,
}

#[verifier::ext_equal]
pub struct SessionEventView {
    pub session_id: Seq<char>,
    pub seq: EventSeq,
    pub draft: DraftView,
}

impl View for SessionEvent {
    type V = SessionEventView;

    open spec fn view(&self) -> SessionEventView {
        SessionEventView { session_id: self.session_id@, seq: self.seq, draft: self.draft@ }
    }
}

/// The model of a row of events.
pub open spec fn events_view(s: Seq<SessionEvent>) -> Seq<SessionEventView> {
    s.map_values(|e: SessionEvent| e@)
}

impl Clone for SessionEvent {
    fn clone(&self) -> (r: Self)
        ensures
            r@ == self@,
            r.seq == self.seq,
    {
        SessionEvent {
            session_id: self.session_id.clone(),
            seq: self.seq,
            draft: self.draft.clone(),
        }
    }
}

impl SessionEvent {
    /// The event that `draft` becomes when it is written at `seq`.
    pub fn committed(session_id: SessionId, seq: EventSeq, draft: NewSessionEvent) -> (r: Self)
        ensures
            r == (SessionEvent { session_id, seq, draft }),
    {
        SessionEvent { session_id, seq, draft }
    }

    pub fn same(&self, other: &SessionEvent) -> (r: bool)
        ensures
            r == (self@ == other@),
    {
        self.session_id.same(&other.session_id) && self.seq == other.seq
            && self.draft.event_id.same(&other.draft.event_id) && self.draft.timestamp
            == other.draft.timestamp && self.draft.payload.same(&other.draft.payload)
            && self.draft.turn == other.draft.turn && self.draft.step == other.draft.step
    }
}

/// Whether two rows of events are the same.
pub fn same_events(a: &Vec<SessionEvent>, b: &Vec<SessionEvent>) -> (r: bool)
    ensures
        r == (events_view(a@) == events_view(b@)),
{
    if a.len() != b.len() {
        assert(events_view(a@).len() != events_view(b@).len());
        return false;
    }
    let mut i: usize = 0;
    while i < a.len()
        invariant
            i <= a@.len(),
            a@.len() == b@.len(),
            forall|j: int| 0 <= j < i ==> (#[trigger] a@[j])@ == b@[j]@,
        decreases a@.len() - i,
    {
        if !a[i].same(&b[i]) {
            assert(events_view(a@)[i as int] != events_view(b@)[i as int]);
            return false;
        }
        i = i + 1;
    }
    assert(events_view(a@) =~= events_view(b@));
    true
}

/// The last event of a session.
#[derive(Debug, PartialEq)]
pub struct SessionHead {
    pub session_id: SessionId,
    pub seq: EventSeq,
}

/// Which turn and step are open and which came last.
#[derive(Clone, Copy, Debug, PartialEq, Eq, Structural)]
pub struct Lifecycle {
    pub open_turn: Option<TurnNo>,
    pub open_step: Option<StepPosition>,
    pub last_started_turn: Option<TurnNo>,
    pub last_started_step: Option<StepPosition>,
    pub last_ended_turn: Option<TurnNo>,
    pub last_ended_step: Option<StepPosition>,
    pub last_ended_step_reason: Option<StepEndReason>,
}

#[derive(Debug, PartialEq)]
pub struct PendingInboxItem {
    pub message: Message,
    pub target: InboxTarget,
    pub wakeup: bool,
}

#[verifier::ext_equal]
pub struct InboxItemView {
    pub message: MessageView,
    pub target: InboxTarget,
    pub wakeup: bool,
}

impl View for PendingInboxItem {
    type V = InboxItemView;

    open spec fn view(&self) -> InboxItemView {
        InboxItemView { message: self.message@, target: self.target, wakeup: self.wakeup }
    }
}

impl Clone for PendingInboxItem {
    fn clone(&self) -> (r: Self)
        ensures
            r@ == self@,
    {
        PendingInboxItem {
            message: self.message.clone(),
            target: self.target,
            wakeup: self.wakeup,
        }
    }
}

/// Accepted input that no turn or step has taken up, oldest first.
#[derive(Debug, PartialEq)]
pub struct Inbox {
    pub next_turn: Vec<PendingInboxItem>,
    pub next_step: Vec<PendingInboxItem>,
}

/// A tool call block of the assistant message of the open step.
#[derive(Debug, PartialEq)]
pub struct OpenStepToolCall {
    pub call_id: ToolCallId,
    pub name: String,
    pub arguments_json: JsonText,
}

/// The tool calls of the open step: announced by the assistant, taken on by the
/// session, and ended.
#[derive(Debug, PartialEq)]
pub struct OpenStepTools {
    pub announced: Vec<OpenStepToolCall>,
    pub recorded: Vec<ToolCallId>,
    pub completed: Vec<ToolCallId>,
}

#[derive(Debug, PartialEq)]
pub struct PendingToolCall {
    pub call_event_id: EventId,
    pub call_seq: EventSeq,
    pub turn: TurnNo,
    pub step: StepNo,
    pub data: ToolCallRecorded,
}

impl Clone for PendingToolCall {
    fn clone(&self) -> (r: Self)
        ensures
            r == *self,
    {
        PendingToolCall {
            call_event_id: self.call_event_id.clone(),
            call_seq: self.call_seq,
            turn: self.turn,
            step: self.step,
            data: self.data.clone(),
        }
    }
}

#[derive(Debug, PartialEq)]
pub struct PendingToolDispatch {
    pub dispatch_event_id: EventId,
    pub dispatch_seq: EventSeq,
    pub turn: TurnNo,
    pub step: StepNo,
    pub data: ToolDispatched,
}

impl Clone for PendingToolDispatch {
    fn clone(&self) -> (r: Self)
        ensures
            r == *self,
    {
        PendingToolDispatch {
            dispatch_event_id: self.dispatch_event_id.clone(),
            dispatch_seq: self.dispatch_seq,
            turn: self.turn,
            step: self.step,
            data: self.data.clone(),
        }
    }
}

#[derive(Debug, PartialEq)]
pub struct PendingApproval {
    pub turn: TurnNo,
    pub step: StepNo,
    pub data: ApprovalRequested,
}

impl Clone for PendingApproval {
    fn clone(&self) -> (r: Self)
        ensures
            r == *self,
    {
        PendingApproval { turn: self.turn, step: self.step, data: self.data.clone() }
    }
}

#[derive(Debug, PartialEq)]
pub struct RecoveryBlock {
    pub turn: TurnNo,
    pub step: StepNo,
    pub data: RecoveryBlocked,
}

impl Clone for RecoveryBlock {
    fn clone(&self) -> (r: Self)
        ensures
            r == *self,
    {
        RecoveryBlock { turn: self.turn, step: self.step, data: self.data.clone() }
    }
}

/// What a session's history adds up to.
///
/// Pending calls and dispatches are kept by call identifier.
#[derive(Debug, PartialEq)]
pub struct SessionProjection {
    pub lifecycle: Lifecycle,
    pub inbox: Inbox,
    pub open_step_assistant_message: Option<MessageId>,
    pub open_step_tools: OpenStepTools,
    pub pending_tool_calls: Vec<PendingToolCall>,
    pub pending_tool_dispatches: Vec<PendingToolDispatch>,
    pub pending_model_request: Option<ModelRequested>,
    pub pending_approval: Option<PendingApproval>,
    /// The approvals of the open step that have been decided.
    pub resolved_approvals: Vec<ApprovalResolved>,
    pub unresolved_recovery: Option<RecoveryBlock>,
    pub model_messages: Vec<Message>,
}

impl Default for SessionProjection {
    /// The projection of a session in which nothing has happened.
    fn default() -> (r: Self)
        ensures
            r.lifecycle == empty_lifecycle(),
            r.inbox.next_turn@.len() == 0,
            r.inbox.next_step@.len() == 0,
            r.open_step_assistant_message is None,
            r.open_step_tools.announced@.len() == 0,
            r.open_step_tools.recorded@.len() == 0,
            r.open_step_tools.completed@.len() == 0,
            r.pending_tool_calls@.len() == 0,
            r.pending_tool_dispatches@.len() == 0,
            r.pending_model_request is None,
            r.pending_approval is None,
            r.resolved_approvals@.len() == 0,
            r.unresolved_recovery is None,
            r.model_messages@.len() == 0,
            r.in_order(),
    {
        SessionProjection {
            lifecycle: Lifecycle {
                open_turn: None,
                open_step: None,
                last_started_turn: None,
                last_started_step: None,
                last_ended_turn: None,
                last_ended_step: None,
                last_ended_step_reason: None,
            },
            inbox: Inbox { next_turn: Vec::new(), next_step: Vec::new() },
            open_step_assistant_message: None,
            open_step_tools: OpenStepTools {
                announced: Vec::new(),
                recorded: Vec::new(),
                completed: Vec::new(),
            },
            pending_tool_calls: Vec::new(),
            pending_tool_dispatches: Vec::new(),
            pending_model_request: None,
            pending_approval: None,
            resolved_approvals: Vec::new(),
            unresolved_recovery: None,
            model_messages: Vec::new(),
        }
    }
}

impl SessionProjection {
    /// Whether pending calls and dispatches ascend by their call identifiers, so
    /// that there is one at most for each.
    pub open spec fn in_order(&self) -> bool {
        &&& ascending(self.pending_tool_calls@.map_values(|c: PendingToolCall| c.data.call_id@))
        &&& ascending(
            self.pending_tool_dispatches@.map_values(|d: PendingToolDispatch| d.data.call_id@),
        )
    }
}

pub open spec fn empty_lifecycle() -> Lifecycle {
    Lifecycle {
        open_turn: None,
        open_step: None,
        last_started_turn: None,
        last_started_step: None,
        last_ended_turn: None,
        last_ended_step: None,
        last_ended_step_reason: None,
    }
}

/// The pending call with the identifier `id`.
pub open spec fn call_of(calls: Seq<PendingToolCall>, id: Seq<char>) -> Option<PendingToolCall>
    decreases calls.len(),
{
    if calls.len() == 0 {
        None
    } else if calls[0].data.call_id@ == id {
        Some(calls[0])
    } else {
        call_of(calls.drop_first(), id)
    }
}

/// The pending dispatch of the call with the identifier `id`.
pub open spec fn dispatch_of(
    dispatches: Seq<PendingToolDispatch>,
    id: Seq<char>,
) -> Option<PendingToolDispatch>
    decreases dispatches.len(),
{
    if dispatches.len() == 0 {
        None
    } else if dispatches[0].data.call_id@ == id {
        Some(dispatches[0])
    } else {
        dispatch_of(dispatches.drop_first(), id)
    }
}

/// What was decided on the approval of the call with the identifier `id`.
pub open spec fn approval_of(
    approvals: Seq<ApprovalResolved>,
    id: Seq<char>,
) -> Option<ApprovalResolved>
    decreases approvals.len(),
{
    if approvals.len() == 0 {
        None
    } else if approvals[0].call_id@ == id {
        Some(approvals[0])
    } else {
        approval_of(approvals.drop_first(), id)
    }
}

/// Whether `ids` holds an identifier with the text `id`.
pub open spec fn has_id(ids: Seq<ToolCallId>, id: Seq<char>) -> bool {
    exists|i: int| 0 <= i < ids.len() && (#[trigger] ids[i])@ == id
}

/// A call is found if and only if one of the row has the identifier, and it has it.
pub proof fn lemma_call_of(calls: Seq<PendingToolCall>, id: Seq<char>)
    ensures
        call_of(calls, id) matches Some(c) ==> c.data.call_id@ == id && exists|i: int|
            0 <= i < calls.len() && calls[i] == c,
        call_of(calls, id) is None ==> forall|i: int|
            0 <= i < calls.len() ==> (#[trigger] calls[i]).data.call_id@ != id,
    decreases calls.len(),
{
    if calls.len() > 0 {
        lemma_call_of(calls.drop_first(), id);
        assert forall|i: int| 0 < i < calls.len() implies calls[i] == calls.drop_first()[i - 1] by {
        }
        if calls[0].data.call_id@ == id {
            assert(calls[0] == call_of(calls, id)->0);
        }
    }
}

/// A dispatch is found if and only if one of the row is of the call, and it is.
pub proof fn lemma_dispatch_of(dispatches: Seq<PendingToolDispatch>, id: Seq<char>)
    ensures
        dispatch_of(dispatches, id) matches Some(d) ==> d.data.call_id@ == id && exists|i: int|
            0 <= i < dispatches.len() && dispatches[i] == d,
        dispatch_of(dispatches, id) is None ==> forall|i: int|
            0 <= i < dispatches.len() ==> (#[trigger] dispatches[i]).data.call_id@ != id,
    decreases dispatches.len(),
{
    if dispatches.len() > 0 {
        lemma_dispatch_of(dispatches.drop_first(), id);
        assert forall|i: int| 0 < i < dispatches.len() implies dispatches[i]
            == dispatches.drop_first()[i - 1] by {}
        if dispatches[0].data.call_id@ == id {
            assert(dispatches[0] == dispatch_of(dispatches, id)->0);
        }
    }
}

impl SessionProjection {
    pub fn pending_call(&self, id: &ToolCallId) -> (r: Option<&PendingToolCall>)
        ensures
            match r {
                Some(c) => call_of(self.pending_tool_calls@, id@) == Some(*c),
                None => call_of(self.pending_tool_calls@, id@) is None,
            },
    {
        let mut i: usize = 0;
        assert(self.pending_tool_calls@.skip(0) =~= self.pending_tool_calls@);
        while i < self.pending_tool_calls.len()
            invariant
                i <= self.pending_tool_calls@.len(),
                call_of(self.pending_tool_calls@, id@) == call_of(
                    self.pending_tool_calls@.skip(i as int),
                    id@,
                ),
            decreases self.pending_tool_calls@.len() - i,
        {
            let ghost rest = self.pending_tool_calls@.skip(i as int);
            assert(rest[0] == self.pending_tool_calls@[i as int]);
            assert(rest.drop_first() =~= self.pending_tool_calls@.skip(i + 1));
            if self.pending_tool_calls[i].data.call_id.same(id) {
                return Some(&self.pending_tool_calls[i]);
            }
            i = i + 1;
        }
        None
    }

    pub fn pending_dispatch(&self, id: &ToolCallId) -> (r: Option<&PendingToolDispatch>)
        ensures
            match r {
                Some(d) => dispatch_of(self.pending_tool_dispatches@, id@) == Some(*d),
                None => dispatch_of(self.pending_tool_dispatches@, id@) is None,
            },
    {
        let mut i: usize = 0;
        assert(self.pending_tool_dispatches@.skip(0) =~= self.pending_tool_dispatches@);
        while i < self.pending_tool_dispatches.len()
            invariant
                i <= self.pending_tool_dispatches@.len(),
                dispatch_of(self.pending_tool_dispatches@, id@) == dispatch_of(
                    self.pending_tool_dispatches@.skip(i as int),
                    id@,
                ),
            decreases self.pending_tool_dispatches@.len() - i,
        {
            let ghost rest = self.pending_tool_dispatches@.skip(i as int);
            assert(rest[0] == self.pending_tool_dispatches@[i as int]);
            assert(rest.drop_first() =~= self.pending_tool_dispatches@.skip(i + 1));
            if self.pending_tool_dispatches[i].data.call_id.same(id) {
                return Some(&self.pending_tool_dispatches[i]);
            }
            i = i + 1;
        }
        None
    }

    pub fn resolved_approval(&self, id: &ToolCallId) -> (r: Option<&ApprovalResolved>)
        ensures
            match r {
                Some(a) => approval_of(self.resolved_approvals@, id@) == Some(*a),
                None => approval_of(self.resolved_approvals@, id@) is None,
            },
    {
        let mut i: usize = 0;
        assert(self.resolved_approvals@.skip(0) =~= self.resolved_approvals@);
        while i < self.resolved_approvals.len()
            invariant
                i <= self.resolved_approvals@.len(),
                approval_of(self.resolved_approvals@, id@) == approval_of(
                    self.resolved_approvals@.skip(i as int),
                    id@,
                ),
            decreases self.resolved_approvals@.len() - i,
        {
            let ghost rest = self.resolved_approvals@.skip(i as int);
            assert(rest[0] == self.resolved_approvals@[i as int]);
            assert(rest.drop_first() =~= self.resolved_approvals@.skip(i + 1));
            if self.resolved_approvals[i].call_id.same(id) {
                return Some(&self.resolved_approvals[i]);
            }
            i = i + 1;
        }
        None
    }
}

/// Whether `ids` holds `id`.
pub fn holds_id(ids: &Vec<ToolCallId>, id: &ToolCallId) -> (r: bool)
    ensures
        r == has_id(ids@, id@),
{
    let mut i: usize = 0;
    while i < ids.len()
        invariant
            i <= ids@.len(),
            forall|j: int| 0 <= j < i ==> (#[trigger] ids@[j])@ != id@,
        decreases ids@.len() - i,
    {
        if ids[i].same(id) {
            return true;
        }
        i = i + 1;
    }
    false
}

proof fn lemma_call_at(calls: Seq<PendingToolCall>, i: int)
    requires
        0 <= i < calls.len(),
        forall|j: int|
            0 <= j < i ==> (#[trigger] calls[j]).data.call_id@ != calls[i].data.call_id@,
    ensures
        call_of(calls, calls[i].data.call_id@) == Some(calls[i]),
    decreases i,
{
    if i > 0 {
        let rest = calls.drop_first();
        assert(calls[0].data.call_id@ != calls[i].data.call_id@);
        assert forall|j: int| 0 <= j < i - 1 implies (#[trigger] rest[j]).data.call_id@ != rest[i
            - 1].data.call_id@ by {
            assert(calls[j + 1].data.call_id@ != calls[i].data.call_id@);
        }
        lemma_call_at(rest, i - 1);
    }
}

proof fn lemma_dispatch_at(dispatches: Seq<PendingToolDispatch>, i: int)
    requires
        0 <= i < dispatches.len(),
        forall|j: int|
            0 <= j < i ==> (#[trigger] dispatches[j]).data.call_id@ != dispatches[i].data.call_id@,
    ensures
        dispatch_of(dispatches, dispatches[i].data.call_id@) == Some(dispatches[i]),
    decreases i,
{
    if i > 0 {
        let rest = dispatches.drop_first();
        assert(dispatches[0].data.call_id@ != dispatches[i].data.call_id@);
        assert forall|j: int| 0 <= j < i - 1 implies (#[trigger] rest[j]).data.call_id@ != rest[i
            - 1].data.call_id@ by {
            assert(dispatches[j + 1].data.call_id@ != dispatches[i].data.call_id@);
        }
        lemma_dispatch_at(rest, i - 1);
    }
}

/// Every pending call, and every pending dispatch, is found under its identifier.
pub proof fn law_pending_work_is_found(p: SessionProjection)
    requires
        p.in_order(),
    ensures
        forall|i: int|
            0 <= i < p.pending_tool_calls@.len() ==> call_of(
                p.pending_tool_calls@,
                (#[trigger] p.pending_tool_calls@[i]).data.call_id@,
            ) == Some(p.pending_tool_calls@[i]),
        forall|i: int|
            0 <= i < p.pending_tool_dispatches@.len() ==> dispatch_of(
                p.pending_tool_dispatches@,
                (#[trigger] p.pending_tool_dispatches@[i]).data.call_id@,
            ) == Some(p.pending_tool_dispatches@[i]),
{
    let calls = p.pending_tool_calls@;
    let dispatches = p.pending_tool_dispatches@;
    let call_ids = calls.map_values(|c: PendingToolCall| c.data.call_id@);
    let dispatch_ids = dispatches.map_values(|d: PendingToolDispatch| d.data.call_id@);
    assert forall|i: int| 0 <= i < calls.len() implies call_of(
        calls,
        (#[trigger] calls[i]).data.call_id@,
    ) == Some(calls[i]) by {
        lemma_not_before_itself(calls[i].data.call_id@);
        assert forall|j: int| 0 <= j < i implies (#[trigger] calls[j]).data.call_id@
            != calls[i].data.call_id@ by {
            assert(text_before(call_ids[j], call_ids[i]));
        }
        lemma_call_at(calls, i);
    }
    assert forall|i: int| 0 <= i < dispatches.len() implies dispatch_of(
        dispatches,
        (#[trigger] dispatches[i]).data.call_id@,
    ) == Some(dispatches[i]) by {
        lemma_not_before_itself(dispatches[i].data.call_id@);
        assert forall|j: int| 0 <= j < i implies (#[trigger] dispatches[j]).data.call_id@
            != dispatches[i].data.call_id@ by {
            assert(text_before(dispatch_ids[j], dispatch_ids[i]));
        }
        lemma_dispatch_at(dispatches, i);
    }
}

/// A decided approval is found by its call, and none is found for a call on which
/// nothing was decided.
pub proof fn law_approvals_are_found_by_call(approvals: Seq<ApprovalResolved>, id: Seq<char>)
    ensures
        match approval_of(approvals, id) {
            Some(a) => a.call_id@ == id && approvals.contains(a),
            None => forall|i: int|
                0 <= i < approvals.len() ==> (#[trigger] approvals[i]).call_id@ != id,
        },
    decreases approvals.len(),
{
    if approvals.len() > 0 {
        let rest = approvals.drop_first();
        law_approvals_are_found_by_call(rest, id);
        if approvals[0].call_id@ == id {
            assert(approvals.contains(approvals[0]));
        } else if let Some(a) = approval_of(rest, id) {
            let i = choose|i: int| 0 <= i < rest.len() && rest[i] == a;
            assert(approvals[i + 1] == a);
        } else {
            assert forall|i: int| 0 <= i < approvals.len() implies (
            #[trigger] approvals[i]).call_id@ != id by {
                if i > 0 {
                    assert(rest[i - 1] == approvals[i]);
                }
            }
        }
    }
}

/// Events are stored under the name of what they say.
pub proof fn law_events_are_stored_under_their_kind(payload: SessionEventPayload)
    ensures
        payload@ is TurnStarted ==> event_type_of(payload) == "turn/started"@,
        payload@ is TurnEnded ==> event_type_of(payload) == "turn/ended"@,
        payload@ is StepStarted ==> event_type_of(payload) == "step/started"@,
        payload@ is StepEnded ==> event_type_of(payload) == "step/ended"@,
        payload@ is InboxEnqueued ==> event_type_of(payload) == "inbox/enqueued"@,
        payload@ is InboxClaimed ==> event_type_of(payload) == "inbox/claimed"@,
        payload@ is InboxDiscarded ==> event_type_of(payload) == "inbox/discarded"@,
        payload@ is UserMessage ==> event_type_of(payload) == "user/message"@,
        payload@ is ModelRequested ==> event_type_of(payload) == "model/requested"@,
        payload@ is AssistantMessage ==> event_type_of(payload) == "assistant/message"@,
        payload@ is ModelFailed ==> event_type_of(payload) == "model/failed"@,
        payload@ is ToolCall ==> event_type_of(payload) == "tool/call"@,
        payload@ is ToolDispatched ==> event_type_of(payload) == "tool/dispatched"@,
        payload@ is ToolResult ==> event_type_of(payload) == "tool/result"@,
        payload@ is ApprovalRequested ==> event_type_of(payload) == "approval/requested"@,
        payload@ is ApprovalResolved ==> event_type_of(payload) == "approval/resolved"@,
        payload@ is RecoveryBlocked ==> event_type_of(payload) == "recovery/blocked"@,
{
}

/// The model of an event says everything that the event says.
pub proof fn law_models_of_events_are_whole(payload: SessionEventPayload)
    ensures
        match payload {
            SessionEventPayload::TurnStarted { turn } => payload@ == (PayloadView::TurnStarted {
                turn,
            }),
            SessionEventPayload::TurnEnded { reason } => payload@ == (PayloadView::TurnEnded {
                reason,
            }),
            SessionEventPayload::StepStarted { turn, step } => payload@ == (
            PayloadView::StepStarted { turn, step }),
            SessionEventPayload::StepEnded { reason } => payload@ == (PayloadView::StepEnded {
                reason,
            }),
            SessionEventPayload::InboxEnqueued(d) => payload@ == (PayloadView::InboxEnqueued {
                message: d.message@,
                target: d.target,
                wakeup: d.wakeup,
            }),
            SessionEventPayload::InboxClaimed { message_id, target } => payload@ == (
            PayloadView::InboxClaimed { message_id: message_id@, target }),
            SessionEventPayload::InboxDiscarded { message_id, reason } => payload@ == (
            PayloadView::InboxDiscarded { message_id: message_id@, reason: reason@ }),
            SessionEventPayload::UserMessage { message } => payload@ == (PayloadView::UserMessage {
                message: message@,
            }),
            SessionEventPayload::ModelRequested(d) => payload@ == (PayloadView::ModelRequested {
                request_id: d.request_id@,
                provider: d.provider@,
                model: d.model@,
                history_through_seq: d.history_through_seq,
                request_snapshot: d.request_snapshot@,
                attempt: d.attempt,
            }),
            SessionEventPayload::AssistantMessage(d) => {
                &&& payload@ matches PayloadView::AssistantMessage { request_id, message, usage }
                &&& request_id == d.request_id@ && message == d.message@
                &&& d.usage is Some <==> usage is Some
                &&& d.usage matches Some(u) ==> usage == Some(u@)
            },
            SessionEventPayload::ModelFailed(d) => payload@ == (PayloadView::ModelFailed {
                request_id: d.request_id@,
                failure: d.failure@,
            }),
            SessionEventPayload::ToolCall(d) => payload@ == (PayloadView::ToolCall {
                call_id: d.call_id@,
                tool: d.tool@,
                arguments_json: d.arguments_json@,
                side_effect: d.side_effect,
            }),
            SessionEventPayload::ToolDispatched(d) => payload@ == (PayloadView::ToolDispatched {
                call_id: d.call_id@,
                invocation_id: d.invocation_id@,
                provider_id: d.provider_id@,
                attempt: d.attempt,
                idempotency_key: d.idempotency_key@,
            }),
            SessionEventPayload::ToolResult(d) => payload@ == (PayloadView::ToolResult {
                call_id: d.call_id@,
                invocation_id: d.invocation_id@,
                outcome: d.outcome@,
            }),
            SessionEventPayload::ApprovalRequested(d) => payload@ == (
            PayloadView::ApprovalRequested {
                approval_id: d.approval_id@,
                call_id: d.call_id@,
                reason: d.reason@,
                risk: d.risk@,
            }),
            SessionEventPayload::ApprovalResolved(d) => payload@ == (
            PayloadView::ApprovalResolved {
                approval_id: d.approval_id@,
                call_id: d.call_id@,
                decision: d.decision,
                note: match d.note {
                    Some(note) => Some(note@),
                    None => None,
                },
            }),
            SessionEventPayload::RecoveryBlocked(d) => payload@ == (PayloadView::RecoveryBlocked {
                kind: d.kind,
                call_id: d.call_id@,
                invocation_id: d.invocation_id@,
                reason: d.reason@,
            }),
        },
{
}

/// The model of an event in its place says where it is, who it is and when it was, beside
/// what it says; that of a waiting message says for what it waits and whether it wakes.
pub proof fn law_models_of_places_are_whole(e: SessionEvent, i: PendingInboxItem)
    ensures
        e@.session_id == e.session_id@,
        e@.seq == e.seq,
        e@.draft.event_id == e.draft.event_id@,
        e@.draft.timestamp == e.draft.timestamp@,
        e@.draft.payload == e.draft.payload@,
        e@.draft.turn == e.draft.turn,
        e@.draft.step == e.draft.step,
        i@.message == i.message@,
        i@.target == i.target,
        i@.wakeup == i.wakeup,
{
}

} // verus!
