//! Drafts of session events, and the identifiers that are derived from them.

use vstd::prelude::*;

use crate::agent::event_source::AgentEventSource;
use crate::message::{MessageSourceView, MessageView, ContentBlockView, TokenUsageView, ToolOutcomeView};
use crate::session::{
    in_step, in_turn, outside_turns, shape, NewSessionEvent, PayloadView, SessionEventPayload,
    Shape, StepEndReason, StepPosition, TurnEndReason,
};
use crate::text::{concat2, concat4};
use crate::types::{
    ApprovalId, EventId, IdempotencyKey, Identifier, InvocationId, MessageId, RequestId, Role,
    SessionId, ToolCallId, TurnNo,
};

verus! {

/// What a draft says, given its own event identifier.
pub enum Template {
    /// The same whatever the identifier is.
    Fixed(Shape),
    /// A tool result under an invocation that is named after the event.
    Result { position: StepPosition, call_id: Seq<char>, outcome: ToolOutcomeView },
    /// A dispatch under an invocation that is named after the event.
    Dispatch {
        position: StepPosition,
        call_id: Seq<char>,
        provider_id: Seq<char>,
        attempt: u32,
        idempotency_key: Seq<char>,
    },
    /// A request for approval that is named after the event.
    Approval { position: StepPosition, call_id: Seq<char>, reason: Seq<char>, risk: Seq<char> },
    /// An assistant message that is named after the event.
    Assistant {
        position: StepPosition,
        request_id: Seq<char>,
        source: MessageSourceView,
        content: Seq<ContentBlockView>,
        usage: Option<TokenUsageView>,
    },
}

/// The invocation that is named after an event.
pub open spec fn invocation_name(event: Seq<char>) -> Seq<char> {
    "inv:tool:"@ + event
}

/// The model request that is named after an event.
pub open spec fn request_name(event: Seq<char>) -> Seq<char> {
    "req:model:"@ + event
}

/// The assistant message that is named after an event.
pub open spec fn assistant_name(event: Seq<char>) -> Seq<char> {
    "msg:model:"@ + event
}

/// The approval that is named after an event.
pub open spec fn approval_name(event: Seq<char>) -> Seq<char> {
    "apr:tool:"@ + event
}

/// The key under which all attempts of a call are made.
pub open spec fn call_key(session: Seq<char>, call: Seq<char>) -> Seq<char> {
    "idem:tool:"@ + session + ":"@ + call
}

/// What a template says under the event identifier `id`.
pub open spec fn filled(t: Template, id: Seq<char>) -> Shape {
    match t {
        Template::Fixed(s) => s,
        Template::Result { position, call_id, outcome } => in_step(
            PayloadView::ToolResult { call_id, invocation_id: invocation_name(id), outcome },
            position,
        ),
        Template::Dispatch { position, call_id, provider_id, attempt, idempotency_key } => in_step(
            PayloadView::ToolDispatched {
                call_id,
                invocation_id: invocation_name(id),
                provider_id,
                attempt,
                idempotency_key,
            },
            position,
        ),
        Template::Approval { position, call_id, reason, risk } => in_step(
            PayloadView::ApprovalRequested {
                approval_id: approval_name(id),
                call_id,
                reason,
                risk,
            },
            position,
        ),
        Template::Assistant { position, request_id, source, content, usage } => in_step(
            PayloadView::AssistantMessage {
                request_id,
                message: MessageView {
                    id: assistant_name(id),
                    role: Role::Assistant,
                    source,
                    content,
                },
                usage,
            },
            position,
        ),
    }
}

/// Whether a draft says what a template says.
pub open spec fn fits_one(d: NewSessionEvent, t: Template) -> bool {
    shape(d) == filled(t, d.event_id@)
}

/// Whether drafts say what templates say, one by one.
pub open spec fn fits(drafts: Seq<NewSessionEvent>, templates: Seq<Template>) -> bool {
    &&& drafts.len() == templates.len()
    &&& forall|i: int| 0 <= i < drafts.len() ==> #[trigger] fits_one(drafts[i], templates[i])
}

/// Whether the identifier and the time of a draft came from `source`.
pub open spec fn drawn<E: AgentEventSource>(source: &E, d: NewSessionEvent) -> bool {
    &&& call_ensures(E::next_event_id, (source,), d.event_id)
    &&& call_ensures(E::now, (source,), d.timestamp)
}

/// Whether the identifiers and the times of all drafts came from `source`.
pub open spec fn all_drawn<E: AgentEventSource>(
    source: &E,
    drafts: Seq<NewSessionEvent>,
) -> bool {
    forall|i: int| 0 <= i < drafts.len() ==> drawn(source, #[trigger] drafts[i])
}

/// Templates that are the same whatever the identifiers are.
pub open spec fn fixed(s: Seq<Shape>) -> Seq<Template> {
    s.map_values(|x: Shape| Template::Fixed(x))
}

/// One more draft that fits.
pub proof fn lemma_fits_push(
    drafts: Seq<NewSessionEvent>,
    templates: Seq<Template>,
    d: NewSessionEvent,
    t: Template,
)
    requires
        fits(drafts, templates),
        fits_one(d, t),
    ensures
        fits(drafts.push(d), templates.push(t)),
{
    assert forall|i: int| 0 <= i < drafts.push(d).len() implies #[trigger] fits_one(
        drafts.push(d)[i],
        templates.push(t)[i],
    ) by {
        if i < drafts.len() {
            assert(fits_one(drafts[i], templates[i]));
        }
    }
}

/// Two rows of drafts that fit, in a row.
pub proof fn lemma_fits_append(
    a: Seq<NewSessionEvent>,
    s: Seq<Template>,
    b: Seq<NewSessionEvent>,
    t: Seq<Template>,
)
    requires
        fits(a, s),
        fits(b, t),
    ensures
        fits(a + b, s + t),
{
    assert forall|i: int| 0 <= i < (a + b).len() implies #[trigger] fits_one(
        (a + b)[i],
        (s + t)[i],
    ) by {
        if i < a.len() {
            assert(fits_one(a[i], s[i]));
        } else {
            assert(fits_one(b[i - a.len()], t[i - a.len()]));
        }
    }
}

pub open spec fn step_ended(reason: StepEndReason, position: StepPosition) -> Shape {
    in_step(PayloadView::StepEnded { reason }, position)
}

pub open spec fn turn_ended(reason: TurnEndReason, turn: TurnNo) -> Shape {
    in_turn(PayloadView::TurnEnded { reason }, turn)
}

/// A draft outside any turn.
pub fn free_draft<E: AgentEventSource>(source: &E, payload: SessionEventPayload) -> (r:
    NewSessionEvent)
    ensures
        shape(r) == outside_turns(payload@),
        drawn(source, r),
{
    NewSessionEvent::new(source.next_event_id(), source.now(), payload)
}

/// A draft inside a step.
pub fn step_draft<E: AgentEventSource>(
    source: &E,
    payload: SessionEventPayload,
    position: StepPosition,
) -> (r: NewSessionEvent)
    ensures
        shape(r) == in_step(payload@, position),
        drawn(source, r),
{
    free_draft(source, payload).in_step(position.turn, position.step)
}

/// A draft inside a turn, outside any step.
pub fn turn_draft<E: AgentEventSource>(
    source: &E,
    payload: SessionEventPayload,
    turn: TurnNo,
) -> (r: NewSessionEvent)
    ensures
        shape(r) == in_turn(payload@, turn),
        drawn(source, r),
{
    free_draft(source, payload).in_turn(turn)
}

/// A draft inside a step, under an identifier that was drawn before.
pub fn named_draft<E: AgentEventSource>(
    event_id: EventId,
    source: &E,
    payload: SessionEventPayload,
    position: StepPosition,
) -> (r: NewSessionEvent)
    ensures
        shape(r) == in_step(payload@, position),
        r.event_id == event_id,
        call_ensures(E::now, (source,), r.timestamp),
{
    NewSessionEvent::new(event_id, source.now(), payload).in_step(position.turn, position.step)
}

fn prefixed(prefix: &str, text: &str) -> (r: Identifier)
    requires
        prefix@.len() > 0,
    ensures
        r@ == prefix@ + text@,
{
    Identifier::new(concat2(prefix, text).as_str()).unwrap()
}

pub fn invocation_id_from_event(event_id: &EventId) -> (r: InvocationId)
    ensures
        r@ == invocation_name(event_id@),
{
    proof {
        reveal_strlit("inv:tool:");
    }
    prefixed("inv:tool:", event_id.as_str())
}

pub fn request_id_from_event(event_id: &EventId) -> (r: RequestId)
    ensures
        r@ == request_name(event_id@),
{
    proof {
        reveal_strlit("req:model:");
    }
    prefixed("req:model:", event_id.as_str())
}

pub fn message_id_from_event(event_id: &EventId) -> (r: MessageId)
    ensures
        r@ == assistant_name(event_id@),
{
    proof {
        reveal_strlit("msg:model:");
    }
    prefixed("msg:model:", event_id.as_str())
}

pub fn approval_id_from_event(event_id: &EventId) -> (r: ApprovalId)
    ensures
        r@ == approval_name(event_id@),
{
    proof {
        reveal_strlit("apr:tool:");
    }
    prefixed("apr:tool:", event_id.as_str())
}

pub fn idempotency_key_for_call(session_id: &SessionId, call_id: &ToolCallId) -> (r: IdempotencyKey)
    ensures
        r@ == call_key(session_id@, call_id@),
{
    proof {
        reveal_strlit("idem:tool:");
    }
    let text = concat4("idem:tool:", session_id.as_str(), ":", call_id.as_str());
    Identifier::new(text.as_str()).unwrap()
}

/// Different events name different requests, messages, invocations and approvals.
pub proof fn law_names_are_distinct(a: Seq<char>, b: Seq<char>)
    requires
        a != b,
    ensures
        request_name(a) != request_name(b),
        assistant_name(a) != assistant_name(b),
        invocation_name(a) != invocation_name(b),
        approval_name(a) != approval_name(b),
{
    lemma_prefix_keeps_difference("req:model:"@, a, b);
    lemma_prefix_keeps_difference("msg:model:"@, a, b);
    lemma_prefix_keeps_difference("inv:tool:"@, a, b);
    lemma_prefix_keeps_difference("apr:tool:"@, a, b);
}

proof fn lemma_prefix_keeps_difference(p: Seq<char>, a: Seq<char>, b: Seq<char>)
    requires
        a != b,
    ensures
        p + a != p + b,
{
    if p + a == p + b {
        assert((p + a).skip(p.len() as int) =~= a);
        assert((p + b).skip(p.len() as int) =~= b);
    }
}

/// What is named after an event has the name of the event behind the kind of what is named;
/// the key of a call is made of its session and its own identifier.
pub proof fn law_names_say_what_they_name(event: Seq<char>, session: Seq<char>, call: Seq<char>)
    ensures
        invocation_name(event) == "inv:tool:"@ + event,
        request_name(event) == "req:model:"@ + event,
        assistant_name(event) == "msg:model:"@ + event,
        approval_name(event) == "apr:tool:"@ + event,
        call_key(session, call) == "idem:tool:"@ + session + ":"@ + call,
{
}

} // verus!
