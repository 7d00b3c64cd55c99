//! Model requests: making one, and recording what came of it.

use vstd::prelude::*;

use crate::agent::actor::append::AgentActor;
use crate::agent::drafts::{
    all_drawn, fits, fits_one, fixed, message_id_from_event, named_draft, request_id_from_event,
    request_name, step_draft, step_ended, turn_draft, turn_ended, Template,
};
use crate::agent::error::{mutation, AgentError, AgentErrorView};
use crate::agent::event_source::AgentEventSource;
use crate::agent::state::{ActiveAgentOperation, AgentState};
use crate::agent::tool_runtime::{offered, AgentToolRuntime};
use crate::llm::assembler::LlmStreamOutcome;
use crate::llm::request::{
    clone_tools, request_error_text, request_fault, ModelRequest, ModelRequestConfig,
    ModelRequestView, ModelToolSpec,
};
use crate::llm::stream::FinishReason;
use crate::message::{
    clone_messages, content_view, messages_view, opt_usage, BlobRef, ContentBlock, Message,
    MessageSource, MessageSourceView, PortableError, PortableErrorView, TokenUsage,
};
use crate::session::{
    in_step, lemma_shapes_push, shape, shapes, AssistantMessage, ModelFailed, ModelRequested,
    NewSessionEvent, PayloadView, SessionEvent, SessionEventPayload, Shape, StepEndReason,
    StepPosition, TurnEndReason,
};
use crate::text::{concat4, decimal, decimal_text, opt_text};
use crate::tools::ToolRegistration;
use crate::types::{ErrorCode, EventId, RequestId, Role};

verus! {

/// A model request that is ready to be made.
#[derive(Debug)]
pub struct PreparedModelRequest {
    /// The identifier of the event that will record the request.
    pub event_id: EventId,
    pub position: StepPosition,
    pub request: ModelRequest,
    pub attempt: u32,
}

/// What came of a model request.
#[derive(Debug)]
pub struct LlmCompletion {
    pub position: StepPosition,
    pub request_id: RequestId,
    pub outcome: Result<LlmStreamOutcome, PortableError>,
}

/// The number of the last model request of a step.
pub open spec fn last_attempt(history: Seq<SessionEvent>, position: StepPosition) -> Option<u32>
    decreases history.len(),
{
    if history.len() == 0 {
        None
    } else {
        let d = history.last().draft;
        if d.turn == Some(position.turn) && d.step == Some(position.step)
            && d.payload is ModelRequested {
            Some(d.payload->ModelRequested_0.attempt)
        } else {
            last_attempt(history.drop_last(), position)
        }
    }
}

/// The tools that a request offers: those of the attached runtime, where one is
/// attached.
pub open spec fn request_tools(
    config: ModelRequestConfig,
    tools: Option<&AgentToolRuntime>,
) -> Seq<ModelToolSpec> {
    match tools {
        Some(runtime) => runtime.tools().map_values(|t: ToolRegistration| offered(t)),
        None => config.tools@,
    }
}

/// Whether `r` is the request that the agent makes at `position`.
pub open spec fn is_prepared_request(
    a: AgentActor,
    config: ModelRequestConfig,
    tools: Option<&AgentToolRuntime>,
    position: StepPosition,
    r: Result<PreparedModelRequest, AgentError>,
) -> bool {
    let offer = request_tools(config, tools);
    if a.state.active_operation is Some {
        r matches Err(e) && e@ == mutation(
            "attempted to start a model operation while another external operation is active"@,
        )
    } else if last_attempt(a.history@, position) == Some(u32::MAX) {
        r matches Err(e) && e@ == (AgentErrorView::InvalidModelRequest {
            message: "model request attempt overflow"@,
        })
    } else if let Some(fault) = request_fault(config.model@, offer, config.options) {
        r matches Err(e) && e@ == (AgentErrorView::InvalidModelRequest {
            message: request_error_text(fault),
        })
    } else {
        &&& r matches Ok(p)
        &&& p.position == position
        &&& p.attempt == (match last_attempt(a.history@, position) {
            Some(n) => n + 1,
            None => 1,
        })
        &&& p.request@ == (ModelRequestView {
            request_id: request_name(p.event_id@),
            session_id: a.state.session_id@,
            provider: config.provider@,
            model: config.model@,
            system: opt_text(config.system),
            messages: messages_view(a.state.projection.model_messages@),
            tools: offer,
            options: config.options,
        })
    }
}

/// Whether the session already knows the end of a model request.
pub open spec fn request_ended(history: Seq<SessionEvent>, request_id: Seq<char>) -> bool {
    exists|i: int| 0 <= i < history.len() && ends_request(#[trigger] history[i], request_id)
}

/// Whether an event is the end of a model request.
pub open spec fn ends_request(e: SessionEvent, request_id: Seq<char>) -> bool {
    match e.draft.payload {
        SessionEventPayload::AssistantMessage(d) => d.request_id@ == request_id,
        SessionEventPayload::ModelFailed(d) => d.request_id@ == request_id,
        _ => false,
    }
}

/// Whether content holds a tool call.
pub open spec fn has_tool_call(content: Seq<ContentBlock>) -> bool {
    exists|i: int| 0 <= i < content.len() && (#[trigger] content[i]) is ToolCall
}

/// What a failed request writes: the failure, and the end of step and turn.
pub open spec fn failure_shapes(
    position: StepPosition,
    request_id: Seq<char>,
    failure: PortableErrorView,
    cancelled: bool,
) -> Seq<Shape> {
    seq![
        in_step(PayloadView::ModelFailed { request_id, failure }, position),
        step_ended(
            if cancelled {
                StepEndReason::Cancelled
            } else {
                StepEndReason::ModelError
            },
            position,
        ),
        turn_ended(
            if cancelled {
                TurnEndReason::Cancelled
            } else {
                TurnEndReason::Error
            },
            position.turn,
        ),
    ]
}

/// What follows an answer: nothing where tools are called, the end of the step
/// otherwise, and of the turn where the answer was cut off.
pub open spec fn answer_endings(
    position: StepPosition,
    calls_tools: bool,
    reason: FinishReason,
) -> Seq<Shape> {
    if calls_tools {
        Seq::empty()
    } else if reason == FinishReason::Completed {
        seq![step_ended(StepEndReason::Completed, position)]
    } else {
        seq![
            step_ended(StepEndReason::MaxTokens, position),
            turn_ended(TurnEndReason::MaxTokens, position.turn),
        ]
    }
}

pub open spec fn unexpected_model(request_id: Seq<char>, message: Seq<char>) -> AgentErrorView {
    AgentErrorView::UnexpectedModelCompletion { request_id, message }
}

/// What an outcome writes.
pub open spec fn outcome_templates(
    config: ModelRequestConfig,
    position: StepPosition,
    request_id: Seq<char>,
    outcome: Result<LlmStreamOutcome, PortableError>,
) -> Result<Seq<Template>, AgentErrorView> {
    match outcome {
        Ok(LlmStreamOutcome::Assistant { content, usage, finish_reason }) => {
            if finish_reason == FinishReason::Error || finish_reason == FinishReason::Cancelled {
                Err(
                    unexpected_model(
                        request_id,
                        "stream assembler returned an assistant outcome with a failure finish reason"@,
                    ),
                )
            } else {
                Ok(
                    seq![
                        Template::Assistant {
                            position,
                            request_id,
                            source: MessageSourceView::Model {
                                provider: config.provider@,
                                model: config.model@,
                            },
                            content: content_view(content@),
                            usage: opt_usage(usage),
                        },
                    ] + fixed(answer_endings(position, has_tool_call(content@), finish_reason)),
                )
            }
        },
        Ok(LlmStreamOutcome::Failure { failure, finish_reason }) => {
            if finish_reason == FinishReason::Completed || finish_reason
                == FinishReason::MaxTokens {
                Err(
                    unexpected_model(
                        request_id,
                        "failure outcome carried a non-failure finish reason"@,
                    ),
                )
            } else {
                Ok(
                    fixed(
                        failure_shapes(
                            position,
                            request_id,
                            failure@,
                            finish_reason == FinishReason::Cancelled,
                        ),
                    ),
                )
            }
        },
        Err(failure) => Ok(
            fixed(
                failure_shapes(
                    position,
                    request_id,
                    failure@,
                    failure.code == ErrorCode::Cancelled,
                ),
            ),
        ),
    }
}

/// What a completion leads to.
pub enum CompletionView {
    /// The session knows the end of the operation already.
    Stale,
    /// These events are written and the operation is over.
    Record(Seq<Template>),
    Refused(AgentErrorView),
}

/// What a completed model request leads to.
pub open spec fn model_completion(
    a: AgentActor,
    config: Option<&ModelRequestConfig>,
    completion: LlmCompletion,
) -> CompletionView {
    let id = completion.request_id@;
    if request_ended(a.history@, id) {
        CompletionView::Stale
    } else {
        match a.state.active_operation {
            Some(ActiveAgentOperation::Model { position, request_id, attempt }) => {
                if position != completion.position || request_id@ != id {
                    CompletionView::Refused(
                        unexpected_model(
                            id,
                            "active model operation is request "@ + request_id@ + " at turn "@
                                + decimal(position.turn@ as nat) + ", step "@ + decimal(
                                position.step@ as nat,
                            ),
                        ),
                    )
                } else if config is None {
                    CompletionView::Refused(
                        unexpected_model(
                            id,
                            "completion arrived without an attached LLM runtime"@,
                        ),
                    )
                } else {
                    match outcome_templates(*config->0, position, id, completion.outcome) {
                        Ok(templates) => CompletionView::Record(templates),
                        Err(e) => CompletionView::Refused(e),
                    }
                }
            },
            _ => CompletionView::Refused(unexpected_model(id, "no model operation is active"@)),
        }
    }
}

/// Whether `r` is what a completion leads to.
pub open spec fn is_completion(
    v: CompletionView,
    r: Result<Option<Vec<NewSessionEvent>>, AgentError>,
) -> bool {
    match v {
        CompletionView::Stale => r matches Ok(None),
        CompletionView::Record(templates) => r matches Ok(Some(drafts)) && fits(
            drafts@,
            templates,
        ),
        CompletionView::Refused(e) => r matches Err(x) && x@ == e,
    }
}

fn calls_tools(content: &Vec<ContentBlock>) -> (r: bool)
    ensures
        r == has_tool_call(content@),
{
    let mut i: usize = 0;
    while i < content.len()
        invariant
            i <= content@.len(),
            forall|j: int| 0 <= j < i ==> !((#[trigger] content@[j]) is ToolCall),
        decreases content@.len() - i,
    {
        if matches!(&content[i], ContentBlock::ToolCall { .. }) {
            return true;
        }
        i = i + 1;
    }
    false
}

fn unexpected(request_id: RequestId, message: &str) -> (r: AgentError)
    ensures
        r@ == unexpected_model(request_id@, message@),
{
    AgentError::UnexpectedModelCompletion { request_id, message: message.to_owned() }
}

impl AgentActor {
    fn next_model_attempt(&self, position: StepPosition) -> (r: Result<u32, AgentError>)
        ensures
            match r {
                Ok(n) => match last_attempt(self.history@, position) {
                    Some(last) => last < u32::MAX && n == last + 1,
                    None => n == 1,
                },
                Err(e) => last_attempt(self.history@, position) == Some(u32::MAX) && e@ == (
                AgentErrorView::InvalidModelRequest {
                    message: "model request attempt overflow"@,
                }),
            },
    {
        let mut i: usize = self.history.len();
        assert(self.history@.take(i as int) =~= self.history@);
        while i > 0
            invariant
                i <= self.history@.len(),
                last_attempt(self.history@, position) == last_attempt(
                    self.history@.take(i as int),
                    position,
                ),
            decreases i,
        {
            let draft = &self.history[i - 1].draft;
            assert(self.history@.take(i as int).drop_last() =~= self.history@.take(i - 1));
            let here = match (draft.turn, draft.step) {
                (Some(turn), Some(step)) => turn == position.turn && step == position.step,
                _ => false,
            };
            if here {
                if let SessionEventPayload::ModelRequested(data) = &draft.payload {
                    if data.attempt == u32::MAX {
                        return Err(
                            AgentError::InvalidModelRequest {
                                message: "model request attempt overflow".to_owned(),
                            },
                        );
                    }
                    return Ok(data.attempt + 1);
                }
            }
            i = i - 1;
        }
        Ok(1)
    }

    /// Makes the model request for the open step at `position`.
    pub fn prepare_model_request<E: AgentEventSource>(
        &self,
        source: &E,
        config: &ModelRequestConfig,
        tools: Option<&AgentToolRuntime>,
        position: StepPosition,
    ) -> (r: Result<PreparedModelRequest, AgentError>)
        ensures
            is_prepared_request(*self, *config, tools, position, r),
            r matches Ok(p) ==> call_ensures(E::next_event_id, (source,), p.event_id),
    {
        if self.state.active_operation.is_some() {
            return Err(
                AgentError::mutation(
                    "attempted to start a model operation while another external operation is active".to_owned(),
                ),
            );
        }
        let attempt = match self.next_model_attempt(position) {
            Ok(attempt) => attempt,
            Err(error) => {
                return Err(error);
            },
        };
        let event_id = source.next_event_id();
        let request_id = request_id_from_event(&event_id);
        let offer = match tools {
            Some(runtime) => runtime.model_tool_specs(),
            None => clone_tools(&config.tools),
        };
        let with_tools = config.with_tools(offer);
        let messages = clone_messages(&self.state.projection.model_messages);
        match with_tools.build(request_id, self.state.session_id.clone(), messages) {
            Err(error) => Err(AgentError::InvalidModelRequest { message: error.message() }),
            Ok(request) => Ok(PreparedModelRequest { event_id, position, request, attempt }),
        }
    }

    /// Drafts the record of a prepared request whose exact content is stored as
    /// `snapshot`.
    pub fn model_requested_draft<E: AgentEventSource>(
        &self,
        source: &E,
        prepared: &PreparedModelRequest,
        snapshot: BlobRef,
    ) -> (r: NewSessionEvent)
        ensures
            r.event_id == prepared.event_id,
            call_ensures(E::now, (source,), r.timestamp),
            shape(r) == in_step(
                PayloadView::ModelRequested {
                    request_id: prepared.request.request_id@,
                    provider: prepared.request.provider@,
                    model: prepared.request.model@,
                    history_through_seq: self.state.expected_seq,
                    request_snapshot: snapshot@,
                    attempt: prepared.attempt,
                },
                prepared.position,
            ),
    {
        named_draft(
            prepared.event_id.clone(),
            source,
            SessionEventPayload::ModelRequested(
                ModelRequested {
                    request_id: prepared.request.request_id.clone(),
                    provider: prepared.request.provider.clone(),
                    model: prepared.request.model.clone(),
                    history_through_seq: self.state.expected_seq,
                    request_snapshot: snapshot,
                    attempt: prepared.attempt,
                },
            ),
            prepared.position,
        )
    }

    /// Marks that the prepared request is under way.
    pub fn begin_model_operation(&mut self, prepared: &PreparedModelRequest)
        ensures
            *final(self) == (AgentActor {
                state: AgentState {
                    active_operation: Some(
                        ActiveAgentOperation::Model {
                            position: prepared.position,
                            request_id: prepared.request.request_id,
                            attempt: prepared.attempt,
                        },
                    ),
                    ..old(self).state
                },
                ..*old(self)
            }),
    {
        self.state.active_operation = Some(
            ActiveAgentOperation::Model {
                position: prepared.position,
                request_id: prepared.request.request_id.clone(),
                attempt: prepared.attempt,
            },
        );
    }

    /// Marks that no operation is under way any more.
    pub fn end_operation(&mut self)
        ensures
            *final(self) == (AgentActor {
                state: AgentState { active_operation: None, ..old(self).state },
                ..*old(self)
            }),
    {
        self.state.active_operation = None;
    }

    /// Whether the session already knows the end of a model request.
    pub fn model_request_ended(&self, request_id: &RequestId) -> (r: bool)
        ensures
            r == request_ended(self.history@, request_id@),
    {
        let mut i: usize = 0;
        while i < self.history.len()
            invariant
                i <= self.history@.len(),
                forall|j: int|
                    0 <= j < i ==> !ends_request(#[trigger] self.history@[j], request_id@),
            decreases self.history@.len() - i,
        {
            let ended = match &self.history[i].draft.payload {
                SessionEventPayload::AssistantMessage(d) => d.request_id.same(request_id),
                SessionEventPayload::ModelFailed(d) => d.request_id.same(request_id),
                _ => false,
            };
            if ended {
                assert(ends_request(self.history@[i as int], request_id@));
                return true;
            }
            i = i + 1;
        }
        false
    }

    /// Drafts what a completed model request writes. `None` means that the
    /// completion comes too late and nothing is written; otherwise the operation
    /// is over once the drafts are written.
    pub fn llm_completion_drafts<E: AgentEventSource>(
        &self,
        source: &E,
        config: Option<&ModelRequestConfig>,
        completion: LlmCompletion,
    ) -> (r: Result<Option<Vec<NewSessionEvent>>, AgentError>)
        ensures
            is_completion(model_completion(*self, config, completion), r),
            r matches Ok(Some(drafts)) ==> all_drawn(source, drafts@),
    {
        if self.model_request_ended(&completion.request_id) {
            return Ok(None);
        }
        let (position, request_id) = match &self.state.active_operation {
            Some(ActiveAgentOperation::Model { position, request_id, .. }) => {
                (*position, request_id)
            },
            _ => {
                return Err(unexpected(completion.request_id, "no model operation is active"));
            },
        };
        if position != completion.position || !request_id.same(&completion.request_id) {
            let mut text = concat4(
                "active model operation is request ",
                request_id.as_str(),
                " at turn ",
                decimal_text(position.turn.get()).as_str(),
            );
            text.append(", step ");
            text.append(decimal_text(position.step.get()).as_str());
            return Err(
                AgentError::UnexpectedModelCompletion {
                    request_id: completion.request_id,
                    message: text,
                },
            );
        }
        let config = match config {
            Some(config) => config,
            None => {
                return Err(
                    unexpected(
                        completion.request_id,
                        "completion arrived without an attached LLM runtime",
                    ),
                );
            },
        };
        match completion.outcome {
            Ok(LlmStreamOutcome::Assistant { content, usage, finish_reason }) => {
                let has_calls = calls_tools(&content);
                let mut drafts: Vec<NewSessionEvent> = Vec::new();
                let event_id = source.next_event_id();
                let ghost first = Template::Assistant {
                    position,
                    request_id: completion.request_id@,
                    source: MessageSourceView::Model {
                        provider: config.provider@,
                        model: config.model@,
                    },
                    content: content_view(content@),
                    usage: opt_usage(usage),
                };
                let message = Message {
                    id: message_id_from_event(&event_id),
                    role: Role::Assistant,
                    source: MessageSource::Model {
                        provider: config.provider.clone(),
                        model: config.model.clone(),
                    },
                    content,
                };
                if finish_reason == FinishReason::Error || finish_reason
                    == FinishReason::Cancelled {
                    return Err(
                        unexpected(
                            completion.request_id,
                            "stream assembler returned an assistant outcome with a failure finish reason",
                        ),
                    );
                }
                drafts.push(
                    named_draft(
                        event_id,
                        source,
                        SessionEventPayload::AssistantMessage(
                            AssistantMessage {
                                request_id: completion.request_id,
                                message,
                                usage,
                            },
                        ),
                        position,
                    ),
                );
                assert(fits_one(drafts@[0], first));
                if !has_calls {
                    let (step_reason, ends_turn) = match finish_reason {
                        FinishReason::Completed => (StepEndReason::Completed, false),
                        _ => (StepEndReason::MaxTokens, true),
                    };
                    drafts.push(
                        step_draft(
                            source,
                            SessionEventPayload::StepEnded { reason: step_reason },
                            position,
                        ),
                    );
                    if ends_turn {
                        drafts.push(
                            turn_draft(
                                source,
                                SessionEventPayload::TurnEnded { reason: TurnEndReason::MaxTokens },
                                position.turn,
                            ),
                        );
                    }
                }
                Ok(Some(drafts))
            },
            Ok(LlmStreamOutcome::Failure { failure, finish_reason }) => {
                match finish_reason {
                    FinishReason::Error => Ok(
                        Some(
                            Self::model_failure_drafts(
                                source,
                                position,
                                completion.request_id,
                                failure,
                                false,
                            ),
                        ),
                    ),
                    FinishReason::Cancelled => Ok(
                        Some(
                            Self::model_failure_drafts(
                                source,
                                position,
                                completion.request_id,
                                failure,
                                true,
                            ),
                        ),
                    ),
                    FinishReason::Completed | FinishReason::MaxTokens => Err(
                        unexpected(
                            completion.request_id,
                            "failure outcome carried a non-failure finish reason",
                        ),
                    ),
                }
            },
            Err(failure) => {
                let cancelled = failure.code == ErrorCode::Cancelled;
                Ok(
                    Some(
                        Self::model_failure_drafts(
                            source,
                            position,
                            completion.request_id,
                            failure,
                            cancelled,
                        ),
                    ),
                )
            },
        }
    }

    /// Drafts the failure of a request and the end of its step and turn.
    pub fn model_failure_drafts<E: AgentEventSource>(
        source: &E,
        position: StepPosition,
        request_id: RequestId,
        failure: PortableError,
        cancelled: bool,
    ) -> (r: Vec<NewSessionEvent>)
        ensures
            shapes(r@) == failure_shapes(position, request_id@, failure@, cancelled),
            fits(r@, fixed(failure_shapes(position, request_id@, failure@, cancelled))),
            all_drawn(source, r@),
    {
        broadcast use lemma_shapes_push;

        let ghost wanted = failure_shapes(position, request_id@, failure@, cancelled);
        let (step_reason, turn_reason) = if cancelled {
            (StepEndReason::Cancelled, TurnEndReason::Cancelled)
        } else {
            (StepEndReason::ModelError, TurnEndReason::Error)
        };
        let mut drafts: Vec<NewSessionEvent> = Vec::new();
        drafts.push(
            step_draft(
                source,
                SessionEventPayload::ModelFailed(ModelFailed { request_id, failure }),
                position,
            ),
        );
        drafts.push(
            step_draft(source, SessionEventPayload::StepEnded { reason: step_reason }, position),
        );
        drafts.push(
            turn_draft(
                source,
                SessionEventPayload::TurnEnded { reason: turn_reason },
                position.turn,
            ),
        );
        assert(shapes(drafts@) =~= wanted);
        proof {
            lemma_fixed(drafts@, wanted);
        }
        drafts
    }
}

/// Drafts with given shapes fit the fixed templates of these shapes.
pub proof fn lemma_fixed(drafts: Seq<NewSessionEvent>, s: Seq<Shape>)
    requires
        shapes(drafts) == s,
    ensures
        fits(drafts, fixed(s)),
{
    assert forall|i: int| 0 <= i < drafts.len() implies #[trigger] fits_one(
        drafts[i],
        fixed(s)[i],
    ) by {
        assert(shapes(drafts)[i] == shape(drafts[i]));
    }
}

/// A completion that comes after the session knows the end of its request
/// changes nothing, whatever operation is under way.
pub proof fn law_late_model_completions_are_ignored(
    a: AgentActor,
    config: Option<&ModelRequestConfig>,
    completion: LlmCompletion,
)
    requires
        request_ended(a.history@, completion.request_id@),
    ensures
        model_completion(a, config, completion) is Stale,
{
}

/// A recorded failure ends the request with its step and turn.
pub proof fn law_failures_end_step_and_turn(
    position: StepPosition,
    request_id: Seq<char>,
    failure: PortableErrorView,
    cancelled: bool,
)
    ensures
        ({
            let s = failure_shapes(position, request_id, failure, cancelled);
            &&& s.len() == 3
            &&& s[0].payload == (PayloadView::ModelFailed { request_id, failure })
            &&& s[1].payload is StepEnded
            &&& s[2].payload is TurnEnded
        }),
{
}

/// The number of the last request of a step is that of the latest event that records a
/// request of exactly this step.
pub proof fn law_last_attempt_is_the_latest(
    history: Seq<SessionEvent>,
    position: StepPosition,
    k: int,
)
    requires
        -1 <= k < history.len(),
        k >= 0 ==> is_request_of(history[k], position),
        forall|i: int| k < i < history.len() ==> !is_request_of(#[trigger] history[i], position),
    ensures
        k < 0 ==> last_attempt(history, position) is None,
        k >= 0 ==> (history[k].draft.payload@ matches PayloadView::ModelRequested { attempt, .. }
            && last_attempt(history, position) == Some(attempt)),
    decreases history.len(),
{
    if history.len() > 0 {
        let rest = history.drop_last();
        if k < history.len() - 1 {
            assert(!is_request_of(history[history.len() - 1], position));
            assert forall|i: int| k < i < rest.len() implies !is_request_of(
                #[trigger] rest[i],
                position,
            ) by {
                assert(rest[i] == history[i]);
            }
            law_last_attempt_is_the_latest(rest, position, k);
        }
    }
}

/// Whether an event records a model request of the step at `position`.
pub open spec fn is_request_of(e: SessionEvent, position: StepPosition) -> bool {
    &&& e.draft.turn == Some(position.turn)
    &&& e.draft.step == Some(position.step)
    &&& e.draft.payload@ is ModelRequested
}

/// A request is made only while nothing else is under way. It asks the configured model of
/// the configured provider, with the configured instructions and limit, about all messages
/// of the session; it offers the tools of the attached runtime, or else the configured ones;
/// and it counts on from the last request of its step.
pub proof fn law_requests_ask_what_is_configured(
    a: AgentActor,
    config: ModelRequestConfig,
    tools: Option<&AgentToolRuntime>,
    position: StepPosition,
    r: Result<PreparedModelRequest, AgentError>,
)
    requires
        is_prepared_request(a, config, tools, position, r),
    ensures
        a.state.active_operation is Some ==> r is Err,
        r matches Ok(p) ==> {
            &&& a.state.active_operation is None
            &&& p.position == position
            &&& p.request.request_id@ == "req:model:"@ + p.event_id@
            &&& p.request.session_id@ == a.state.session_id@
            &&& p.request.provider@ == config.provider@
            &&& p.request.model@ == config.model@ && config.model@.len() > 0
            &&& opt_text(p.request.system) == opt_text(config.system)
            &&& p.request.options == config.options && config.options.max_output_tokens != Some(
                0u32,
            )
            &&& messages_view(p.request.messages@) == messages_view(
                a.state.projection.model_messages@,
            )
            &&& match tools {
                None => p.request.tools@ == config.tools@,
                Some(runtime) => {
                    &&& p.request.tools@.len() == runtime.tools().len()
                    &&& forall|i: int|
                        0 <= i < runtime.tools().len() ==> {
                            &&& (#[trigger] p.request.tools@[i]).name
                                == runtime.tools()[i].definition.name
                            &&& p.request.tools@[i].description
                                == runtime.tools()[i].definition.description
                            &&& p.request.tools@[i].input_schema
                                == runtime.tools()[i].definition.input_schema
                        }
                },
            }
            &&& last_attempt(a.history@, position) is None ==> p.attempt == 1
            &&& last_attempt(a.history@, position) matches Some(n) ==> p.attempt == n + 1
        },
        a.state.active_operation is None && last_attempt(a.history@, position) != Some(u32::MAX)
            && request_fault(config.model@, request_tools(config, tools), config.options) is None
            ==> r is Ok,
{
    crate::llm::request::law_request_refusals(
        config.model@,
        request_tools(config, tools),
        config.options,
    );
}

/// The session knows the end of a request if and only if an event is its answer or its
/// failure.
pub proof fn law_ends_of_requests_are_found(history: Seq<SessionEvent>, request_id: Seq<char>)
    ensures
        request_ended(history, request_id) <==> exists|i: int|
            0 <= i < history.len() && match (#[trigger] history[i]).draft.payload@ {
                PayloadView::AssistantMessage { request_id: id, .. } => id == request_id,
                PayloadView::ModelFailed { request_id: id, .. } => id == request_id,
                _ => false,
            },
{
    if request_ended(history, request_id) {
        let i = choose|i: int|
            0 <= i < history.len() && ends_request(#[trigger] history[i], request_id);
        assert(match history[i].draft.payload@ {
            PayloadView::AssistantMessage { request_id: id, .. } => id == request_id,
            PayloadView::ModelFailed { request_id: id, .. } => id == request_id,
            _ => false,
        });
    } else {
        assert forall|i: int| 0 <= i < history.len() implies !(match (
        #[trigger] history[i]).draft.payload@ {
            PayloadView::AssistantMessage { request_id: id, .. } => id == request_id,
            PayloadView::ModelFailed { request_id: id, .. } => id == request_id,
            _ => false,
        }) by {
            assert(!ends_request(history[i], request_id));
        }
    }
}

/// Whether `completion` is the end of the request that is under way, and nothing about it
/// is recorded yet.
pub open spec fn is_awaited(a: AgentActor, completion: LlmCompletion) -> bool {
    &&& !request_ended(a.history@, completion.request_id@)
    &&& a.state.active_operation matches Some(ActiveAgentOperation::Model { position, request_id, .. })
    &&& position == completion.position
    &&& request_id@ == completion.request_id@
}

/// A completion that nobody waits for is refused.
pub proof fn law_unawaited_model_completions_are_refused(
    a: AgentActor,
    config: Option<&ModelRequestConfig>,
    completion: LlmCompletion,
    r: Result<Option<Vec<NewSessionEvent>>, AgentError>,
)
    requires
        is_completion(model_completion(a, config, completion), r),
        !request_ended(a.history@, completion.request_id@),
        !is_awaited(a, completion) || config is None,
    ensures
        r matches Err(e) && (e@ matches AgentErrorView::UnexpectedModelCompletion {
            request_id,
            ..
        } && request_id == completion.request_id@),
{
}

/// An answer is recorded as it came, under the request that it answers and in the name of
/// the model that gave it. If it calls tools the step goes on; otherwise the step ends as
/// completed, and an answer that was cut off ends step and turn.
pub proof fn law_answers_are_recorded(
    a: AgentActor,
    config: &ModelRequestConfig,
    completion: LlmCompletion,
    r: Result<Option<Vec<NewSessionEvent>>, AgentError>,
    content: Vec<ContentBlock>,
    usage: Option<TokenUsage>,
    finish_reason: FinishReason,
)
    requires
        is_completion(model_completion(a, Some(config), completion), r),
        is_awaited(a, completion),
        completion.outcome == Ok::<LlmStreamOutcome, PortableError>(
            LlmStreamOutcome::Assistant { content, usage, finish_reason },
        ),
        finish_reason == FinishReason::Completed || finish_reason == FinishReason::MaxTokens,
    ensures
        r matches Ok(Some(drafts)) && {
            let position = completion.position;
            let first = drafts@[0];
            let calls = exists|i: int| 0 <= i < content@.len() && (#[trigger] content@[i])@ is ToolCall;
            let cut_off = finish_reason == FinishReason::MaxTokens;
            &&& drafts@.len() == (if calls {
                1int
            } else if cut_off {
                3
            } else {
                2
            })
            &&& first.payload@ matches PayloadView::AssistantMessage {
                request_id,
                message,
                usage: used,
            }
            &&& request_id == completion.request_id@
            &&& message.id == "msg:model:"@ + first.event_id@
            &&& message.role == Role::Assistant
            &&& message.source == (MessageSourceView::Model {
                provider: config.provider@,
                model: config.model@,
            })
            &&& message.content == content_view(content@)
            &&& used == opt_usage(usage)
            &&& first.turn == Some(position.turn) && first.step == Some(position.step)
            &&& !calls ==> {
                &&& drafts@[1].payload@ == (PayloadView::StepEnded {
                    reason: if cut_off {
                        StepEndReason::MaxTokens
                    } else {
                        StepEndReason::Completed
                    },
                })
                &&& drafts@[1].turn == Some(position.turn) && drafts@[1].step == Some(
                    position.step,
                )
            }
            &&& !calls && cut_off ==> {
                &&& drafts@[2].payload@ == (PayloadView::TurnEnded {
                    reason: TurnEndReason::MaxTokens,
                })
                &&& drafts@[2].turn == Some(position.turn) && drafts@[2].step is None
            }
        },
{
    let drafts = r->Ok_0->Some_0;
    let templates = outcome_templates(
        *config,
        completion.position,
        completion.request_id@,
        completion.outcome,
    )->Ok_0;
    if has_tool_call(content@) {
        let i = choose|i: int| 0 <= i < content@.len() && (#[trigger] content@[i]) is ToolCall;
        assert(content@[i]@ is ToolCall);
    } else {
        assert forall|i: int| 0 <= i < content@.len() implies !((
        #[trigger] content@[i])@ is ToolCall) by {
            assert(!(content@[i] is ToolCall));
        }
    }
    assert(fits_one(drafts@[0], templates[0]));
    if drafts@.len() > 1 {
        assert(fits_one(drafts@[1], templates[1]));
    }
    if drafts@.len() > 2 {
        assert(fits_one(drafts@[2], templates[2]));
    }
}

/// A failure is recorded as it came and ends step and turn: as cancelled if it was a
/// cancellation, and as an error otherwise.
pub proof fn law_failures_are_recorded(
    a: AgentActor,
    config: &ModelRequestConfig,
    completion: LlmCompletion,
    r: Result<Option<Vec<NewSessionEvent>>, AgentError>,
    failure: PortableError,
    cancelled: bool,
)
    requires
        is_completion(model_completion(a, Some(config), completion), r),
        is_awaited(a, completion),
        ({
            ||| completion.outcome == Err::<LlmStreamOutcome, PortableError>(failure) && cancelled
                == (failure.code == ErrorCode::Cancelled)
            ||| completion.outcome == Ok::<LlmStreamOutcome, PortableError>(
                LlmStreamOutcome::Failure { failure, finish_reason: FinishReason::Error },
            ) && !cancelled
            ||| completion.outcome == Ok::<LlmStreamOutcome, PortableError>(
                LlmStreamOutcome::Failure { failure, finish_reason: FinishReason::Cancelled },
            ) && cancelled
        }),
    ensures
        r matches Ok(Some(drafts)) && {
            let position = completion.position;
            &&& drafts@.len() == 3
            &&& drafts@[0].payload@ == (PayloadView::ModelFailed {
                request_id: completion.request_id@,
                failure: failure@,
            })
            &&& drafts@[0].turn == Some(position.turn) && drafts@[0].step == Some(position.step)
            &&& drafts@[1].payload@ == (PayloadView::StepEnded {
                reason: if cancelled {
                    StepEndReason::Cancelled
                } else {
                    StepEndReason::ModelError
                },
            })
            &&& drafts@[1].turn == Some(position.turn) && drafts@[1].step == Some(position.step)
            &&& drafts@[2].payload@ == (PayloadView::TurnEnded {
                reason: if cancelled {
                    TurnEndReason::Cancelled
                } else {
                    TurnEndReason::Error
                },
            })
            &&& drafts@[2].turn == Some(position.turn) && drafts@[2].step is None
        },
{
    let drafts = r->Ok_0->Some_0;
    let templates = outcome_templates(
        *config,
        completion.position,
        completion.request_id@,
        completion.outcome,
    )->Ok_0;
    assert(fits_one(drafts@[0], templates[0]));
    assert(fits_one(drafts@[1], templates[1]));
    assert(fits_one(drafts@[2], templates[2]));
}

/// An outcome whose reason contradicts it is refused.
pub proof fn law_contradictory_outcomes_are_refused(
    a: AgentActor,
    config: &ModelRequestConfig,
    completion: LlmCompletion,
    r: Result<Option<Vec<NewSessionEvent>>, AgentError>,
)
    requires
        is_completion(model_completion(a, Some(config), completion), r),
        is_awaited(a, completion),
    ensures
        completion.outcome matches Ok(LlmStreamOutcome::Assistant { finish_reason, .. }) ==> (
        finish_reason == FinishReason::Error || finish_reason == FinishReason::Cancelled) ==> r
            is Err,
        completion.outcome matches Ok(LlmStreamOutcome::Failure { finish_reason, .. }) ==> (
        finish_reason == FinishReason::Completed || finish_reason == FinishReason::MaxTokens) ==> r
            is Err,
{
}

/// Why no request is made is told by the cause: another operation is under way, the attempts
/// are exhausted, or the request itself is at fault.
pub proof fn law_requests_are_refused_with_their_cause(
    a: AgentActor,
    config: ModelRequestConfig,
    tools: Option<&AgentToolRuntime>,
    position: StepPosition,
    r: Result<PreparedModelRequest, AgentError>,
)
    requires
        is_prepared_request(a, config, tools, position, r),
    ensures
        a.state.active_operation is Some ==> (r matches Err(e) && e@ == (
        AgentErrorView::InvalidDurableMutation {
            message:
                "attempted to start a model operation while another external operation is active"@,
        })),
        a.state.active_operation is None && last_attempt(a.history@, position) == Some(u32::MAX)
            ==> (r matches Err(e) && e@ == (AgentErrorView::InvalidModelRequest {
            message: "model request attempt overflow"@,
        })),
        a.state.active_operation is None && last_attempt(a.history@, position) != Some(u32::MAX)
            && config.model@.len() == 0 ==> (r matches Err(e) && e@ is InvalidModelRequest),
{
}

} // verus!
