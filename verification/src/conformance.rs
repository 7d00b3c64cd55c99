//! Deterministic fixtures for exercising crash boundaries: a store that loses an
//! acknowledgement after a commit, and models and tools that follow a script.

use vstd::prelude::*;

use crate::agent::state::AgentState;
use crate::json::{json_reading, read_json, reading_view, JsonRoot, JsonRootView, JsonText};
use crate::llm::request::{ModelOptions, ModelRequest, ModelRequestConfig};
use crate::llm::stream::{
    BlockType, FinishEvent, FinishReason, FinishView, SequencedStreamEvent, StreamEvent,
    StreamEventView,
};
use crate::message::{
    content_view, ContentBlock, ContentBlockView, Message, MessageSource, MessageSourceView,
    MessageView, PortableError,
};
use crate::session::SessionEvent;
use crate::text::{concat2, concat3, decimal, decimal_text, texts};
use crate::tools::ToolDefinition;
use crate::types::{
    EventId, EventSeq, MessageId, ProviderId, Role, SideEffectClass, StreamSeq, ToolCallId,
    MAX_JSON_SAFE_INTEGER,
};

verus! {

/// The commit after which an acknowledgement is lost: the one that holds the
/// given occurrence of events of a type.
#[derive(Debug, PartialEq, Eq)]
pub struct AppendFault {
    event_type: String,
    occurrence: usize,
}

impl AppendFault {
    /// The type of event that is waited for.
    pub closed spec fn kind(&self) -> Seq<char> {
        self.event_type@
    }

    /// Which of them it is.
    pub closed spec fn turn(&self) -> int {
        self.occurrence as int
    }

    #[verifier::type_invariant]
    spec fn counted_from_one(self) -> bool {
        self.occurrence > 0
    }

    pub fn after_event_type(event_type: &str) -> (r: Self)
        ensures
            r.kind() == event_type@,
            r.turn() == 1,
    {
        AppendFault::after_event_type_occurrence(event_type, 1)
    }

    pub fn after_event_type_occurrence(event_type: &str, occurrence: usize) -> (r: Self)
        requires
            occurrence > 0,
        ensures
            r.kind() == event_type@,
            r.turn() == occurrence,
    {
        AppendFault { event_type: event_type.to_owned(), occurrence }
    }

    pub fn event_type(&self) -> (r: &str)
        ensures
            r@ == self.kind(),
    {
        self.event_type.as_str()
    }

    pub fn occurrence(&self) -> (r: usize)
        ensures
            r == self.turn(),
            r > 0,
    {
        proof {
            use_type_invariant(self);
        }
        self.occurrence
    }
}

/// How many of the texts are `kind`.
pub open spec fn count_of(s: Seq<Seq<char>>, kind: Seq<char>) -> nat
    decreases s.len(),
{
    if s.len() == 0 {
        0
    } else {
        count_of(s.drop_last(), kind) + if s.last() == kind {
            1nat
        } else {
            0nat
        }
    }
}

/// How far the wait for a fault has come.
#[derive(Debug, PartialEq, Eq)]
pub struct FaultState {
    pub spec: AppendFault,
    pub seen: usize,
    pub triggered: bool,
}

/// What always holds of the wait: it is over exactly when the count was reached.
pub open spec fn waiting(s: FaultState) -> bool {
    if s.triggered {
        s.seen == s.spec.turn()
    } else {
        s.seen < s.spec.turn()
    }
}

impl FaultState {
    pub fn new(spec: AppendFault) -> (r: FaultState)
        ensures
            r.spec == spec,
            r.seen == 0,
            !r.triggered,
            waiting(r),
    {
        // The awaited event is at least the first.
        let _ = spec.occurrence();
        FaultState { spec, seen: 0, triggered: false }
    }

    /// Counts the events of a commit and says whether its acknowledgement is lost.
    pub fn should_drop_ack(&mut self, event_types: &Vec<String>) -> (r: bool)
        requires
            waiting(*old(self)),
        ensures
            waiting(*final(self)),
            final(self).spec == old(self).spec,
            r == (!old(self).triggered && old(self).seen + count_of(
                texts(event_types@),
                old(self).spec.kind(),
            ) >= old(self).spec.turn()),
            final(self).triggered == (old(self).triggered || r),
            !final(self).triggered ==> final(self).seen == old(self).seen + count_of(
                texts(event_types@),
                old(self).spec.kind(),
            ),
            old(self).triggered ==> *final(self) == *old(self),
    {
        if self.triggered {
            return false;
        }
        let ghost all = texts(event_types@);
        let ghost kind = self.spec.kind();
        let ghost before = self.seen;
        let mut i: usize = 0;
        while i < event_types.len()
            invariant
                i <= event_types@.len(),
                all == texts(event_types@),
                kind == self.spec.kind(),
                self.spec == old(self).spec,
                !self.triggered,
                before == old(self).seen,
                !old(self).triggered,
                self.seen == before + count_of(all.take(i as int), kind),
                self.seen < self.spec.turn(),
            decreases event_types@.len() - i,
        {
            assert(all.take(i + 1).drop_last() =~= all.take(i as int));
            assert(all.take(i + 1).last() == event_types@[i as int]@);
            if crate::text::same_text(event_types[i].as_str(), self.spec.event_type()) {
                let occurrence: usize = self.spec.occurrence();
                self.seen = self.seen + 1;
                if self.seen == occurrence {
                    self.triggered = true;
                    proof {
                        lemma_count_grows(all, kind, i + 1);
                    }
                    return true;
                }
            }
            i = i + 1;
        }
        assert(all.take(i as int) =~= all);
        false
    }
}

/// A longer row holds at least as many.
proof fn lemma_count_grows(s: Seq<Seq<char>>, kind: Seq<char>, n: int)
    requires
        0 <= n <= s.len(),
    ensures
        count_of(s.take(n), kind) <= count_of(s, kind),
    decreases s.len() - n,
{
    if n < s.len() {
        lemma_count_grows(s, kind, n + 1);
        assert(s.take(n + 1).drop_last() =~= s.take(n));
    } else {
        assert(s.take(n) =~= s);
    }
}

/// How many events of the awaited kind the first `n` commits hold.
pub open spec fn seen_through(commits: Seq<Seq<Seq<char>>>, kind: Seq<char>, n: int) -> nat
    decreases n,
{
    if n <= 0 {
        0
    } else {
        seen_through(commits, kind, n - 1) + count_of(commits[n - 1], kind)
    }
}

/// Whether the acknowledgement of the `n`th commit is lost, by the count alone.
pub open spec fn loses(commits: Seq<Seq<Seq<char>>>, kind: Seq<char>, turn: int, n: int) -> bool {
    seen_through(commits, kind, n) < turn <= seen_through(commits, kind, n + 1)
}

proof fn lemma_seen_grows(commits: Seq<Seq<Seq<char>>>, kind: Seq<char>, a: int, b: int)
    requires
        0 <= a <= b,
    ensures
        seen_through(commits, kind, a) <= seen_through(commits, kind, b),
    decreases b - a,
{
    if a < b {
        lemma_seen_grows(commits, kind, a, b - 1);
    }
}

/// At most one acknowledgement is lost, however many commits there are.
pub proof fn law_one_acknowledgement_is_lost(
    commits: Seq<Seq<Seq<char>>>,
    kind: Seq<char>,
    turn: int,
    m: int,
    n: int,
)
    requires
        0 <= m,
        0 <= n,
        loses(commits, kind, turn, m),
        loses(commits, kind, turn, n),
    ensures
        m == n,
{
    if m < n {
        lemma_seen_grows(commits, kind, m + 1, n);
    } else if n < m {
        lemma_seen_grows(commits, kind, n + 1, m);
    }
}

/// One commit as it was seen from outside.
#[derive(Debug, PartialEq, Eq)]
pub struct ObservedAppend {
    pub expected_seq: EventSeq,
    pub new_head: EventSeq,
    pub event_types: Vec<String>,
}

/// Texts in a row with a separator between them.
pub open spec fn joined(s: Seq<Seq<char>>, separator: Seq<char>) -> Seq<char>
    decreases s.len(),
{
    if s.len() == 0 {
        Seq::empty()
    } else if s.len() == 1 {
        s[0]
    } else {
        joined(s.drop_last(), separator) + separator + s.last()
    }
}

/// The texts in a row with a separator between them.
pub fn join(v: &Vec<String>, separator: &str) -> (r: String)
    ensures
        r@ == joined(texts(v@), separator@),
{
    let ghost all = texts(v@);
    if v.len() == 0 {
        proof {
            reveal_strlit("");
        }
        assert(""@ =~= Seq::<char>::empty());
        return "".to_owned();
    }
    let mut text = v[0].clone();
    let mut i: usize = 1;
    assert(all.take(1)[0] == v@[0]@);
    while i < v.len()
        invariant
            1 <= i <= v@.len(),
            all == texts(v@),
            text@ == joined(all.take(i as int), separator@),
        decreases v@.len() - i,
    {
        assert(all.take(i + 1).drop_last() =~= all.take(i as int));
        text.append(separator);
        text.append(v[i].as_str());
        i = i + 1;
    }
    assert(all.take(i as int) =~= all);
    text
}

/// What a caller is told in place of an acknowledgement.
pub open spec fn lost_acknowledgement(event_types: Seq<Seq<char>>) -> Seq<char> {
    "Batch 20 injected post-commit acknowledgement loss after append ["@ + joined(event_types, ", "@)
        + "]"@
}

/// The record of a store that loses one acknowledgement.
#[derive(Debug, PartialEq, Eq)]
pub struct FaultInjectingSessionStore {
    pub state: FaultState,
    pub observed: Vec<ObservedAppend>,
}

/// The types of the events of each commit.
pub open spec fn commits_of(s: Seq<ObservedAppend>) -> Seq<Seq<Seq<char>>> {
    s.map_values(|a: ObservedAppend| texts(a.event_types@))
}

/// What always holds of the record: the wait is as far as the commits are, and it
/// is over exactly when they hold the awaited event.
pub open spec fn keeps_count(store: FaultInjectingSessionStore) -> bool {
    let commits = commits_of(store.observed@);
    let seen = seen_through(commits, store.state.spec.kind(), commits.len() as int);
    &&& waiting(store.state)
    &&& store.state.triggered <==> seen >= store.state.spec.turn()
    &&& !store.state.triggered ==> store.state.seen == seen
}

proof fn lemma_seen_prefix(
    commits: Seq<Seq<Seq<char>>>,
    next: Seq<Seq<char>>,
    kind: Seq<char>,
    n: int,
)
    requires
        0 <= n <= commits.len(),
    ensures
        seen_through(commits.push(next), kind, n) == seen_through(commits, kind, n),
    decreases n,
{
    if n > 0 {
        lemma_seen_prefix(commits, next, kind, n - 1);
    }
}

impl FaultInjectingSessionStore {
    pub fn new(fault: AppendFault) -> (r: Self)
        ensures
            r.state.spec == fault,
            r.state.seen == 0,
            !r.state.triggered,
            keeps_count(r),
            r.observed@.len() == 0,
    {
        FaultInjectingSessionStore { state: FaultState::new(fault), observed: Vec::new() }
    }

    pub fn triggered(&self) -> (r: bool)
        ensures
            r == self.state.triggered,
    {
        self.state.triggered
    }

    /// Takes note of a commit. Where its acknowledgement is lost, says what the
    /// caller is told instead; the commit stands either way.
    pub fn committed(&mut self, append: ObservedAppend) -> (r: Result<(), String>)
        requires
            keeps_count(*old(self)),
        ensures
            keeps_count(*final(self)),
            final(self).state.spec == old(self).state.spec,
            final(self).observed@ == old(self).observed@.push(append),
            ({
                let spec = old(self).state.spec;
                let lost = loses(
                    commits_of(final(self).observed@),
                    spec.kind(),
                    spec.turn(),
                    old(self).observed@.len() as int,
                );
                if lost {
                    r matches Err(message) && message@ == lost_acknowledgement(
                        texts(append.event_types@),
                    )
                } else {
                    r is Ok
                }
            }),
    {
        let ghost commits = commits_of(self.observed@);
        let ghost next = texts(append.event_types@);
        let ghost kind = self.state.spec.kind();
        let lost = self.state.should_drop_ack(&append.event_types);
        let message = concat3(
            "Batch 20 injected post-commit acknowledgement loss after append [",
            join(&append.event_types, ", ").as_str(),
            "]",
        );
        self.observed.push(append);
        proof {
            assert(commits_of(self.observed@) =~= commits.push(next));
            lemma_seen_prefix(commits, next, kind, commits.len() as int);
            assert(commits.push(next)[commits.len() as int] == next);
        }
        if lost {
            Err(message)
        } else {
            Ok(())
        }
    }
}

/// Event identities in a row, under one fixed time.
#[derive(Debug, PartialEq, Eq)]
pub struct TestEventSource {
    pub next: u64,
}

impl TestEventSource {
    pub fn new(start: u64) -> (r: Self)
        ensures
            r.next == start,
    {
        TestEventSource { next: start }
    }

    pub fn next_event_id(&mut self) -> (r: EventId)
        ensures
            r@ == "evt_conformance_"@ + decimal(old(self).next as nat),
            final(self).next == old(self).next.wrapping_add(1),
    {
        let text = concat2("evt_conformance_", decimal_text(self.next).as_str());
        proof {
            reveal_strlit("evt_conformance_");
        }
        self.next = self.next.wrapping_add(1);
        EventId::new(text.as_str()).unwrap()
    }

    pub fn now(&self) -> (r: String)
        ensures
            r@ == "2026-08-20T15:00:00Z"@,
    {
        "2026-08-20T15:00:00Z".to_owned()
    }
}

/// One thing that a scripted model sends.
pub type ScriptItem = Result<SequencedStreamEvent, PortableError>;

/// A model that answers each request with the next of its scripts.
#[derive(Debug, PartialEq)]
pub struct ScriptedLlm {
    pub provider_id: ProviderId,
    pub scripts: Vec<Vec<ScriptItem>>,
    pub requests: Vec<ModelRequest>,
}

impl ScriptedLlm {
    pub fn new(provider_id: ProviderId, scripts: Vec<Vec<ScriptItem>>) -> (r: Self)
        ensures
            r.provider_id == provider_id,
            r.scripts == scripts,
            r.requests@.len() == 0,
    {
        ScriptedLlm { provider_id, scripts, requests: Vec::new() }
    }

    pub fn remaining_scripts(&self) -> (r: usize)
        ensures
            r == self.scripts@.len(),
    {
        self.scripts.len()
    }

    /// Takes a request and gives the next script for it.
    pub fn stream(&mut self, request: ModelRequest) -> (r: Vec<ScriptItem>)
        requires
            old(self).scripts@.len() > 0,
        ensures
            r == old(self).scripts@[0],
            final(self).scripts@ == old(self).scripts@.skip(1),
            final(self).requests@ == old(self).requests@.push(request),
            final(self).provider_id == old(self).provider_id,
    {
        let ghost before = self.scripts@;
        self.requests.push(request);
        let script = self.scripts.remove(0);
        assert(self.scripts@ =~= before.skip(1));
        script
    }
}

fn event_at(seq: u64, event: StreamEvent) -> (r: ScriptItem)
    requires
        1 <= seq <= MAX_JSON_SAFE_INTEGER,
    ensures
        r matches Ok(item) && item.seq@ == seq && item.event == event,
{
    Ok(SequencedStreamEvent::new(StreamSeq::new(seq).unwrap(), event))
}

/// Whether a script sends `events`, numbered from one.
pub open spec fn sends(script: Seq<ScriptItem>, events: Seq<StreamEventView>) -> bool {
    &&& script.len() == events.len()
    &&& forall|i: int|
        0 <= i < script.len() ==> (#[trigger] script[i] matches Ok(item) && item.seq@ == i + 1
            && item.event@ == events[i])
}

/// The end of a script in which nothing went wrong.
pub open spec fn completed() -> StreamEventView {
    StreamEventView::Finish(FinishView { reason: FinishReason::Completed, failure: None })
}

/// A script that says `text`.
pub fn text_script(text: &str) -> (r: Vec<ScriptItem>)
    ensures
        sends(
            r@,
            seq![
                StreamEventView::BlockStart { index: 0, block_type: BlockType::Text },
                StreamEventView::TextDelta { index: 0, text: text@ },
                StreamEventView::BlockEnd {
                    index: 0,
                    block: ContentBlockView::Text { text: text@ },
                },
                completed(),
            ],
        ),
{
    let mut script: Vec<ScriptItem> = Vec::new();
    script.push(
        event_at(1, StreamEvent::BlockStart { index: 0, block_type: BlockType::Text }),
    );
    script.push(event_at(2, StreamEvent::TextDelta { index: 0, text: text.to_owned() }));
    script.push(
        event_at(3, StreamEvent::BlockEnd { index: 0, block: ContentBlock::text(text) }),
    );
    script.push(event_at(4, StreamEvent::Finish(FinishEvent::completed())));
    script
}

/// A script that calls a tool, given what reading its arguments as JSON gave;
/// nothing where the call has no id or its arguments are no JSON.
pub fn read_tool_call_script(
    call_id: &str,
    name: &str,
    arguments_json: &str,
    reading: Result<JsonRoot, String>,
) -> (r: Option<Vec<ScriptItem>>)
    ensures
        r is Some <==> call_id@.len() > 0 && reading is Ok,
        r matches Some(script) ==> sends(
            script@,
            seq![
                StreamEventView::BlockStart { index: 0, block_type: BlockType::ToolCall },
                StreamEventView::ToolCallDelta {
                    index: 0,
                    call_id: call_id@,
                    name: Some(name@),
                    arguments_delta: arguments_json@,
                },
                StreamEventView::BlockEnd {
                    index: 0,
                    block: ContentBlockView::ToolCall {
                        id: call_id@,
                        name: name@,
                        arguments_json: arguments_json@,
                    },
                },
                completed(),
            ],
        ),
{
    let id = match ToolCallId::new(call_id) {
        Ok(id) => id,
        Err(_) => {
            return None;
        },
    };
    let arguments = match JsonText::from_reading(arguments_json.to_owned(), reading) {
        Ok(arguments) => arguments,
        Err(_) => {
            return None;
        },
    };
    let mut script: Vec<ScriptItem> = Vec::new();
    script.push(
        event_at(1, StreamEvent::BlockStart { index: 0, block_type: BlockType::ToolCall }),
    );
    script.push(
        event_at(
            2,
            StreamEvent::ToolCallDelta {
                index: 0,
                call_id: id.clone(),
                name: Some(name.to_owned()),
                arguments_delta: arguments_json.to_owned(),
            },
        ),
    );
    let block = ContentBlock::ToolCall { id, name: name.to_owned(), arguments_json: arguments };
    script.push(event_at(3, StreamEvent::BlockEnd { index: 0, block }));
    script.push(event_at(4, StreamEvent::Finish(FinishEvent::completed())));
    Some(script)
}

/// A script that calls a tool.
pub fn tool_call_script(call_id: &str, name: &str, arguments_json: &str) -> (r: Option<
    Vec<ScriptItem>,
>)
    ensures
        r is Some <==> call_id@.len() > 0 && json_reading(arguments_json@) is Ok,
        r matches Some(script) ==> sends(
            script@,
            seq![
                StreamEventView::BlockStart { index: 0, block_type: BlockType::ToolCall },
                StreamEventView::ToolCallDelta {
                    index: 0,
                    call_id: call_id@,
                    name: Some(name@),
                    arguments_delta: arguments_json@,
                },
                StreamEventView::BlockEnd {
                    index: 0,
                    block: ContentBlockView::ToolCall {
                        id: call_id@,
                        name: name@,
                        arguments_json: arguments_json@,
                    },
                },
                completed(),
            ],
        ),
{
    read_tool_call_script(call_id, name, arguments_json, read_json(arguments_json))
}

/// The requests of a scripted session.
pub fn model_config(provider: ProviderId) -> (r: ModelRequestConfig)
    ensures
        r.provider == provider,
        r.model@ == "conformance-model"@,
        r.system matches Some(system) && system@ == "Run the conformance scenario exactly."@,
        r.tools@.len() == 0,
        r.options.max_output_tokens == Some(256u32),
{
    ModelRequestConfig {
        provider,
        model: "conformance-model".to_owned(),
        system: Some("Run the conformance scenario exactly.".to_owned()),
        tools: Vec::new(),
        options: ModelOptions { max_output_tokens: Some(256) },
    }
}

/// A message of the user, unless it has no id.
pub fn user_message(message_id: &str, text: &str) -> (r: Option<Message>)
    ensures
        match r {
            Some(message) => message_id@.len() > 0 && message@ == (MessageView {
                id: message_id@,
                role: Role::User,
                source: MessageSourceView::User,
                content: seq![ContentBlockView::Text { text: text@ }],
            }),
            None => message_id@.len() == 0,
        },
{
    match MessageId::new(message_id) {
        Ok(id) => {
            let mut content: Vec<ContentBlock> = Vec::new();
            content.push(ContentBlock::text(text));
            assert(content_view(content@) =~= seq![ContentBlockView::Text { text: text@ }]);
            Some(Message { id, role: Role::User, source: MessageSource::User, content })
        },
        Err(_) => None,
    }
}

/// A check that takes any arguments that are a JSON object.
#[derive(Clone, Copy, Debug, PartialEq, Eq, Structural)]
pub struct ObjectValidator;

impl Default for ObjectValidator {
    fn default() -> (r: Self)
        ensures
            r == ObjectValidator,
    {
        ObjectValidator
    }
}

/// What is wrong with arguments, given what reading them as JSON gave.
pub open spec fn arguments_fault(reading: Result<JsonRootView, Seq<char>>) -> Option<Seq<char>> {
    match reading {
        Err(message) => Some(message),
        Ok(JsonRootView::Object(_)) => None,
        Ok(_) => Some("conformance tools require JSON object arguments"@),
    }
}

pub open spec fn arguments_check(r: Result<(), String>) -> Option<Seq<char>> {
    match r {
        Ok(_) => None,
        Err(message) => Some(message@),
    }
}

impl ObjectValidator {
    pub fn validate(&self, arguments_json: &JsonText) -> (r: Result<(), String>)
        ensures
            arguments_check(r) == arguments_fault(json_reading(arguments_json@)),
    {
        self.check(read_json(arguments_json.as_str()))
    }

    /// Checks arguments, given what reading them as JSON gave.
    pub fn check(&self, reading: Result<JsonRoot, String>) -> (r: Result<(), String>)
        ensures
            arguments_check(r) == arguments_fault(reading_view(reading)),
    {
        match reading {
            Err(message) => Err(message),
            Ok(JsonRoot::Object(_)) => Ok(()),
            Ok(_) => Err("conformance tools require JSON object arguments".to_owned()),
        }
    }

    /// The name under which the check is composed into a runtime.
    pub fn composition_identity(&self) -> (r: String)
        ensures
            r@ == "harness-conformance/object-validator/v1"@,
    {
        "harness-conformance/object-validator/v1".to_owned()
    }
}

/// A tool of a scripted session.
pub fn tool_definition(name: &str, side_effect: SideEffectClass) -> (r: ToolDefinition)
    ensures
        r.name@ == name@,
        r.version@ == "1"@,
        r.description@ == "Batch 20 conformance tool "@ + name@,
        r.input_schema@
            == "{\"additionalProperties\":true,\"properties\":{\"value\":{\"type\":\"string\"}},\"type\":\"object\"}"@,
        r.output_schema is None,
        r.parallel_safe,
        r.side_effect == side_effect,
        r.default_timeout_ms == 5_000,
{
    ToolDefinition {
        name: name.to_owned(),
        description: concat2("Batch 20 conformance tool ", name),
        version: "1".to_owned(),
        input_schema: JsonText::of_notation(
            "{\"additionalProperties\":true,\"properties\":{\"value\":{\"type\":\"string\"}},\"type\":\"object\"}".to_owned(),
        ),
        output_schema: None,
        side_effect,
        parallel_safe: true,
        default_timeout_ms: 5_000,
    }
}

/// Whether an agent has nothing under way and as many messages as expected.
pub open spec fn quiescent(state: AgentState, expected_messages: int) -> bool {
    &&& state.active_operation is None
    &&& state.projection.lifecycle.open_turn is None
    &&& state.projection.lifecycle.open_step is None
    &&& state.projection.model_messages@.len() == expected_messages
}

pub fn is_quiescent(state: &AgentState, expected_messages: usize) -> (r: bool)
    ensures
        r == quiescent(*state, expected_messages as int),
{
    state.active_operation.is_none() && state.projection.lifecycle.open_turn.is_none()
        && state.projection.lifecycle.open_step.is_none() && state.projection.model_messages.len()
        == expected_messages
}

pub fn awaits_approval(state: &AgentState) -> (r: bool)
    ensures
        r == (state.projection.pending_approval is Some),
{
    state.projection.pending_approval.is_some()
}

/// How many events of a page are kept: those up to the head, or all.
pub open spec fn kept(page: Seq<SessionEvent>, head: EventSeq, i: int) -> int
    decreases page.len() - i,
{
    if i >= page.len() {
        page.len() as int
    } else if page[i].seq@ == head@ {
        i + 1
    } else {
        kept(page, head, i + 1)
    }
}

proof fn lemma_kept_from(page: Seq<SessionEvent>, head: EventSeq, i: int)
    requires
        0 <= i <= page.len(),
    ensures
        kept(page, head, i) >= i,
    decreases page.len() - i,
{
    if i < page.len() {
        lemma_kept_from(page, head, i + 1);
    }
}

/// Takes a page of a history up to its head. Says where the next page begins, or
/// nothing where the head was reached.
#[verifier::loop_isolation(false)]
pub fn take_page(events: &mut Vec<SessionEvent>, page: Vec<SessionEvent>, head: EventSeq) -> (r:
    Option<EventSeq>)
    requires
        page@.len() > 0,
        forall|i: int|
            0 <= i < kept(page@, head, 0) && (#[trigger] page@[i]).seq@ != head@ ==> page@[i].seq@
                < MAX_JSON_SAFE_INTEGER,
    ensures
        final(events)@ == old(events)@ + page@.take(kept(page@, head, 0)),
        match r {
            Some(next) => next@ == page@.last().seq@ + 1 && forall|i: int|
                0 <= i < page@.len() ==> (#[trigger] page@[i]).seq@ != head@,
            None => exists|i: int| 0 <= i < page@.len() && (#[trigger] page@[i]).seq@ == head@,
        },
{
    let ghost all = page@;
    let ghost before = events@;
    let mut page = page;
    let mut next = head;
    let mut taken: usize = 0;
    let n: usize = page.len();
    assert(before + all.take(0) =~= before);
    while taken < n
        invariant
            n == all.len(),
            taken <= n,
            page@ == all.skip(taken as int),
            events@ == before + all.take(taken as int),
            kept(all, head, 0) == kept(all, head, taken as int),
            forall|i: int| 0 <= i < taken ==> (#[trigger] all[i]).seq@ != head@,
            taken > 0 ==> next@ == all[taken - 1].seq@ + 1,
        decreases n - taken,
    {
        let event = page.remove(0);
        assert(event == all[taken as int]);
        assert(page@ =~= all.skip(taken + 1));
        let seq = event.seq;
        events.push(event);
        assert(events@ =~= before + all.take(taken + 1));
        if seq.get() == head.get() {
            assert(all[taken as int].seq@ == head@);
            return None;
        }
        proof {
            lemma_kept_from(all, head, taken + 1);
        }
        next = seq.checked_next().unwrap();
        taken = taken + 1;
    }
    assert(all.take(taken as int) =~= all);
    Some(next)
}

/// Counting counts every occurrence, and nothing else.
pub proof fn law_counts_are_exact(s: Seq<Seq<char>>, kind: Seq<char>)
    ensures
        count_of(s, kind) == s.filter(|t: Seq<char>| t == kind).len(),
        count_of(s, kind) <= s.len(),
        count_of(s, kind) > 0 <==> s.contains(kind),
    decreases s.len(),
{
    reveal(Seq::filter);
    if s.len() > 0 {
        let rest = s.drop_last();
        law_counts_are_exact(rest, kind);
        if rest.contains(kind) {
            let i = choose|i: int| 0 <= i < rest.len() && rest[i] == kind;
            assert(s[i] == kind);
        }
        if s.contains(kind) && s.last() != kind {
            let i = choose|i: int| 0 <= i < s.len() && s[i] == kind;
            assert(rest[i] == kind);
        }
        if s.last() == kind {
            assert(s[s.len() - 1] == kind);
        }
    }
}

/// The acknowledgement of the commit that holds the awaited occurrence is the one that is
/// lost: none before it, and it if the events up to it are enough.
pub proof fn law_the_awaited_commit_loses(
    commits: Seq<Seq<Seq<char>>>,
    kind: Seq<char>,
    turn: int,
    n: int,
)
    requires
        0 <= n < commits.len(),
        1 <= turn,
    ensures
        loses(commits, kind, turn, n) ==> commits[n].contains(kind),
        turn == 1 && commits[n].contains(kind) && (forall|i: int|
            0 <= i < n ==> !(#[trigger] commits[i]).contains(kind)) ==> loses(
            commits,
            kind,
            turn,
            n,
        ),
{
    law_counts_are_exact(commits[n], kind);
    if forall|i: int| 0 <= i < n ==> !(#[trigger] commits[i]).contains(kind) {
        lemma_none_seen(commits, kind, n);
    }
}

proof fn lemma_none_seen(commits: Seq<Seq<Seq<char>>>, kind: Seq<char>, n: int)
    requires
        0 <= n <= commits.len(),
        forall|i: int| 0 <= i < n ==> !(#[trigger] commits[i]).contains(kind),
    ensures
        seen_through(commits, kind, n) == 0,
    decreases n,
{
    if n > 0 {
        lemma_none_seen(commits, kind, n - 1);
        law_counts_are_exact(commits[n - 1], kind);
        assert(!commits[n - 1].contains(kind));
    }
}

/// Joining puts the separator between each two texts, and nowhere else.
pub proof fn law_separators_stand_between(s: Seq<Seq<char>>, next: Seq<char>, separator: Seq<char>)
    ensures
        joined(Seq::empty(), separator).len() == 0,
        joined(seq![next], separator) == next,
        s.len() > 0 ==> joined(s.push(next), separator) == joined(s, separator) + separator + next,
{
    assert(s.push(next).drop_last() =~= s);
}

/// A page is taken up to the head and no further; one without the head is taken whole.
pub proof fn law_pages_are_taken_up_to_the_head(page: Seq<SessionEvent>, head: EventSeq)
    ensures
        ({
            let n = kept(page, head, 0);
            &&& 0 <= n <= page.len()
            &&& forall|i: int| 0 <= i < n - 1 ==> (#[trigger] page[i]).seq@ != head@
            &&& n < page.len() ==> page[n - 1].seq@ == head@
        }),
{
    lemma_kept(page, head, 0);
}

proof fn lemma_kept(page: Seq<SessionEvent>, head: EventSeq, from: int)
    requires
        0 <= from <= page.len(),
    ensures
        ({
            let n = kept(page, head, from);
            &&& from <= n <= page.len()
            &&& forall|i: int| from <= i < n - 1 ==> (#[trigger] page[i]).seq@ != head@
            &&& n < page.len() ==> n > from && page[n - 1].seq@ == head@
        }),
    decreases page.len() - from,
{
    if from < page.len() && page[from].seq@ != head@ {
        lemma_kept(page, head, from + 1);
    }
}

/// Arguments are taken if and only if they are a JSON object.
pub proof fn law_arguments_are_objects(reading: Result<JsonRootView, Seq<char>>)
    ensures
        arguments_fault(reading) is None <==> (reading matches Ok(JsonRootView::Object(_))),
        reading matches Err(message) ==> arguments_fault(reading) == Some(message),
{
}

/// An agent is quiescent if and only if nothing is under way or open and it has the messages
/// that are expected.
pub proof fn law_quiescence_is_complete(state: AgentState, expected: int)
    ensures
        quiescent(state, expected) <==> {
            &&& state.active_operation is None
            &&& state.projection.lifecycle.open_turn is None
            &&& state.projection.lifecycle.open_step is None
            &&& state.projection.model_messages@.len() == expected
        },
{
}

/// A record whose wait is over has lost the acknowledgement of one of its commits, and a
/// record that still waits has lost none.
pub proof fn law_the_wait_is_over_when_one_is_lost(store: FaultInjectingSessionStore, n: int) -> (k:
    int)
    requires
        keeps_count(store),
        store.state.spec.turn() > 0,
        0 <= n < store.observed@.len(),
    ensures
        store.state.triggered ==> 0 <= k < store.observed@.len() && loses(
            commits_of(store.observed@),
            store.state.spec.kind(),
            store.state.spec.turn(),
            k,
        ),
        !store.state.triggered ==> !loses(
            commits_of(store.observed@),
            store.state.spec.kind(),
            store.state.spec.turn(),
            n,
        ) && store.state.seen < store.state.spec.turn(),
{
    let commits = commits_of(store.observed@);
    let kind = store.state.spec.kind();
    lemma_seen_grows(commits, kind, n + 1, commits.len() as int);
    lemma_reached(commits, kind, store.state.spec.turn(), commits.len() as int)
}

/// Where the first `n` commits hold the awaited event, one of them brought it.
proof fn lemma_reached(commits: Seq<Seq<Seq<char>>>, kind: Seq<char>, turn: int, n: int) -> (k: int)
    requires
        0 <= n,
        0 < turn,
    ensures
        turn <= seen_through(commits, kind, n) ==> 0 <= k < n && loses(commits, kind, turn, k),
    decreases n,
{
    if n > 0 && turn <= seen_through(commits, kind, n - 1) {
        lemma_reached(commits, kind, turn, n - 1)
    } else {
        n - 1
    }
}

/// A script sends each event once, in order, numbered from one.
pub proof fn law_scripts_send_every_event(
    script: Seq<ScriptItem>,
    events: Seq<StreamEventView>,
    i: int,
)
    requires
        sends(script, events),
        0 <= i < events.len(),
    ensures
        script.len() == events.len(),
        script[i] matches Ok(item) && item.seq@ == i + 1 && item.event@ == events[i],
{
}

} // verus!
