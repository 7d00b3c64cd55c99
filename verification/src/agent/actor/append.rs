//! Writing to the session: numbering drafts and holding the store to its contract.

use vstd::prelude::*;

use crate::agent::error::{mutation, AgentError, AgentErrorView};
use crate::agent::recovery::{
    recovery_error_text, resume_of, RecoveryAnalysisError, RecoveryAnalyzer, ResumeDecision,
    ResumeView,
};
use crate::agent::state::{
    gate_of, has_wakeup, in_step_with_history, started_from, AgentBootstrap, AgentState,
};
use crate::session::{events_view, same_events, NewSessionEvent, SessionEvent, SessionProjection};
use crate::text::{concat2, concat3, decimal, decimal_text};
use crate::types::{
    counter_error_text, AgentInstanceId, CounterError, EventId, EventSeq, MAX_JSON_SAFE_INTEGER,
};

verus! {

/// State of the single owner of a session.
#[derive(Debug)]
pub struct AgentActor {
    pub state: AgentState,
    /// The events of the session up to the head that the agent expects.
    pub history: Vec<SessionEvent>,
}

/// Drafts with the places that they will have in the session.
#[derive(Debug)]
pub struct AppendPreview {
    pub head: EventSeq,
    pub committed: Vec<SessionEvent>,
}

/// A preview with what the session adds up to once it is written.
#[derive(Debug)]
pub struct PreparedAppend {
    pub preview: AppendPreview,
    pub projection: SessionProjection,
    pub resume: ResumeDecision,
}

/// What the store says it has written.
#[derive(Debug)]
pub struct AppendResult {
    pub new_head: EventSeq,
    pub committed: Vec<SessionEvent>,
}

/// Whether `events` are `drafts` written behind `head`, one place after the other.
pub open spec fn written_behind(
    events: Seq<SessionEvent>,
    session_id: Seq<char>,
    head: EventSeq,
    drafts: Seq<NewSessionEvent>,
) -> bool {
    &&& events.len() == drafts.len()
    &&& forall|i: int|
        0 <= i < events.len() ==> {
            &&& (#[trigger] events[i]).session_id@ == session_id
            &&& events[i].seq@ == head@ + 1 + i
            &&& events[i].draft@ == drafts[i]@
        }
}

/// The refusal to number another event.
pub open spec fn no_event_number() -> AgentErrorView {
    mutation(
        "cannot allocate next SessionEvent sequence: "@ + counter_error_text(
            CounterError::TooLarge,
        ),
    )
}

/// The identities of events.
pub open spec fn event_ids(events: Seq<SessionEvent>) -> Seq<Seq<char>> {
    events.map_values(|e: SessionEvent| e.draft.event_id@)
}

/// The identities of drafts.
pub open spec fn draft_ids(drafts: Seq<NewSessionEvent>) -> Seq<Seq<char>> {
    drafts.map_values(|d: NewSessionEvent| d.event_id@)
}

/// The identity of the first draft that is taken already, by one of `ids` or by
/// a draft before it.
pub open spec fn first_taken(ids: Seq<Seq<char>>, drafts: Seq<NewSessionEvent>) -> Option<Seq<char>>
    decreases drafts.len(),
{
    if drafts.len() == 0 {
        None
    } else if ids.contains(drafts[0].event_id@) {
        Some(drafts[0].event_id@)
    } else {
        first_taken(ids.push(drafts[0].event_id@), drafts.drop_first())
    }
}

/// The refusal to write an event under an identity that is taken.
pub open spec fn identity_taken(id: Seq<char>) -> AgentErrorView {
    mutation("event id "@ + id + " already occurs in the session"@)
}

fn holds_event(history: &Vec<SessionEvent>, id: &EventId) -> (r: bool)
    ensures
        r == event_ids(history@).contains(id@),
{
    let ghost ids = event_ids(history@);
    let mut i: usize = 0;
    while i < history.len()
        invariant
            i <= history@.len(),
            ids == event_ids(history@),
            forall|j: int| 0 <= j < i ==> #[trigger] ids[j] != id@,
        decreases history@.len() - i,
    {
        if history[i].draft.event_id.same(id) {
            assert(ids[i as int] == id@);
            return true;
        }
        i = i + 1;
    }
    false
}

fn holds_draft(drafts: &Vec<NewSessionEvent>, n: usize, id: &EventId) -> (r: bool)
    requires
        n <= drafts@.len(),
    ensures
        r == draft_ids(drafts@.take(n as int)).contains(id@),
{
    let ghost ids = draft_ids(drafts@.take(n as int));
    let mut i: usize = 0;
    while i < n
        invariant
            i <= n <= drafts@.len(),
            ids == draft_ids(drafts@.take(n as int)),
            forall|j: int| 0 <= j < i ==> #[trigger] ids[j] != id@,
        decreases n - i,
    {
        if drafts[i].event_id.same(id) {
            assert(ids[i as int] == id@);
            return true;
        }
        i = i + 1;
    }
    false
}

/// Finds the first draft whose identity is taken.
fn find_taken(history: &Vec<SessionEvent>, drafts: &Vec<NewSessionEvent>) -> (r: Option<EventId>)
    ensures
        match r {
            Some(id) => first_taken(event_ids(history@), drafts@) == Some(id@),
            None => first_taken(event_ids(history@), drafts@) is None,
        },
{
    let ghost ids = event_ids(history@);
    let mut i: usize = 0;
    assert(ids + draft_ids(drafts@.take(0)) =~= ids);
    assert(drafts@.skip(0) =~= drafts@);
    while i < drafts.len()
        invariant
            i <= drafts@.len(),
            ids == event_ids(history@),
            first_taken(ids, drafts@) == first_taken(
                ids + draft_ids(drafts@.take(i as int)),
                drafts@.skip(i as int),
            ),
        decreases drafts@.len() - i,
    {
        let id = &drafts[i].event_id;
        let ghost before = draft_ids(drafts@.take(i as int));
        let taken = holds_event(history, id) || holds_draft(drafts, i, id);
        proof {
            assert(drafts@.skip(i as int)[0] == drafts@[i as int]);
            assert(drafts@.skip(i as int).drop_first() =~= drafts@.skip(i + 1));
            assert((ids + before).push(id@) =~= ids + draft_ids(drafts@.take(i + 1)));
            lemma_contains_concat(ids, before, id@);
        }
        if taken {
            return Some(id.clone());
        }
        i = i + 1;
    }
    None
}

proof fn lemma_contains_concat(a: Seq<Seq<char>>, b: Seq<Seq<char>>, x: Seq<char>)
    ensures
        (a + b).contains(x) == (a.contains(x) || b.contains(x)),
{
    if a.contains(x) {
        let i = choose|i: int| 0 <= i < a.len() && a[i] == x;
        assert((a + b)[i] == x);
    }
    if b.contains(x) {
        let i = choose|i: int| 0 <= i < b.len() && b[i] == x;
        assert((a + b)[a.len() + i] == x);
    }
}

/// The complaint about a store that has not written what was agreed.
pub open spec fn contract_violation(preview: AppendPreview, result: AppendResult) -> AgentErrorView {
    AgentErrorView::StorageContractViolation {
        message: "append result did not match the prevalidated commit: expected head "@ + decimal(
            preview.head@ as nat,
        ) + " and "@ + decimal(preview.committed@.len()) + " events, got head "@ + decimal(
            result.new_head@ as nat,
        ) + " and "@ + decimal(result.committed@.len()) + " events"@,
    }
}

/// Whether the store has written what was agreed.
pub open spec fn contract_kept(preview: AppendPreview, result: AppendResult) -> bool {
    result.new_head == preview.head && events_view(result.committed@) == events_view(
        preview.committed@,
    )
}

impl AgentActor {
    pub fn from_bootstrap(instance_id: AgentInstanceId, bootstrap: AgentBootstrap) -> (r: AgentActor)
        ensures
            started_from(r.state, instance_id, bootstrap),
            events_view(r.history@) == events_view(bootstrap.events@),
    {
        let history = bootstrap.events.clone();
        assert(events_view(history@) =~= events_view(bootstrap.events@));
        AgentActor { state: AgentState::from_bootstrap(instance_id, bootstrap), history }
    }

    pub fn state(&self) -> (r: &AgentState)
        ensures
            *r == self.state,
    {
        &self.state
    }

    pub fn into_state(self) -> (r: AgentState)
        ensures
            r == self.state,
    {
        self.state
    }

    /// Gives `drafts` the places behind the expected head, unless one of them has an
    /// identity that the session knows already.
    pub fn preview_append(&self, drafts: &Vec<NewSessionEvent>) -> (r: Result<
        AppendPreview,
        AgentError,
    >)
        ensures
            match r {
                Ok(preview) => {
                    &&& self.state.expected_seq@ + drafts@.len() <= MAX_JSON_SAFE_INTEGER
                    &&& first_taken(event_ids(self.history@), drafts@) is None
                    &&& preview.head@ == self.state.expected_seq@ + drafts@.len()
                    &&& written_behind(
                        preview.committed@,
                        self.state.session_id@,
                        self.state.expected_seq,
                        drafts@,
                    )
                },
                Err(e) => if self.state.expected_seq@ + drafts@.len() > MAX_JSON_SAFE_INTEGER {
                    e@ == no_event_number()
                } else {
                    first_taken(event_ids(self.history@), drafts@) matches Some(id) && e@
                        == identity_taken(id)
                },
            },
    {
        let mut head = self.state.expected_seq;
        let mut committed: Vec<SessionEvent> = Vec::new();
        let mut i: usize = 0;
        // No head is past the last number.
        let _ = head.get();
        while i < drafts.len()
            invariant
                i <= drafts@.len(),
                head@ == self.state.expected_seq@ + i,
                head@ <= MAX_JSON_SAFE_INTEGER,
                written_behind(
                    committed@,
                    self.state.session_id@,
                    self.state.expected_seq,
                    drafts@.take(i as int),
                ),
            decreases drafts@.len() - i,
        {
            head = match head.checked_next() {
                Ok(next) => next,
                Err(error) => {
                    return Err(
                        AgentError::mutation(
                            concat2(
                                "cannot allocate next SessionEvent sequence: ",
                                error.message().as_str(),
                            ),
                        ),
                    );
                },
            };
            committed.push(
                SessionEvent::committed(self.state.session_id.clone(), head, drafts[i].clone()),
            );
            i = i + 1;
        }
        assert(drafts@.take(i as int) =~= drafts@);
        if let Some(id) = find_taken(&self.history, drafts) {
            return Err(
                AgentError::mutation(
                    concat3("event id ", id.as_str(), " already occurs in the session"),
                ),
            );
        }
        Ok(AppendPreview { head, committed })
    }

    /// Takes on what the session adds up to once the preview is written, unless
    /// it adds up to nothing that a session can be. `projected` is what the
    /// projector made of the history with the preview.
    pub fn prepare_append(preview: AppendPreview, projected: Result<SessionProjection, String>) -> (r:
        Result<PreparedAppend, AgentError>)
        ensures
            match r {
                Ok(p) => projected matches Ok(projection) && p.preview == preview && p.projection
                    == projection && resume_of(projection) == Ok::<
                    ResumeView,
                    RecoveryAnalysisError,
                >(p.resume@),
                Err(e) => match projected {
                    Err(message) => e@ == mutation(message@),
                    Ok(projection) => resume_of(projection) matches Err(fault) && e@ == mutation(
                        recovery_error_text(fault),
                    ),
                },
            },
    {
        let projection = match projected {
            Ok(projection) => projection,
            Err(message) => {
                return Err(AgentError::mutation(message));
            },
        };
        match RecoveryAnalyzer.analyze(&projection) {
            Err(error) => Err(AgentError::mutation(error.message())),
            Ok(resume) => Ok(PreparedAppend { preview, projection, resume }),
        }
    }

    /// Takes up what was written, if the store has kept its contract.
    pub fn commit_append(&mut self, prepared: PreparedAppend, result: AppendResult) -> (r: Result<
        (),
        AgentError,
    >)
        ensures
            match r {
                Ok(_) => {
                    &&& contract_kept(prepared.preview, result)
                    &&& final(self).history@ == old(self).history@ + prepared.preview.committed@
                    &&& in_step_with_history(final(self).state)
                    &&& final(self).state == (AgentState {
                        expected_seq: prepared.preview.head,
                        projection: prepared.projection,
                        resume: prepared.resume,
                        gate: gate_of(prepared.resume),
                        wake_requested: has_wakeup(prepared.projection),
                        ..old(self).state
                    })
                },
                Err(e) => {
                    &&& !contract_kept(prepared.preview, result)
                    &&& e@ == contract_violation(prepared.preview, result)
                    &&& *final(self) == *old(self)
                },
            },
    {
        let mut preview = prepared.preview;
        if result.new_head != preview.head || !same_events(&result.committed, &preview.committed) {
            let mut text = concat2(
                "append result did not match the prevalidated commit: expected head ",
                decimal_text(preview.head.get()).as_str(),
            );
            text.append(" and ");
            text.append(decimal_text(preview.committed.len() as u64).as_str());
            text.append(" events, got head ");
            text.append(decimal_text(result.new_head.get()).as_str());
            text.append(" and ");
            text.append(decimal_text(result.committed.len() as u64).as_str());
            text.append(" events");
            return Err(AgentError::StorageContractViolation { message: text });
        }
        self.history.append(&mut preview.committed);
        self.state.replace_durable_view(preview.head, prepared.projection, prepared.resume);
        Ok(())
    }
}

/// What is written takes the places right behind the expected head, without a gap.
pub proof fn law_writes_are_contiguous(
    events: Seq<SessionEvent>,
    session_id: Seq<char>,
    head: EventSeq,
    drafts: Seq<NewSessionEvent>,
    i: int,
    j: int,
)
    requires
        written_behind(events, session_id, head, drafts),
        0 <= i < events.len(),
        0 <= j < events.len(),
    ensures
        events[i].seq@ > head@,
        events[j].seq@ - events[i].seq@ == j - i,
        i != j ==> events[i].seq != events[j].seq,
{
}

proof fn lemma_untaken_ids(ids: Seq<Seq<char>>, drafts: Seq<NewSessionEvent>)
    requires
        ids.no_duplicates(),
        first_taken(ids, drafts) is None,
    ensures
        (ids + draft_ids(drafts)).no_duplicates(),
    decreases drafts.len(),
{
    if drafts.len() == 0 {
        assert(ids + draft_ids(drafts) =~= ids);
    } else {
        let id = drafts[0].event_id@;
        lemma_untaken_ids(ids.push(id), drafts.drop_first());
        assert(ids.push(id) + draft_ids(drafts.drop_first()) =~= ids + draft_ids(drafts));
    }
}

/// No two events of a session have the same identity: what is written to a history
/// without repetitions leaves one without repetitions.
pub proof fn law_identities_stay_unique(
    history: Seq<SessionEvent>,
    events: Seq<SessionEvent>,
    session_id: Seq<char>,
    head: EventSeq,
    drafts: Seq<NewSessionEvent>,
)
    requires
        event_ids(history).no_duplicates(),
        written_behind(events, session_id, head, drafts),
        first_taken(event_ids(history), drafts) is None,
    ensures
        event_ids(history + events).no_duplicates(),
{
    lemma_untaken_ids(event_ids(history), drafts);
    assert(event_ids(history + events) =~= event_ids(history) + draft_ids(drafts));
}

/// Drafts are refused for their identities if and only if one has the identity of an event
/// that is known already or of a draft before it.
pub proof fn law_taken_identities_are_found(ids: Seq<Seq<char>>, drafts: Seq<NewSessionEvent>)
    ensures
        first_taken(ids, drafts) is None <==> {
            &&& forall|i: int|
                0 <= i < drafts.len() ==> !ids.contains((#[trigger] drafts[i]).event_id@)
            &&& forall|i: int, j: int|
                0 <= i < j < drafts.len() ==> (#[trigger] drafts[i]).event_id@ != (
                #[trigger] drafts[j]).event_id@
        },
    decreases drafts.len(),
{
    if drafts.len() > 0 {
        let rest = drafts.drop_first();
        let more = ids.push(drafts[0].event_id@);
        law_taken_identities_are_found(more, rest);
        assert forall|x: Seq<char>| #[trigger] more.contains(x) <==> ids.contains(x) || x
            == drafts[0].event_id@ by {
            if ids.contains(x) {
                let i = choose|i: int| 0 <= i < ids.len() && ids[i] == x;
                assert(more[i] == x);
            }
            assert(more[ids.len() as int] == drafts[0].event_id@);
        }
        if first_taken(ids, drafts) is None {
            assert forall|i: int| 0 <= i < drafts.len() implies !ids.contains(
                (#[trigger] drafts[i]).event_id@,
            ) by {
                if i > 0 {
                    assert(rest[i - 1] == drafts[i]);
                    assert(!more.contains(rest[i - 1].event_id@));
                }
            }
            assert forall|i: int, j: int| 0 <= i < j < drafts.len() implies (
            #[trigger] drafts[i]).event_id@ != (#[trigger] drafts[j]).event_id@ by {
                assert(rest[j - 1] == drafts[j]);
                assert(!more.contains(rest[j - 1].event_id@));
                if i > 0 {
                    assert(rest[i - 1] == drafts[i]);
                }
            }
        } else if (forall|i: int|
            0 <= i < drafts.len() ==> !ids.contains((#[trigger] drafts[i]).event_id@)) && (forall|
            i: int,
            j: int,
        |
            0 <= i < j < drafts.len() ==> (#[trigger] drafts[i]).event_id@ != (
            #[trigger] drafts[j]).event_id@) {
            assert(!ids.contains(drafts[0].event_id@));
            assert forall|i: int| 0 <= i < rest.len() implies !more.contains(
                (#[trigger] rest[i]).event_id@,
            ) by {
                assert(rest[i] == drafts[i + 1]);
                assert(drafts[0].event_id@ != drafts[i + 1].event_id@);
            }
            assert forall|i: int, j: int| 0 <= i < j < rest.len() implies (
            #[trigger] rest[i]).event_id@ != (#[trigger] rest[j]).event_id@ by {
                assert(rest[i] == drafts[i + 1]);
                assert(rest[j] == drafts[j + 1]);
            }
        }
    }
}

/// A store has kept its contract only if it has written every event of the preview and no
/// other, each as it was agreed, and ended at the agreed head.
pub proof fn law_contract_is_exact(preview: AppendPreview, result: AppendResult)
    ensures
        contract_kept(preview, result) <==> {
            &&& result.new_head == preview.head
            &&& result.committed@.len() == preview.committed@.len()
            &&& forall|i: int|
                0 <= i < result.committed@.len() ==> (#[trigger] result.committed@[i])@
                    == preview.committed@[i]@
        },
{
    let a = events_view(result.committed@);
    let b = events_view(preview.committed@);
    if contract_kept(preview, result) {
        assert(a.len() == b.len());
        assert forall|i: int| 0 <= i < result.committed@.len() implies (
        #[trigger] result.committed@[i])@ == preview.committed@[i]@ by {
            assert(a[i] == b[i]);
        }
    } else if result.new_head == preview.head && result.committed@.len() == preview.committed@.len()
        && (forall|i: int|
        0 <= i < result.committed@.len() ==> (#[trigger] result.committed@[i])@
            == preview.committed@[i]@) {
        assert(a =~= b);
    }
}

} // verus!
