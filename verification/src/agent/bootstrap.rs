//! Reading a session up to a fixed head, page by page.

use vstd::prelude::*;

use crate::agent::error::{store_error_text, SessionStoreError};
use crate::agent::recovery::{
    recovery_error_text, resume_of, RecoveryAnalysisError, RecoveryAnalyzer, ResumeView,
};
use crate::agent::state::AgentBootstrap;
use crate::session::{SessionEvent, SessionHead, SessionProjection};
use crate::text::{concat3, concat4, decimal, decimal_text};
use crate::types::{lemma_counter_by_value, EventSeq};

verus! {

#[allow(inconsistent_fields)]
#[derive(Debug)]
pub enum AgentBootstrapError {
    Storage(SessionStoreError),
    /// The projector's message.
    Projection(String),
    Recovery(RecoveryAnalysisError),
    InvalidPageSize,
    IncompleteSnapshot { expected: EventSeq, observed: Option<EventSeq> },
    NonContiguousSnapshot { expected: EventSeq, observed: EventSeq },
}

/// A place that was read, or that none was.
pub open spec fn observed_text(observed: Option<EventSeq>) -> Seq<char> {
    match observed {
        Some(seq) => "Some(EventSeq("@ + decimal(seq@ as nat) + "))"@,
        None => "None"@,
    }
}

/// The failure to load a session in words.
pub open spec fn bootstrap_error_text(e: AgentBootstrapError) -> Seq<char> {
    match e {
        AgentBootstrapError::Storage(error) => store_error_text(error),
        AgentBootstrapError::Projection(message) => message@,
        AgentBootstrapError::Recovery(error) => recovery_error_text(error),
        AgentBootstrapError::InvalidPageSize => "bootstrap page size must be greater than zero"@,
        AgentBootstrapError::IncompleteSnapshot { expected, observed } => {
            "session snapshot was incomplete: expected to read through seq "@ + decimal(
                expected@ as nat,
            ) + ", observed "@ + observed_text(observed)
        },
        AgentBootstrapError::NonContiguousSnapshot { expected, observed } => {
            "session snapshot is not contiguous: expected seq "@ + decimal(expected@ as nat)
                + ", observed "@ + decimal(observed@ as nat)
        },
    }
}

impl AgentBootstrapError {
    pub fn message(&self) -> (r: String)
        ensures
            r@ == bootstrap_error_text(*self),
    {
        match self {
            AgentBootstrapError::Storage(error) => error.message(),
            AgentBootstrapError::Projection(message) => message.clone(),
            AgentBootstrapError::Recovery(error) => error.message(),
            AgentBootstrapError::InvalidPageSize => {
                "bootstrap page size must be greater than zero".to_owned()
            },
            AgentBootstrapError::IncompleteSnapshot { expected, observed } => {
                let place = match observed {
                    Some(seq) => concat3(
                        "Some(EventSeq(",
                        decimal_text(seq.get()).as_str(),
                        "))",
                    ),
                    None => "None".to_owned(),
                };
                concat4(
                    "session snapshot was incomplete: expected to read through seq ",
                    decimal_text(expected.get()).as_str(),
                    ", observed ",
                    place.as_str(),
                )
            },
            AgentBootstrapError::NonContiguousSnapshot { expected, observed } => concat4(
                "session snapshot is not contiguous: expected seq ",
                decimal_text(expected.get()).as_str(),
                ", observed ",
                decimal_text(observed.get()).as_str(),
            ),
        }
    }
}

/// Reads sessions in pages of a fixed size.
#[derive(Debug)]
pub struct AgentBootstrapper<P> {
    projector: P,
    page_size: usize,
}

/// The part of a session that has been read.
///
/// The head at the start of reading is the boundary: events behind it are not
/// taken in.
#[derive(Debug)]
pub struct SnapshotReader {
    head: SessionHead,
    from_seq: EventSeq,
    events: Vec<SessionEvent>,
}

#[derive(Debug)]
pub enum SnapshotProgress {
    /// More is to be read, from the next place on.
    Reading(SnapshotReader),
    /// Everything up to the head has been read.
    Complete(SnapshotReader),
}

/// Whether `events` are the first events of a session, from one on without a gap.
pub open spec fn from_the_start(events: Seq<SessionEvent>) -> bool {
    forall|i: int| 0 <= i < events.len() ==> (#[trigger] events[i]).seq@ == i + 1
}

/// How many events of a page follow on from place `from`, up to place `head`.
pub open spec fn fitting(page: Seq<SessionEvent>, from: int, head: int) -> int
    decreases page.len(),
{
    if page.len() == 0 || from > head || page[0].seq@ != from {
        0
    } else {
        1 + fitting(page.drop_first(), from + 1, head)
    }
}

impl<P> AgentBootstrapper<P> {
    pub closed spec fn size(&self) -> usize {
        self.page_size
    }

    pub closed spec fn inner(&self) -> P {
        self.projector
    }

    pub fn new(projector: P, page_size: usize) -> (r: Self)
        ensures
            r.size() == page_size,
            r.inner() == projector,
    {
        AgentBootstrapper { projector, page_size }
    }

    pub fn page_size(&self) -> (r: usize)
        ensures
            r == self.size(),
    {
        self.page_size
    }

    pub fn projector(&self) -> (r: &P)
        ensures
            *r == self.inner(),
    {
        &self.projector
    }

    /// Starts reading up to `head`.
    pub fn begin(&self, head: SessionHead) -> (r: Result<SnapshotReader, AgentBootstrapError>)
        ensures
            match r {
                Ok(reader) => self.size() > 0 && reader.wf() && reader.read().len() == 0
                    && reader.head() == head && !reader.complete(),
                Err(e) => self.size() == 0 && e is InvalidPageSize,
            },
    {
        if self.page_size == 0 {
            return Err(AgentBootstrapError::InvalidPageSize);
        }
        // The head is at least one, so something is missing at the start.
        let _ = head.seq.get();
        Ok(SnapshotReader { head, from_seq: EventSeq::first(), events: Vec::new() })
    }
}

impl SnapshotReader {
    pub closed spec fn head(&self) -> SessionHead {
        self.head
    }

    /// The events that have been read.
    pub closed spec fn read(&self) -> Seq<SessionEvent> {
        self.events@
    }

    /// The place from which to read on.
    pub closed spec fn next_place(&self) -> EventSeq {
        self.from_seq
    }

    /// Whether everything up to the head has been read.
    pub open spec fn complete(&self) -> bool {
        self.read().len() == self.head().seq@
    }

    /// What has been read starts the session and does not go past the head; while
    /// something is missing, reading goes on right behind it.
    pub open spec fn wf(&self) -> bool {
        &&& from_the_start(self.read())
        &&& self.read().len() <= self.head().seq@
        &&& !self.complete() ==> self.next_place()@ == self.read().len() + 1
    }

    /// The place from which to read on.
    pub fn from_seq(&self) -> (r: EventSeq)
        ensures
            r == self.next_place(),
    {
        self.from_seq
    }

    /// The last place that has been read.
    pub open spec fn last_read(&self) -> Option<EventSeq> {
        if self.read().len() == 0 {
            None
        } else {
            Some(self.read().last().seq)
        }
    }

    fn last_seq(&self) -> (r: Option<EventSeq>)
        ensures
            r == self.last_read(),
    {
        if self.events.len() == 0 {
            None
        } else {
            Some(self.events[self.events.len() - 1].seq)
        }
    }

    /// Takes in a page that was read from [`SnapshotReader::from_seq`] on.
    pub fn accept_page(self, page: Vec<SessionEvent>) -> (r: Result<
        SnapshotProgress,
        AgentBootstrapError,
    >)
        requires
            self.wf(),
            !self.complete(),
        ensures
            ({
                let n = fitting(page@, self.next_place()@, self.head().seq@);
                let gap = n < page@.len() && self.read().len() + n < self.head().seq@
                    && page@[n].seq@ <= self.head().seq@;
                match r {
                    Ok(SnapshotProgress::Complete(s)) => !gap && s.wf() && s.complete() && s.head()
                        == self.head() && s.read() == self.read() + page@.take(n),
                    Ok(SnapshotProgress::Reading(s)) => !gap && n > 0 && s.wf() && !s.complete()
                        && s.head() == self.head() && s.read() == self.read() + page@.take(n),
                    Err(AgentBootstrapError::NonContiguousSnapshot { expected, observed }) => gap
                        && expected@ == self.next_place()@ + n && observed == page@[n].seq,
                    Err(AgentBootstrapError::IncompleteSnapshot { expected, observed }) => !gap && n
                        == 0 && expected == self.head().seq && observed == (if self.read().len()
                        > 0 {
                        Some(self.read().last().seq)
                    } else {
                        None
                    }),
                    Err(_) => false,
                }
            }),
    {
        let mut reader = self;
        let mut rest = page;
        let ghost all = page@;
        let len: usize = rest.len();
        let ghost total = fitting(all, self.next_place()@, self.head().seq@);
        let mut accepted: usize = 0;
        let mut complete = false;
        let mut stopped = false;
        while !complete && !stopped && rest.len() > 0
            invariant
                reader.wf(),
                reader.head() == self.head(),
                accepted <= all.len(),
                all == page@,
                all.len() == len,
                rest@ == all.skip(accepted as int),
                reader.read() == self.read() + all.take(accepted as int),
                self.wf(),
                !self.complete(),
                complete == reader.complete(),
                total == accepted + fitting(
                    rest@,
                    self.read().len() + 1 + accepted,
                    self.head().seq@,
                ),
                self.next_place()@ == self.read().len() + 1,
                total == fitting(all, self.next_place()@, self.head().seq@),
                stopped ==> !complete && rest@.len() > 0 && rest@[0].seq@ > self.head().seq@,
            decreases all.len() - accepted, if stopped { 0int } else { 1int },
        {
            broadcast use lemma_counter_by_value;

            let seq = rest[0].seq;
            assert(rest@[0] == all[accepted as int]);
            if reader.head.seq.before(&seq) {
                stopped = true;
            } else if seq != reader.from_seq {
                return Err(
                    AgentBootstrapError::NonContiguousSnapshot {
                        expected: reader.from_seq,
                        observed: seq,
                    },
                );
            } else {
                let event = rest.remove(0);
                proof {
                    assert(rest@ =~= all.skip(accepted + 1));
                    assert(all.take(accepted + 1) =~= all.take(accepted as int).push(event));
                    assert(self.read() + all.take(accepted + 1) =~= (self.read() + all.take(
                        accepted as int,
                    )).push(event));
                    assert(all.skip(accepted as int).drop_first() =~= rest@);
                }
                reader.events.push(event);
                accepted = accepted + 1;
                if seq.get() == reader.head.seq.get() {
                    complete = true;
                } else {
                    reader.from_seq = match seq.checked_next() {
                        Ok(next) => next,
                        Err(_) => seq,
                    };
                }
            }
        }
        if accepted == 0 {
            return Err(
                AgentBootstrapError::IncompleteSnapshot {
                    expected: reader.head.seq,
                    observed: reader.last_seq(),
                },
            );
        }
        if complete {
            Ok(SnapshotProgress::Complete(reader))
        } else {
            Ok(SnapshotProgress::Reading(reader))
        }
    }

    /// What the agent starts from. Nothing comes of a session that was not read up
    /// to its head, nor of one that adds up to nothing that a session can be.
    /// `projected` is what the projector made of the events that were read.
    pub fn into_bootstrap(self, projected: Result<SessionProjection, String>) -> (r: Result<
        AgentBootstrap,
        AgentBootstrapError,
    >)
        requires
            self.wf(),
        ensures
            match r {
                Ok(b) => {
                    &&& self.complete()
                    &&& projected matches Ok(projection)
                    &&& b.head == self.head()
                    &&& b.events@ == self.read()
                    &&& b.projection == projection
                    &&& resume_of(projection) == Ok::<ResumeView, RecoveryAnalysisError>(b.resume@)
                },
                Err(AgentBootstrapError::IncompleteSnapshot { expected, observed }) => {
                    &&& !self.complete()
                    &&& expected == self.head().seq
                    &&& observed == self.last_read()
                },
                Err(AgentBootstrapError::Projection(message)) => self.complete() && projected
                    == Err::<SessionProjection, String>(message),
                Err(AgentBootstrapError::Recovery(fault)) => self.complete() && (
                projected matches Ok(projection) && resume_of(projection) == Err::<
                    ResumeView,
                    RecoveryAnalysisError,
                >(fault)),
                Err(_) => false,
            },
    {
        let last = self.last_seq();
        let whole = match last {
            Some(seq) => seq == self.head.seq,
            None => false,
        };
        proof {
            if let Some(seq) = last {
                lemma_counter_by_value(seq, self.head.seq);
            }
        }
        // The head is at least one, so something is missing without events.
        let _ = self.head.seq.get();
        if !whole {
            return Err(
                AgentBootstrapError::IncompleteSnapshot { expected: self.head.seq, observed: last },
            );
        }
        let projection = match projected {
            Ok(projection) => projection,
            Err(message) => {
                return Err(AgentBootstrapError::Projection(message));
            },
        };
        match RecoveryAnalyzer.analyze(&projection) {
            Ok(resume) => Ok(
                AgentBootstrap { events: self.events, head: self.head, projection, resume },
            ),
            Err(error) => Err(AgentBootstrapError::Recovery(error)),
        }
    }

    pub fn events(&self) -> (r: &Vec<SessionEvent>)
        ensures
            r@ == self.read(),
    {
        &self.events
    }
}

/// A complete snapshot holds every event up to the head, each in its place, and
/// none behind it.
pub proof fn law_complete_snapshots_are_whole(reader: SnapshotReader, i: int)
    requires
        reader.wf(),
        reader.complete(),
        0 <= i < reader.read().len(),
    ensures
        reader.read().len() == reader.head().seq@,
        reader.read()[i].seq@ == i + 1,
        reader.read()[i].seq@ <= reader.head().seq@,
{
}

/// The events of a page that are taken in are those that follow on without a gap, up to the
/// head; the next one, if there is one, is behind the head or leaves a gap.
pub proof fn law_fitting_events_follow_on(page: Seq<SessionEvent>, from: int, head: int)
    ensures
        ({
            let n = fitting(page, from, head);
            &&& 0 <= n <= page.len()
            &&& forall|i: int|
                0 <= i < n ==> (#[trigger] page[i]).seq@ == from + i && page[i].seq@ <= head
            &&& n < page.len() ==> page[n].seq@ != from + n || from + n > head
        }),
    decreases page.len(),
{
    if page.len() > 0 && from <= head && page[0].seq@ == from {
        let rest = page.drop_first();
        law_fitting_events_follow_on(rest, from + 1, head);
        let n = fitting(page, from, head);
        assert forall|i: int| 0 <= i < n implies (#[trigger] page[i]).seq@ == from + i
            && page[i].seq@ <= head by {
            if i > 0 {
                assert(rest[i - 1] == page[i]);
            }
        }
        if n < page.len() {
            assert(rest[n - 1] == page[n]);
        }
    }
}

} // verus!
