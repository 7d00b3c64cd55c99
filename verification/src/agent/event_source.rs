//! Where event identities and times come from.

use vstd::prelude::*;

use crate::session::Timestamp;
use crate::types::EventId;

verus! {

/// Source of durable event identity and time for writes of the agent.
///
/// A production composition must generate identifiers that do not collide
/// across process restarts, and times in UTC. Nothing that is proved here
/// depends on which identifiers and times come back.
pub trait AgentEventSource: Send + Sync {
    fn next_event_id(&self) -> EventId;

    fn now(&self) -> Timestamp;
}

} // verus!
