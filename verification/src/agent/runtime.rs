//! Starting an agent.

use vstd::prelude::*;

verus! {

#[derive(Clone, Copy, Debug, PartialEq, Eq, Structural)]
pub struct AgentActorConfig {
    pub mailbox_capacity: usize,
    pub bootstrap_page_size: usize,
}

impl Default for AgentActorConfig {
    fn default() -> (r: Self)
        ensures
            r == (AgentActorConfig { mailbox_capacity: 64, bootstrap_page_size: 256 }),
    {
        AgentActorConfig { mailbox_capacity: 64, bootstrap_page_size: 256 }
    }
}

/// The refusal of a configuration.
#[derive(Clone, Copy, Debug, PartialEq, Eq, Structural)]
pub enum AgentConfigError {
    InvalidMailboxCapacity,
}

impl AgentActorConfig {
    /// Checks that the mailbox can hold a message.
    pub fn validate(&self) -> (r: Result<(), AgentConfigError>)
        ensures
            match r {
                Ok(_) => self.mailbox_capacity > 0,
                Err(e) => self.mailbox_capacity == 0,
            },
    {
        if self.mailbox_capacity == 0 {
            Err(AgentConfigError::InvalidMailboxCapacity)
        } else {
            Ok(())
        }
    }
}

} // verus!
