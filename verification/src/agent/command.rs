//! Commands to a live agent and their acknowledgements.

use vstd::prelude::*;

use crate::message::Message;
use crate::types::{
    ApprovalDecision, ApprovalId, CancelCause, EventId, EventSeq, InboxTarget, MessageId,
};

verus! {

/// State-changing commands that a live agent accepts.
#[derive(Debug, PartialEq)]
pub enum AgentCommand {
    Send { message: Message, target: InboxTarget, wakeup: bool },
    Cancel { cause: CancelCause, keep_inbox: bool },
    ResolveApproval { approval_id: ApprovalId, decision: ApprovalDecision, note: Option<String> },
    Shutdown,
}

impl AgentCommand {
    pub fn send(message: Message, target: InboxTarget, wakeup: bool) -> (r: AgentCommand)
        ensures
            r == (AgentCommand::Send { message, target, wakeup }),
    {
        AgentCommand::Send { message, target, wakeup }
    }

    /// Input for a new turn; it wakes the agent.
    pub fn followup(message: Message) -> (r: AgentCommand)
        ensures
            r == (AgentCommand::Send { message, target: InboxTarget::NextTurn, wakeup: true }),
    {
        AgentCommand::send(message, InboxTarget::NextTurn, true)
    }

    /// Input for the next step; it wakes the agent.
    pub fn steer(message: Message) -> (r: AgentCommand)
        ensures
            r == (AgentCommand::Send { message, target: InboxTarget::NextStep, wakeup: true }),
    {
        AgentCommand::send(message, InboxTarget::NextStep, true)
    }

    /// Input for the next step that waits until something else wakes the agent.
    pub fn inject(message: Message) -> (r: AgentCommand)
        ensures
            r == (AgentCommand::Send { message, target: InboxTarget::NextStep, wakeup: false }),
    {
        AgentCommand::send(message, InboxTarget::NextStep, false)
    }

    pub fn cancel(cause: CancelCause, keep_inbox: bool) -> (r: AgentCommand)
        ensures
            r == (AgentCommand::Cancel { cause, keep_inbox }),
    {
        AgentCommand::Cancel { cause, keep_inbox }
    }

    pub fn resolve_approval(
        approval_id: ApprovalId,
        decision: ApprovalDecision,
        note: Option<String>,
    ) -> (r: AgentCommand)
        ensures
            r == (AgentCommand::ResolveApproval { approval_id, decision, note }),
    {
        AgentCommand::ResolveApproval { approval_id, decision, note }
    }
}

/// Durable acknowledgement of accepted input.
#[derive(Debug, PartialEq, Eq)]
pub struct SendReceipt {
    pub message_id: MessageId,
    pub event_id: EventId,
    pub seq: EventSeq,
    pub wake_requested: bool,
}

/// Durable acknowledgement of a decided approval.
#[derive(Debug, PartialEq, Eq)]
pub struct ApprovalReceipt {
    pub approval_id: ApprovalId,
    pub decision: ApprovalDecision,
    pub event_id: EventId,
    pub seq: EventSeq,
}

#[derive(Debug, PartialEq, Eq)]
pub enum AgentCommandAck {
    Send(SendReceipt),
    Cancelled,
    ApprovalResolved(ApprovalReceipt),
    Shutdown,
}

} // verus!
