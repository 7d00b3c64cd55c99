//! What a caller of a live agent makes of the acknowledgements it gets.

use vstd::prelude::*;

use crate::agent::command::{AgentCommandAck, ApprovalReceipt, SendReceipt};
use crate::agent::error::{agent_error_text, AgentError, AgentErrorView};

verus! {

/// Why a caller got no acknowledgement of its command.
#[derive(Debug, PartialEq)]
pub enum AgentHandleError {
    ActorClosed,
    AcknowledgementDropped,
    AcknowledgementMismatch,
    Command(AgentError),
}

#[verifier::ext_equal]
pub enum HandleErrorView {
    ActorClosed,
    AcknowledgementDropped,
    AcknowledgementMismatch,
    Command(AgentErrorView),
}

impl View for AgentHandleError {
    type V = HandleErrorView;

    open spec fn view(&self) -> HandleErrorView {
        match self {
            AgentHandleError::ActorClosed => HandleErrorView::ActorClosed,
            AgentHandleError::AcknowledgementDropped => HandleErrorView::AcknowledgementDropped,
            AgentHandleError::AcknowledgementMismatch => HandleErrorView::AcknowledgementMismatch,
            AgentHandleError::Command(error) => HandleErrorView::Command(error@),
        }
    }
}

pub open spec fn handle_error_text(e: HandleErrorView) -> Seq<char> {
    match e {
        HandleErrorView::ActorClosed => "agent actor mailbox is closed"@,
        HandleErrorView::AcknowledgementDropped => {
            "agent actor dropped the command acknowledgement"@
        },
        HandleErrorView::AcknowledgementMismatch => {
            "agent actor returned an acknowledgement that does not match the submitted command"@
        },
        HandleErrorView::Command(error) => agent_error_text(error),
    }
}

impl AgentHandleError {
    pub fn message(&self) -> (r: String)
        ensures
            r@ == handle_error_text(self@),
    {
        match self {
            AgentHandleError::ActorClosed => "agent actor mailbox is closed".to_owned(),
            AgentHandleError::AcknowledgementDropped => {
                "agent actor dropped the command acknowledgement".to_owned()
            },
            AgentHandleError::AcknowledgementMismatch => {
                "agent actor returned an acknowledgement that does not match the submitted command".to_owned()
            },
            AgentHandleError::Command(error) => error.message(),
        }
    }
}

/// What came back for a command that was handed to an agent.
#[derive(Debug, PartialEq)]
pub enum Submission {
    /// The agent's mailbox is closed.
    Closed,
    /// The agent let go of the command without a word.
    Dropped,
    Answered(Result<AgentCommandAck, AgentError>),
}

/// The acknowledgement of a command, or why there is none.
pub fn submit(submission: Submission) -> (r: Result<AgentCommandAck, AgentHandleError>)
    ensures
        match submission {
            Submission::Closed => r == Err::<AgentCommandAck, AgentHandleError>(
                AgentHandleError::ActorClosed,
            ),
            Submission::Dropped => r == Err::<AgentCommandAck, AgentHandleError>(
                AgentHandleError::AcknowledgementDropped,
            ),
            Submission::Answered(Ok(ack)) => r == Ok::<AgentCommandAck, AgentHandleError>(ack),
            Submission::Answered(Err(error)) => r == Err::<AgentCommandAck, AgentHandleError>(
                AgentHandleError::Command(error),
            ),
        },
{
    match submission {
        Submission::Closed => Err(AgentHandleError::ActorClosed),
        Submission::Dropped => Err(AgentHandleError::AcknowledgementDropped),
        Submission::Answered(Ok(ack)) => Ok(ack),
        Submission::Answered(Err(error)) => Err(AgentHandleError::Command(error)),
    }
}

/// The receipt for input that was sent; any other acknowledgement is a mismatch.
pub fn send_receipt(ack: Result<AgentCommandAck, AgentHandleError>) -> (r: Result<
    SendReceipt,
    AgentHandleError,
>)
    ensures
        match ack {
            Ok(AgentCommandAck::Send(receipt)) => r == Ok::<SendReceipt, AgentHandleError>(receipt),
            Ok(_) => r == Err::<SendReceipt, AgentHandleError>(
                AgentHandleError::AcknowledgementMismatch,
            ),
            Err(error) => r == Err::<SendReceipt, AgentHandleError>(error),
        },
{
    match ack {
        Ok(AgentCommandAck::Send(receipt)) => Ok(receipt),
        Ok(_) => Err(AgentHandleError::AcknowledgementMismatch),
        Err(error) => Err(error),
    }
}

/// The end of a cancellation; any other acknowledgement is a mismatch.
pub fn cancelled(ack: Result<AgentCommandAck, AgentHandleError>) -> (r: Result<
    (),
    AgentHandleError,
>)
    ensures
        match ack {
            Ok(AgentCommandAck::Cancelled) => r == Ok::<(), AgentHandleError>(()),
            Ok(_) => r == Err::<(), AgentHandleError>(AgentHandleError::AcknowledgementMismatch),
            Err(error) => r == Err::<(), AgentHandleError>(error),
        },
{
    match ack {
        Ok(AgentCommandAck::Cancelled) => Ok(()),
        Ok(_) => Err(AgentHandleError::AcknowledgementMismatch),
        Err(error) => Err(error),
    }
}

/// The receipt for a decision on an approval; any other acknowledgement is a
/// mismatch.
pub fn approval_receipt(ack: Result<AgentCommandAck, AgentHandleError>) -> (r: Result<
    ApprovalReceipt,
    AgentHandleError,
>)
    ensures
        match ack {
            Ok(AgentCommandAck::ApprovalResolved(receipt)) => r == Ok::<
                ApprovalReceipt,
                AgentHandleError,
            >(receipt),
            Ok(_) => r == Err::<ApprovalReceipt, AgentHandleError>(
                AgentHandleError::AcknowledgementMismatch,
            ),
            Err(error) => r == Err::<ApprovalReceipt, AgentHandleError>(error),
        },
{
    match ack {
        Ok(AgentCommandAck::ApprovalResolved(receipt)) => Ok(receipt),
        Ok(_) => Err(AgentHandleError::AcknowledgementMismatch),
        Err(error) => Err(error),
    }
}

/// The end of an agent; any other acknowledgement is a mismatch.
pub fn shut_down(ack: Result<AgentCommandAck, AgentHandleError>) -> (r: Result<
    (),
    AgentHandleError,
>)
    ensures
        match ack {
            Ok(AgentCommandAck::Shutdown) => r == Ok::<(), AgentHandleError>(()),
            Ok(_) => r == Err::<(), AgentHandleError>(AgentHandleError::AcknowledgementMismatch),
            Err(error) => r == Err::<(), AgentHandleError>(error),
        },
{
    match ack {
        Ok(AgentCommandAck::Shutdown) => Ok(()),
        Ok(_) => Err(AgentHandleError::AcknowledgementMismatch),
        Err(error) => Err(error),
    }
}

} // verus!
