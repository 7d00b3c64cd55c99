//! Commands: accepting input, deciding approvals, and what a handled command
//! means for the loop that runs the agent.

use vstd::prelude::*;

use crate::agent::actor::append::AgentActor;
use crate::agent::command::{AgentCommandAck, ApprovalReceipt, SendReceipt};
use crate::agent::drafts::{drawn, free_draft, step_draft};
use crate::agent::error::{mutation, AgentError, AgentErrorView};
use crate::agent::event_source::AgentEventSource;
use crate::agent::state::AgentState;
use crate::message::Message;
use crate::session::{
    in_step, outside_turns, shape, ApprovalResolved, InboxEnqueued, NewSessionEvent, PayloadView,
    SessionEvent, SessionEventPayload, Shape, StepPosition,
};
use crate::text::{concat4, opt_text};
use crate::types::{ApprovalDecision, ApprovalId, InboxTarget, MessageId, Role};

verus! {

/// Why an agent has stopped.
#[derive(Debug, PartialEq)]
pub enum AgentExitReason {
    ShutdownRequested,
    MailboxClosed,
    Fatal(AgentError),
}

#[derive(Debug, PartialEq)]
pub struct AgentExit {
    pub reason: AgentExitReason,
    pub final_state: AgentState,
}

/// What follows a command, once its result has been sent back.
#[derive(Clone, Copy, Debug, PartialEq, Eq, Structural)]
pub enum AfterCommand {
    /// The agent can no longer own the session.
    Stop,
    /// Accepted work is taken up.
    Drive,
    /// The command was refused and nothing has changed.
    Wait,
}

/// What follows the result of a command.
pub open spec fn follows_command(r: Result<AgentCommandAck, AgentError>) -> AfterCommand {
    match r {
        Ok(_) => AfterCommand::Drive,
        Err(e) => if e is OwnershipLost || e is StorageContractViolation {
            AfterCommand::Stop
        } else {
            AfterCommand::Wait
        },
    }
}

/// Decides what follows the result of a command.
pub fn after_command(result: &Result<AgentCommandAck, AgentError>) -> (r: AfterCommand)
    ensures
        r == follows_command(*result),
{
    match result {
        Ok(_) => AfterCommand::Drive,
        Err(error) => if error.is_terminal_for_actor() {
            AfterCommand::Stop
        } else {
            AfterCommand::Wait
        },
    }
}

/// What has happened to the loop that runs an agent.
#[derive(Debug, PartialEq)]
pub enum MailboxEvent {
    /// Nobody holds the agent any more.
    Closed,
    /// Somebody asks for the agent's state.
    Snapshot,
    /// The completion of a model or tool operation was handled.
    CompletionHandled(Result<(), AgentError>),
    /// Somebody asks the agent to stop.
    Shutdown,
    /// A command was handled.
    CommandHandled(Result<AgentCommandAck, AgentError>),
    /// Pending work was taken as far as it goes.
    Driven(Result<(), AgentError>),
}

/// What is sent back first.
#[derive(Debug, PartialEq)]
pub enum MailboxReply {
    Nothing,
    State,
    Command(Result<AgentCommandAck, AgentError>),
}

/// What comes next. Before an exit all operations under way are aborted.
#[derive(Debug, PartialEq)]
pub enum MailboxNext {
    Wait,
    Drive,
    Exit(AgentExitReason),
}

/// One step of the loop: the reply goes out before anything else is done.
#[derive(Debug, PartialEq)]
pub struct MailboxStep {
    pub reply: MailboxReply,
    pub next: MailboxNext,
}

/// What comes next after work that may have failed.
pub open spec fn next_after(r: Result<(), AgentError>, done: MailboxNext) -> MailboxNext {
    match r {
        Ok(_) => done,
        Err(e) => MailboxNext::Exit(AgentExitReason::Fatal(e)),
    }
}

/// The step that an event calls for.
pub open spec fn step_for(event: MailboxEvent) -> MailboxStep {
    match event {
        MailboxEvent::Closed => MailboxStep {
            reply: MailboxReply::Nothing,
            next: MailboxNext::Exit(AgentExitReason::MailboxClosed),
        },
        MailboxEvent::Snapshot => MailboxStep {
            reply: MailboxReply::State,
            next: MailboxNext::Wait,
        },
        MailboxEvent::CompletionHandled(r) => MailboxStep {
            reply: MailboxReply::Nothing,
            next: next_after(r, MailboxNext::Drive),
        },
        MailboxEvent::Shutdown => MailboxStep {
            reply: MailboxReply::Command(Ok(AgentCommandAck::Shutdown)),
            next: MailboxNext::Exit(AgentExitReason::ShutdownRequested),
        },
        MailboxEvent::CommandHandled(r) => MailboxStep {
            reply: MailboxReply::Command(r),
            next: match follows_command(r) {
                AfterCommand::Stop => MailboxNext::Exit(AgentExitReason::Fatal(r->Err_0)),
                AfterCommand::Drive => MailboxNext::Drive,
                AfterCommand::Wait => MailboxNext::Wait,
            },
        },
        MailboxEvent::Driven(r) => MailboxStep {
            reply: MailboxReply::Nothing,
            next: next_after(r, MailboxNext::Wait),
        },
    }
}

fn fatal(r: Result<(), AgentError>, done: MailboxNext) -> (next: MailboxNext)
    ensures
        next == next_after(r, done),
{
    match r {
        Ok(()) => done,
        Err(error) => MailboxNext::Exit(AgentExitReason::Fatal(error)),
    }
}

/// Decides what the loop that runs an agent does about an event.
pub fn mailbox_step(event: MailboxEvent) -> (r: MailboxStep)
    ensures
        r == step_for(event),
{
    match event {
        MailboxEvent::Closed => MailboxStep {
            reply: MailboxReply::Nothing,
            next: MailboxNext::Exit(AgentExitReason::MailboxClosed),
        },
        MailboxEvent::Snapshot => MailboxStep {
            reply: MailboxReply::State,
            next: MailboxNext::Wait,
        },
        MailboxEvent::CompletionHandled(r) => MailboxStep {
            reply: MailboxReply::Nothing,
            next: fatal(r, MailboxNext::Drive),
        },
        MailboxEvent::Shutdown => MailboxStep {
            reply: MailboxReply::Command(Ok(AgentCommandAck::Shutdown)),
            next: MailboxNext::Exit(AgentExitReason::ShutdownRequested),
        },
        MailboxEvent::CommandHandled(r) => {
            let next = match (after_command(&r), &r) {
                (AfterCommand::Stop, Err(error)) => MailboxNext::Exit(
                    AgentExitReason::Fatal(error.clone()),
                ),
                (AfterCommand::Drive, _) => MailboxNext::Drive,
                _ => MailboxNext::Wait,
            };
            MailboxStep { reply: MailboxReply::Command(r), next }
        },
        MailboxEvent::Driven(r) => MailboxStep {
            reply: MailboxReply::Nothing,
            next: fatal(r, MailboxNext::Wait),
        },
    }
}

/// Every command is answered, and work is taken up only after a command that was
/// accepted or a completion that was recorded.
pub proof fn law_commands_are_answered(event: MailboxEvent)
    ensures
        event is CommandHandled || event is Shutdown ==> step_for(event).reply is Command,
        step_for(event).next is Drive ==> (event matches MailboxEvent::CommandHandled(Ok(_)))
            || (event matches MailboxEvent::CompletionHandled(Ok(_))),
        step_for(event).next is Exit ==> !(event is Snapshot),
{
}

/// What accepting a message writes; only messages of the user are accepted.
pub open spec fn accepted_input(
    message: Message,
    target: InboxTarget,
    wakeup: bool,
) -> Result<Shape, AgentErrorView> {
    if message.role != Role::User {
        Err(mutation("Agent Inbox accepts only user-role Messages in v0.1"@))
    } else {
        Ok(
            outside_turns(
                PayloadView::InboxEnqueued { message: message@, target, wakeup },
            ),
        )
    }
}

/// What deciding an approval writes.
pub open spec fn decided_approval(
    s: AgentState,
    approval_id: Seq<char>,
    decision: ApprovalDecision,
    note: Option<Seq<char>>,
) -> Result<Shape, AgentErrorView> {
    match s.projection.pending_approval {
        None => Err(mutation("no Tool approval is pending"@)),
        Some(pending) => if pending.data.approval_id@ != approval_id {
            Err(
                mutation(
                    "approval "@ + approval_id + " does not match pending approval "@
                        + pending.data.approval_id@,
                ),
            )
        } else {
            Ok(
                in_step(
                    PayloadView::ApprovalResolved {
                        approval_id,
                        call_id: pending.data.call_id@,
                        decision,
                        note,
                    },
                    StepPosition { turn: pending.turn, step: pending.step },
                ),
            )
        },
    }
}

/// Whether `r` is a draft with the wanted shape, or the refusal.
pub open spec fn drafted_one(
    want: Result<Shape, AgentErrorView>,
    r: Result<NewSessionEvent, AgentError>,
) -> bool {
    match want {
        Ok(s) => r matches Ok(d) && shape(d) == s,
        Err(e) => r matches Err(x) && x@ == e,
    }
}

impl AgentActor {
    /// Drafts the acceptance of a message.
    pub fn send_draft<E: AgentEventSource>(
        &self,
        source: &E,
        message: Message,
        target: InboxTarget,
        wakeup: bool,
    ) -> (r: Result<NewSessionEvent, AgentError>)
        ensures
            drafted_one(accepted_input(message, target, wakeup), r),
            r matches Ok(d) ==> drawn(source, d),
    {
        if message.role != Role::User {
            return Err(
                AgentError::mutation(
                    "Agent Inbox accepts only user-role Messages in v0.1".to_owned(),
                ),
            );
        }
        Ok(
            free_draft(
                source,
                SessionEventPayload::InboxEnqueued(InboxEnqueued { message, target, wakeup }),
            ),
        )
    }

    /// The acknowledgement of an accepted message, once it is written as `event`.
    pub fn send_receipt(&self, message_id: MessageId, event: &SessionEvent) -> (r: SendReceipt)
        ensures
            r == (SendReceipt {
                message_id,
                event_id: event.draft.event_id,
                seq: event.seq,
                wake_requested: self.state.wake_requested,
            }),
    {
        SendReceipt {
            message_id,
            event_id: event.draft.event_id.clone(),
            seq: event.seq,
            wake_requested: self.state.wake_requested,
        }
    }

    /// Drafts the decision on the pending approval.
    pub fn resolve_approval_draft<E: AgentEventSource>(
        &self,
        source: &E,
        approval_id: &ApprovalId,
        decision: ApprovalDecision,
        note: Option<String>,
    ) -> (r: Result<NewSessionEvent, AgentError>)
        ensures
            drafted_one(
                decided_approval(self.state, approval_id@, decision, opt_text(note)),
                r,
            ),
            r matches Ok(d) ==> drawn(source, d),
    {
        let pending = match &self.state.projection.pending_approval {
            Some(pending) => pending,
            None => {
                return Err(AgentError::mutation("no Tool approval is pending".to_owned()));
            },
        };
        if !pending.data.approval_id.same(approval_id) {
            return Err(
                AgentError::mutation(
                    concat4(
                        "approval ",
                        approval_id.as_str(),
                        " does not match pending approval ",
                        pending.data.approval_id.as_str(),
                    ),
                ),
            );
        }
        Ok(
            step_draft(
                source,
                SessionEventPayload::ApprovalResolved(
                    ApprovalResolved {
                        approval_id: approval_id.clone(),
                        call_id: pending.data.call_id.clone(),
                        decision,
                        note,
                    },
                ),
                StepPosition { turn: pending.turn, step: pending.step },
            ),
        )
    }

    /// The acknowledgement of a decided approval, once it is written as `event`.
    pub fn approval_receipt(
        approval_id: ApprovalId,
        decision: ApprovalDecision,
        event: &SessionEvent,
    ) -> (r: ApprovalReceipt)
        ensures
            r == (ApprovalReceipt {
                approval_id,
                decision,
                event_id: event.draft.event_id,
                seq: event.seq,
            }),
    {
        ApprovalReceipt {
            approval_id,
            decision,
            event_id: event.draft.event_id.clone(),
            seq: event.seq,
        }
    }
}

/// A message of the user is accepted for exactly the place that was asked for, outside any
/// turn, and nothing is changed about it; a message in any other role is refused.
pub proof fn law_user_messages_are_accepted(
    message: Message,
    target: InboxTarget,
    wakeup: bool,
    r: Result<NewSessionEvent, AgentError>,
)
    requires
        drafted_one(accepted_input(message, target, wakeup), r),
    ensures
        r is Ok <==> message.role == Role::User,
        r matches Ok(d) ==> {
            &&& d.payload@ matches PayloadView::InboxEnqueued { message: m, target: t, wakeup: w }
            &&& m == message@ && t == target && w == wakeup
            &&& d.turn is None && d.step is None
        },
        r matches Err(e) ==> e@ is InvalidDurableMutation,
{
}

/// Deciding an approval records exactly the decision and note that were given, for the
/// pending approval and its call, in the step that asked for it. Only the approval that is
/// pending can be decided.
pub proof fn law_approvals_are_decided_as_asked(
    s: AgentState,
    approval_id: Seq<char>,
    decision: ApprovalDecision,
    note: Option<Seq<char>>,
    r: Result<NewSessionEvent, AgentError>,
)
    requires
        drafted_one(decided_approval(s, approval_id, decision, note), r),
    ensures
        r is Ok <==> (s.projection.pending_approval matches Some(a) && a.data.approval_id@
            == approval_id),
        r matches Ok(d) ==> {
            &&& s.projection.pending_approval matches Some(a)
            &&& d.payload@ matches PayloadView::ApprovalResolved {
                approval_id: i,
                call_id,
                decision: c,
                note: n,
            }
            &&& i == approval_id && call_id == a.data.call_id@ && c == decision && n == note
            &&& d.turn == Some(a.turn) && d.step == Some(a.step)
        },
{
}

/// A refused command leaves the agent waiting, unless the session can no longer be owned:
/// lost ownership and a store that broke its contract stop the agent with that error. An
/// accepted command is followed by work.
pub proof fn law_commands_have_their_consequence(r: Result<AgentCommandAck, AgentError>)
    ensures
        ({
            let step = step_for(MailboxEvent::CommandHandled(r));
            &&& step.reply == MailboxReply::Command(r)
            &&& match r {
                Ok(_) => step.next is Drive,
                Err(e) => if e is OwnershipLost || e is StorageContractViolation {
                    step.next == MailboxNext::Exit(AgentExitReason::Fatal(e))
                } else {
                    step.next is Wait
                },
            }
        }),
{
}

/// Work that fails stops the agent with its error; recorded completions are followed by
/// work, and work that was done by waiting. A request for the state changes nothing, and
/// the agent stops when it is asked to or when nobody holds it any more.
pub proof fn law_events_have_their_consequence(r: Result<(), AgentError>)
    ensures
        r matches Err(e) ==> step_for(MailboxEvent::CompletionHandled(r)).next
            == MailboxNext::Exit(AgentExitReason::Fatal(e)) && step_for(
            MailboxEvent::Driven(r),
        ).next == MailboxNext::Exit(AgentExitReason::Fatal(e)),
        r is Ok ==> step_for(MailboxEvent::CompletionHandled(r)).next is Drive && step_for(
            MailboxEvent::Driven(r),
        ).next is Wait,
        step_for(MailboxEvent::Snapshot) == (MailboxStep {
            reply: MailboxReply::State,
            next: MailboxNext::Wait,
        }),
        step_for(MailboxEvent::Shutdown).next == MailboxNext::Exit(
            AgentExitReason::ShutdownRequested,
        ),
        step_for(MailboxEvent::Shutdown).reply == MailboxReply::Command(
            Ok::<AgentCommandAck, AgentError>(AgentCommandAck::Shutdown),
        ),
        step_for(MailboxEvent::Closed).next == MailboxNext::Exit(AgentExitReason::MailboxClosed),
{
}

} // verus!
