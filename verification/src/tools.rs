//! Tools: their definitions, the registry that binds them to providers, and
//! what policy says of a call.

use vstd::prelude::*;

use crate::json::JsonText;
use crate::session::PendingToolCall;
use crate::types::{
    IdempotencyKey, InvocationId, ProviderId, SessionId, SideEffectClass, StepNo, ToolCallId,
    TurnNo,
};

verus! {

/// Whether a provider recognises repeated calls by their key.
#[derive(Clone, Copy, Debug, PartialEq, Eq, Structural)]
pub enum IdempotencySupport {
    Unsupported,
    Keyed,
}

/// A tool as the core defines it.
#[derive(Debug, PartialEq, Eq)]
pub struct ToolDefinition {
    pub name: String,
    pub description: String,
    pub version: String,
    pub input_schema: JsonText,
    pub output_schema: Option<JsonText>,
    pub side_effect: SideEffectClass,
    pub parallel_safe: bool,
    /// How long one attempt may take.
    pub default_timeout_ms: u64,
}

impl Clone for ToolDefinition {
    fn clone(&self) -> (r: Self)
        ensures
            r == *self,
    {
        ToolDefinition {
            name: self.name.clone(),
            description: self.description.clone(),
            version: self.version.clone(),
            input_schema: self.input_schema.clone(),
            output_schema: self.output_schema.clone(),
            side_effect: self.side_effect,
            parallel_safe: self.parallel_safe,
            default_timeout_ms: self.default_timeout_ms,
        }
    }
}

/// A definition with what is known of the executor behind it.
#[derive(Debug, PartialEq, Eq)]
pub struct ToolRegistration {
    pub definition: ToolDefinition,
    pub provider_id: ProviderId,
    pub idempotency_support: IdempotencySupport,
}

impl Clone for ToolRegistration {
    fn clone(&self) -> (r: Self)
        ensures
            r == *self,
    {
        ToolRegistration {
            definition: self.definition.clone(),
            provider_id: self.provider_id.clone(),
            idempotency_support: self.idempotency_support,
        }
    }
}

/// The registered tools; a look-up by name takes the first.
#[derive(Debug, PartialEq, Eq)]
pub struct ToolRegistry {
    pub registrations: Vec<ToolRegistration>,
}

/// The registration of the tool `name`.
pub open spec fn registration_of(
    registrations: Seq<ToolRegistration>,
    name: Seq<char>,
) -> Option<ToolRegistration>
    decreases registrations.len(),
{
    if registrations.len() == 0 {
        None
    } else if registrations[0].definition.name@ == name {
        Some(registrations[0])
    } else {
        registration_of(registrations.drop_first(), name)
    }
}

impl ToolRegistry {
    pub fn resolve(&self, name: &String) -> (r: Option<&ToolRegistration>)
        ensures
            match r {
                Some(t) => registration_of(self.registrations@, name@) == Some(*t),
                None => registration_of(self.registrations@, name@) is None,
            },
    {
        let mut i: usize = 0;
        assert(self.registrations@.skip(0) =~= self.registrations@);
        while i < self.registrations.len()
            invariant
                i <= self.registrations@.len(),
                registration_of(self.registrations@, name@) == registration_of(
                    self.registrations@.skip(i as int),
                    name@,
                ),
            decreases self.registrations@.len() - i,
        {
            assert(self.registrations@.skip(i as int)[0] == self.registrations@[i as int]);
            assert(self.registrations@.skip(i as int).drop_first() =~= self.registrations@.skip(
                i + 1,
            ));
            if self.registrations[i].definition.name == *name {
                return Some(&self.registrations[i]);
            }
            i = i + 1;
        }
        None
    }
}

/// What the tool policy says of a call.
#[derive(Debug, PartialEq, Eq)]
pub enum PolicyDecision {
    Allow,
    Deny { reason: String },
    Ask { reason: String, risk: String },
}

/// What was found out about a call by the tool's argument check and, where the
/// arguments passed, by the tool policy.
#[derive(Debug, PartialEq, Eq)]
pub enum ToolReview {
    InvalidArguments { message: String },
    Decided(PolicyDecision),
}

/// What the tool policy is asked.
#[derive(Debug, PartialEq, Eq)]
pub struct ToolPolicyInput {
    pub session_id: SessionId,
    pub turn: TurnNo,
    pub step: StepNo,
    pub call_id: ToolCallId,
    pub tool_name: String,
    pub arguments_json: JsonText,
    pub side_effect: SideEffectClass,
}

/// The question that a pending call puts to the policy.
pub fn policy_input(session_id: &SessionId, pending: &PendingToolCall) -> (r: ToolPolicyInput)
    ensures
        r == (ToolPolicyInput {
            session_id: *session_id,
            turn: pending.turn,
            step: pending.step,
            call_id: pending.data.call_id,
            tool_name: pending.data.tool,
            arguments_json: pending.data.arguments_json,
            side_effect: pending.data.side_effect,
        }),
{
    ToolPolicyInput {
        session_id: session_id.clone(),
        turn: pending.turn,
        step: pending.step,
        call_id: pending.data.call_id.clone(),
        tool_name: pending.data.tool.clone(),
        arguments_json: pending.data.arguments_json.clone(),
        side_effect: pending.data.side_effect,
    }
}

/// One attempt of one tool call.
#[derive(Debug, PartialEq, Eq)]
pub struct ToolInvocation {
    pub invocation_id: InvocationId,
    pub call_id: ToolCallId,
    pub session_id: SessionId,
    pub turn: TurnNo,
    pub step: StepNo,
    pub tool_name: String,
    pub arguments_json: JsonText,
    pub attempt: u32,
    pub idempotency_key: IdempotencyKey,
}

/// A tool is found by its name, and no tool is found under a name that none has.
pub proof fn law_registrations_are_found_by_name(
    registrations: Seq<ToolRegistration>,
    name: Seq<char>,
)
    ensures
        match registration_of(registrations, name) {
            Some(t) => t.definition.name@ == name && registrations.contains(t),
            None => forall|i: int|
                0 <= i < registrations.len() ==> (#[trigger] registrations[i]).definition.name@
                    != name,
        },
    decreases registrations.len(),
{
    if registrations.len() > 0 {
        let rest = registrations.drop_first();
        law_registrations_are_found_by_name(rest, name);
        if registrations[0].definition.name@ == name {
            assert(registrations.contains(registrations[0]));
        } else if let Some(t) = registration_of(rest, name) {
            let i = choose|i: int| 0 <= i < rest.len() && rest[i] == t;
            assert(registrations[i + 1] == t);
        } else {
            assert forall|i: int| 0 <= i < registrations.len() implies (
            #[trigger] registrations[i]).definition.name@ != name by {
                if i > 0 {
                    assert(rest[i - 1] == registrations[i]);
                }
            }
        }
    }
}

} // verus!
