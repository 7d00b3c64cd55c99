//! Names that do not repeat.

use vstd::prelude::*;

use crate::protocol::common::is_lower_hex;
use crate::text::concat3;
use crate::types::{AgentInstanceId, EventId, Identifier, MessageId, SessionId};

verus! {

/// Whether a text is a random UUID without hyphens, in lower case.
pub open spec fn is_random_uuid(s: Seq<char>) -> bool {
    &&& s.len() == 32
    &&& forall|i: int| 0 <= i < s.len() ==> is_lower_hex(#[trigger] s[i])
    &&& s[12] == '4'
    &&& (s[16] == '8' || s[16] == '9' || s[16] == 'a' || s[16] == 'b')
}

/// A new `uuid::Uuid::new_v4()` in its `simple` notation. The claim is on the form
/// alone: 32 lower-case hexadecimal digits with the version and the variant of
/// a random UUID. Which one comes is chance, and nothing is said of it; where the
/// system has no random bytes to give, the call does not return.
#[verifier::external_body]
fn random_uuid() -> (r: String)
    ensures
        is_random_uuid(r@),
{
    uuid::Uuid::new_v4().simple().to_string()
}

/// `prefix` and `suffix` with an underscore between them.
pub fn prefixed_with(prefix: &str, suffix: &str) -> (r: Identifier)
    ensures
        r@ == prefix@ + "_"@ + suffix@,
{
    let text = concat3(prefix, "_", suffix);
    proof {
        reveal_strlit("_");
    }
    Identifier::new(text.as_str()).unwrap()
}

/// Whether a text is `prefix`, an underscore and a random UUID.
pub open spec fn is_fresh_name(prefix: Seq<char>, name: Seq<char>) -> bool {
    exists|suffix: Seq<char>| #[trigger]
        is_random_uuid(suffix) && name == prefix + "_"@ + suffix
}

fn prefixed(prefix: &str) -> (r: Identifier)
    ensures
        is_fresh_name(prefix@, r@),
{
    let suffix = random_uuid();
    prefixed_with(prefix, suffix.as_str())
}

/// Names made of random UUIDs.
#[derive(Clone, Copy, Debug, PartialEq, Eq, Structural)]
pub struct UuidIdentitySource;

impl Default for UuidIdentitySource {
    fn default() -> (r: Self)
        ensures
            r == UuidIdentitySource,
    {
        UuidIdentitySource
    }
}

impl UuidIdentitySource {
    pub fn next_message_id(&self) -> (r: MessageId)
        ensures
            is_fresh_name("msg"@, r@),
    {
        prefixed("msg")
    }

    pub fn next_event_id(&self) -> (r: EventId)
        ensures
            is_fresh_name("evt"@, r@),
    {
        prefixed("evt")
    }

    pub fn next_session_id(&self) -> (r: SessionId)
        ensures
            is_fresh_name("ses"@, r@),
    {
        prefixed("ses")
    }

    pub fn next_agent_instance_id(&self) -> (r: AgentInstanceId)
        ensures
            is_fresh_name("agt"@, r@),
    {
        prefixed("agt")
    }
}

/// Names for different things differ, whatever chance gives.
pub proof fn law_kinds_of_names_are_told_apart(
    message: Seq<char>,
    event: Seq<char>,
    session: Seq<char>,
    agent: Seq<char>,
)
    requires
        is_fresh_name("msg"@, message),
        is_fresh_name("evt"@, event),
        is_fresh_name("ses"@, session),
        is_fresh_name("agt"@, agent),
    ensures
        message != event,
        message != session,
        message != agent,
        event != session,
        event != agent,
        session != agent,
{
    reveal_strlit("msg");
    reveal_strlit("evt");
    reveal_strlit("ses");
    reveal_strlit("agt");
    assert(message[0] == 'm');
    assert(event[0] == 'e');
    assert(session[0] == 's');
    assert(agent[0] == 'a');
}

} // verus!
