//! Identifiers, counters and the small enumerations that the rest of the crate
//! is written in.

use vstd::prelude::*;

verus! {

/// The largest integer that every JSON reader represents exactly.
pub const MAX_JSON_SAFE_INTEGER: u64 = 9_007_199_254_740_991;

/// A text that names something. It is never empty.
#[derive(Debug, PartialEq, Eq, PartialOrd, Ord, Hash)]
pub struct Identifier {
    text: String,
}

pub type AgentInstanceId = Identifier;

pub type SessionId = Identifier;

pub type EventId = Identifier;

pub type MessageId = Identifier;

pub type RequestId = Identifier;

pub type ProviderId = Identifier;

pub type ToolCallId = Identifier;

pub type InvocationId = Identifier;

pub type IdempotencyKey = Identifier;

pub type ApprovalId = Identifier;

/// The refusal of an empty identifier.
#[derive(Clone, Copy, Debug, PartialEq, Eq, Structural)]
pub struct EmptyIdentifier;

impl EmptyIdentifier {
    pub fn message(&self) -> (r: String)
        ensures
            r@ == "identifier must not be empty"@,
    {
        "identifier must not be empty".to_owned()
    }
}

impl View for Identifier {
    type V = Seq<char>;

    closed spec fn view(&self) -> Seq<char> {
        self.text@
    }
}

impl Clone for Identifier {
    fn clone(&self) -> (r: Self)
        ensures
            r == *self,
    {
        proof {
            use_type_invariant(self);
        }
        Identifier { text: self.text.clone() }
    }
}

impl Identifier {
    #[verifier::type_invariant]
    spec fn non_empty(self) -> bool {
        self.text@.len() > 0
    }

    /// Takes a text as an identifier, unless it is empty.
    pub fn new(text: &str) -> (r: Result<Identifier, EmptyIdentifier>)
        ensures
            match r {
                Ok(id) => text@.len() > 0 && id@ == text@,
                Err(_) => text@.len() == 0,
            },
    {
        if text.is_empty() {
            Err(EmptyIdentifier)
        } else {
            Ok(Identifier { text: text.to_owned() })
        }
    }

    pub fn as_str(&self) -> (r: &str)
        ensures
            r@ == self@,
            r@.len() > 0,
    {
        proof {
            use_type_invariant(self);
        }
        self.text.as_str()
    }

    pub fn into_string(self) -> (r: String)
        ensures
            r@ == self@,
    {
        self.text
    }

    /// Whether two identifiers have the same text.
    pub fn same(&self, other: &Identifier) -> (r: bool)
        ensures
            r == (self@ == other@),
    {
        self.text == other.text
    }
}

/// A position in a durable row or a numbered stretch of work, counted from one
/// and never past what JSON carries exactly.
#[derive(Clone, Copy, Debug, PartialEq, Eq, PartialOrd, Ord, Hash, Structural)]
pub struct Counter {
    value: u64,
}

pub type EventSeq = Counter;

pub type StreamSeq = Counter;

pub type TurnNo = Counter;

pub type StepNo = Counter;

/// The refusal of a counter value.
#[derive(Clone, Copy, Debug, PartialEq, Eq, Structural)]
pub enum CounterError {
    Zero,
    TooLarge,
}

pub open spec fn counter_error_text(e: CounterError) -> Seq<char> {
    match e {
        CounterError::Zero => "counter must start at one"@,
        CounterError::TooLarge => "counter exceeds the maximum safe JSON integer"@,
    }
}

impl CounterError {
    pub fn message(&self) -> (r: String)
        ensures
            r@ == counter_error_text(*self),
    {
        match self {
            CounterError::Zero => "counter must start at one".to_owned(),
            CounterError::TooLarge => "counter exceeds the maximum safe JSON integer".to_owned(),
        }
    }
}

impl View for Counter {
    type V = int;

    closed spec fn view(&self) -> int {
        self.value as int
    }
}

/// A counter is determined by its value.
pub broadcast proof fn lemma_counter_by_value(a: Counter, b: Counter)
    ensures
        #[trigger] a@ == #[trigger] b@ ==> a == b,
{
}

impl Counter {
    #[verifier::type_invariant]
    spec fn in_range(self) -> bool {
        1 <= self.value <= MAX_JSON_SAFE_INTEGER
    }

    /// The first position, one.
    pub fn first() -> (r: Counter)
        ensures
            r@ == 1,
    {
        Counter { value: 1 }
    }

    pub fn new(value: u64) -> (r: Result<Counter, CounterError>)
        ensures
            match r {
                Ok(c) => c@ == value && 1 <= value <= MAX_JSON_SAFE_INTEGER,
                Err(CounterError::Zero) => value == 0,
                Err(CounterError::TooLarge) => value > MAX_JSON_SAFE_INTEGER,
            },
    {
        if value == 0 {
            Err(CounterError::Zero)
        } else if value > MAX_JSON_SAFE_INTEGER {
            Err(CounterError::TooLarge)
        } else {
            Ok(Counter { value })
        }
    }

    pub fn get(&self) -> (r: u64)
        ensures
            r == self@,
            1 <= r <= MAX_JSON_SAFE_INTEGER,
    {
        proof {
            use_type_invariant(self);
        }
        self.value
    }

    /// The position after this one, unless this is the last.
    pub fn checked_next(&self) -> (r: Result<Counter, CounterError>)
        ensures
            match r {
                Ok(c) => self@ < MAX_JSON_SAFE_INTEGER && c@ == self@ + 1,
                Err(e) => self@ == MAX_JSON_SAFE_INTEGER && e == CounterError::TooLarge,
            },
    {
        proof {
            use_type_invariant(self);
        }
        if self.value == MAX_JSON_SAFE_INTEGER {
            Err(CounterError::TooLarge)
        } else {
            Ok(Counter { value: self.value + 1 })
        }
    }

    /// Whether `self` comes before `other`.
    pub fn before(&self, other: &Counter) -> (r: bool)
        ensures
            r == (self@ < other@),
    {
        self.value < other.value
    }
}

#[derive(Clone, Copy, Debug, PartialEq, Eq, Structural)]
pub enum Role {
    System,
    User,
    Assistant,
}

/// Where accepted input is taken up: at the start of a turn or inside a step.
#[derive(Clone, Copy, Debug, PartialEq, Eq, Structural)]
pub enum InboxTarget {
    NextTurn,
    NextStep,
}

/// What repeating a tool call does to the world.
#[derive(Clone, Copy, Debug, PartialEq, Eq, Structural)]
pub enum SideEffectClass {
    ReadOnly,
    IdempotentWrite,
    NonIdempotentWrite,
}

#[derive(Clone, Copy, Debug, PartialEq, Eq, Structural)]
pub enum CancelCause {
    User,
    Parent,
    Timeout,
    Policy,
    Shutdown,
    Disposed,
}

#[derive(Clone, Copy, Debug, PartialEq, Eq, Structural)]
pub enum ApprovalDecision {
    Allow,
    Deny,
}

#[derive(Clone, Copy, Debug, PartialEq, Eq, Structural)]
pub enum ErrorCode {
    InvalidArgument,
    NotFound,
    Conflict,
    PermissionDenied,
    Cancelled,
    DeadlineExceeded,
    ProviderUnavailable,
    ProviderProtocolError,
    ToolExecutionFailed,
    ModelRequestFailed,
    SessionCorrupt,
    UnknownOutcome,
    Internal,
}

} // verus!
