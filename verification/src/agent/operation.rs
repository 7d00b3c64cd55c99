//! External operations: putting a streamed answer together as it arrives, and
//! the failures of operations that take too long.

use vstd::prelude::*;

use crate::json::{json_reading, JsonRootView};
use crate::llm::assembler::{
    assembly_error_text, is_outcome, is_sound, pushed, AssemblyErrorView, LlmStreamAssembler,
    LlmStreamOutcome, StreamAssemblyError,
};
use crate::llm::stream::{FinishReason, SequencedStreamEvent};
use crate::message::{plain_failure, PortableError, PortableErrorView};
use crate::text::{concat5, decimal, decimal_text};
use crate::types::{ErrorCode, InvocationId, RequestId, ToolCallId};

verus! {

/// An answer that is still arriving, or what it came to.
#[derive(Debug)]
pub enum StreamProgress {
    Open(LlmStreamAssembler),
    Ended(Result<LlmStreamOutcome, PortableError>),
}

/// A broken rule of the stream as a failure of the provider.
pub open spec fn protocol_failure(fault: AssemblyErrorView) -> PortableErrorView {
    plain_failure(ErrorCode::ProviderProtocolError, assembly_error_text(fault))
}

fn protocol_error(error: &StreamAssemblyError) -> (r: PortableError)
    ensures
        r@ == protocol_failure(error@),
{
    PortableError::new(ErrorCode::ProviderProtocolError, error.message())
}

/// Whether `r` is what the next item makes of an arriving answer: an event is
/// taken in, a failure ends the answer, and so does the end of the stream.
pub open spec fn is_progress(
    a: LlmStreamAssembler,
    item: Option<Result<SequencedStreamEvent, PortableError>>,
    reading: spec_fn(Seq<char>) -> Result<JsonRootView, Seq<char>>,
    r: StreamProgress,
) -> bool {
    match item {
        Some(Ok(event)) => {
            let p = pushed(a@, event.seq@, event.event@, reading);
            match p.fault {
                None => r matches StreamProgress::Open(b) && b@ == p.state && is_sound(b@),
                Some(fault) => r matches StreamProgress::Ended(Err(e)) && e@ == protocol_failure(
                    fault,
                ),
            }
        },
        Some(Err(failure)) => r matches StreamProgress::Ended(Err(e)) && e@ == failure@,
        None => match r {
            StreamProgress::Ended(Ok(outcome)) => is_outcome(
                a@,
                Ok::<LlmStreamOutcome, StreamAssemblyError>(outcome),
            ),
            StreamProgress::Ended(Err(e)) => a@.finish is None && e@ == protocol_failure(
                AssemblyErrorView::MissingFinish,
            ),
            StreamProgress::Open(_) => false,
        },
    }
}

/// Takes in the next item of a stream; `None` is its end.
pub fn stream_step(
    assembler: LlmStreamAssembler,
    item: Option<Result<SequencedStreamEvent, PortableError>>,
) -> (r: StreamProgress)
    requires
        is_sound(assembler@),
    ensures
        is_progress(assembler, item, |t: Seq<char>| json_reading(t), r),
{
    let mut assembler = assembler;
    match item {
        Some(Ok(event)) => match assembler.push(event) {
            Ok(()) => StreamProgress::Open(assembler),
            Err(error) => StreamProgress::Ended(Err(protocol_error(&error))),
        },
        Some(Err(failure)) => StreamProgress::Ended(Err(failure)),
        None => match assembler.finish() {
            Ok(outcome) => StreamProgress::Ended(Ok(outcome)),
            Err(error) => StreamProgress::Ended(Err(protocol_error(&error))),
        },
    }
}

/// The failure of a model request that takes longer than `timeout_ms`.
pub fn model_timeout_failure(request_id: &RequestId, timeout_ms: u64) -> (r: PortableError)
    ensures
        r@ == plain_failure(
            ErrorCode::DeadlineExceeded,
            "model request "@ + request_id@ + " exceeded timeout of "@ + decimal(timeout_ms as nat)
                + " ms"@,
        ),
{
    PortableError::new(
        ErrorCode::DeadlineExceeded,
        concat5(
            "model request ",
            request_id.as_str(),
            " exceeded timeout of ",
            decimal_text(timeout_ms).as_str(),
            " ms",
        ),
    )
}

/// The failure of a tool call that takes longer than `timeout_ms`.
pub fn tool_timeout_failure(
    invocation_id: &InvocationId,
    call_id: &ToolCallId,
    timeout_ms: u64,
) -> (r: PortableError)
    ensures
        r@ == plain_failure(
            ErrorCode::DeadlineExceeded,
            "tool invocation "@ + invocation_id@ + " for call "@ + call_id@
                + " exceeded timeout of "@ + decimal(timeout_ms as nat) + " ms"@,
        ),
{
    let mut text = concat5(
        "tool invocation ",
        invocation_id.as_str(),
        " for call ",
        call_id.as_str(),
        " exceeded timeout of ",
    );
    text.append(decimal_text(timeout_ms).as_str());
    text.append(" ms");
    PortableError::new(ErrorCode::DeadlineExceeded, text)
}

/// An event that keeps the rules leaves the answer open with the event taken in; one that
/// breaks a rule ends it as a fault of the provider, and a failure ends it as that failure.
pub proof fn law_broken_streams_end(
    a: LlmStreamAssembler,
    item: Result<SequencedStreamEvent, PortableError>,
    r: StreamProgress,
)
    requires
        is_progress(a, Some(item), |t: Seq<char>| json_reading(t), r),
    ensures
        match item {
            Err(failure) => r matches StreamProgress::Ended(Err(e)) && e@ == failure@,
            Ok(event) => {
                let p = pushed(a@, event.seq@, event.event@, |t: Seq<char>| json_reading(t));
                &&& p.fault is None ==> (r matches StreamProgress::Open(b) && b@ == p.state)
                &&& p.fault is Some ==> (r matches StreamProgress::Ended(Err(e)) && e@.code
                    == ErrorCode::ProviderProtocolError && e@.details.len() == 0)
            },
        },
{
}

/// A stream that ends amounts to its answer or failure if it was finished, and to a fault of
/// the provider if it was not; it is never left open.
pub proof fn law_ended_streams_have_an_outcome(a: LlmStreamAssembler, r: StreamProgress)
    requires
        is_progress(a, None, |t: Seq<char>| json_reading(t), r),
    ensures
        !(r is Open),
        a@.finish is None ==> (r matches StreamProgress::Ended(Err(e)) && e@.code
            == ErrorCode::ProviderProtocolError),
        a@.finish matches Some(f) ==> {
            &&& f.reason == FinishReason::Completed || f.reason == FinishReason::MaxTokens ==> (
            r matches StreamProgress::Ended(Ok(LlmStreamOutcome::Assistant { finish_reason, .. }))
                && finish_reason == f.reason)
            &&& f.reason == FinishReason::Error || f.reason == FinishReason::Cancelled ==> (
            r matches StreamProgress::Ended(
                Ok(LlmStreamOutcome::Failure { failure, finish_reason }),
            ) && finish_reason == f.reason && f.failure == Some(failure@))
        },
{
}

/// A stream that ends before it has finished is reported as such.
pub proof fn law_unfinished_streams_are_reported(a: LlmStreamAssembler, r: StreamProgress)
    requires
        is_progress(a, None, |t: Seq<char>| json_reading(t), r),
        a@.finish is None,
    ensures
        r matches StreamProgress::Ended(Err(e)) && e@.message
            == "stream ended without exactly one finish event"@,
{
}

} // verus!
