//! What starting, pinging, cancelling and stopping a provider carries.

use vstd::prelude::*;

use crate::protocol::common::WireCancelCause;

verus! {

pub const METHOD_PROVIDER_INITIALIZE: &'static str = "provider.initialize";

pub const METHOD_PROVIDER_PING: &'static str = "provider.ping";

pub const METHOD_PROVIDER_SHUTDOWN: &'static str = "provider.shutdown";

pub const METHOD_TOOL_INVOKE: &'static str = "tool.invoke";

pub const METHOD_LLM_START: &'static str = "llm.start";

pub const METHOD_LLM_EVENT: &'static str = "llm.event";

pub const METHOD_CAPABILITY_CANCEL: &'static str = "capability.cancel";

/// The program that embeds the host, as it introduces itself.
#[derive(Debug, PartialEq, Eq)]
pub struct RuntimeInfo {
    pub name: String,
    pub version: String,
}

#[derive(Debug, PartialEq, Eq)]
pub struct InitializeParams {
    pub protocol_version: String,
    pub runtime: RuntimeInfo,
}

#[derive(Clone, Copy, Debug, PartialEq, Eq, Structural)]
pub struct PingResult {
    pub ok: bool,
}

#[derive(Clone, Copy, Debug, PartialEq, Eq, Structural)]
pub struct ShutdownResult {
    pub accepted: bool,
}

#[derive(Debug, PartialEq, Eq)]
pub struct CapabilityCancelParams {
    pub operation_id: String,
    pub cause: WireCancelCause,
}

} // verus!
