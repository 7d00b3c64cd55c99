//! The connection to one provider process: what is under way on it, where replies
//! and events go, and what a fault does to all of it.

use vstd::prelude::*;

use crate::config::plan::pairs;
use crate::host::adapter::LlmStreamItem;
use crate::host::error::{
    HostErrorView, ProviderHostError, ProviderState, ProviderStreamError, StreamErrorView,
};
use crate::json::JsonText;
use crate::llm::request::ModelRequestView;
use crate::llm::stream::StreamEventView;
use crate::protocol::codec::{codec_error_text, decode_inbound_line, decoded_line};
use crate::protocol::common::WireCancelCause;
use crate::protocol::jsonrpc::{
    InboundMessage, InboundView, OutcomeView, RpcErrorObject, RpcErrorView, RpcId,
    RpcResponseOutcome,
};
use crate::protocol::lifecycle::{
    CapabilityCancelParams, InitializeParams, PingResult, RuntimeInfo, ShutdownResult,
    METHOD_LLM_EVENT,
};
use crate::protocol::llm::{
    event_params_fault, llm_wire_error_text, start_fault, LlmEventParams, LlmStartParams,
    LlmStartResult, WireModelRequest,
};
use crate::protocol::manifest::{
    is_tool_named, manifest_error_text, manifest_fault, model_before, offers_model, tool_before,
    CapabilityView, ManifestView,
    ProviderManifest, PROTOCOL_VERSION,
};
use crate::protocol::tool::{
    deadline_offset, invoke_fault, outcome_fault, tool_invoke_error_text, ToolInvokeParams,
    ToolInvokeResult,
};
use crate::text::{
    blank, concat2, concat3, concat4, concat5, decimal, decimal_text, is_blank, opt_text,
    same_text, texts,
};

verus! {

/// How many ids of requests that nobody waits for any more are remembered.
pub const RETIRED_RPC_ID_LIMIT: usize = 1024;

/// How a provider process is started and how long it is waited for.
#[derive(Debug, PartialEq, Eq)]
pub struct ProviderHostConfig {
    pub program: String,
    pub args: Vec<String>,
    pub env: Vec<(String, String)>,
    pub current_dir: Option<String>,
    pub runtime: RuntimeInfo,
    pub request_timeout_ms: u64,
    pub shutdown_timeout_ms: u64,
    pub max_stdout_line_bytes: usize,
    pub stderr_history_lines: usize,
}

/// The view of a check.
pub open spec fn host_check(r: Result<(), ProviderHostError>) -> Option<HostErrorView> {
    match r {
        Ok(_) => None,
        Err(e) => Some(e@),
    }
}

/// What is wrong with a configuration.
pub open spec fn config_fault(c: ProviderHostConfig) -> Option<HostErrorView> {
    if c.program@.len() == 0 {
        Some(HostErrorView::InvalidConfig("provider program must not be empty"@))
    } else if is_blank(c.runtime.name@) || is_blank(c.runtime.version@) {
        Some(HostErrorView::InvalidConfig("runtime name/version must not be empty"@))
    } else if c.request_timeout_ms == 0 || c.shutdown_timeout_ms == 0 {
        Some(
            HostErrorView::InvalidConfig(
                "provider request/shutdown timeouts must be greater than zero"@,
            ),
        )
    } else if c.max_stdout_line_bytes == 0 || c.stderr_history_lines == 0 {
        Some(
            HostErrorView::InvalidConfig(
                "stdout line limit and stderr history capacity must be greater than zero"@,
            ),
        )
    } else {
        None
    }
}

/// The place of the first entry for `key`.
pub open spec fn entry_of(s: Seq<(Seq<char>, Seq<char>)>, key: Seq<char>, i: int) -> Option<int>
    decreases s.len() - i,
{
    if i >= s.len() {
        None
    } else if s[i].0 == key {
        Some(i)
    } else {
        entry_of(s, key, i + 1)
    }
}

/// Entries with `value` for `key`.
pub open spec fn with_entry(
    s: Seq<(Seq<char>, Seq<char>)>,
    key: Seq<char>,
    value: Seq<char>,
) -> Seq<(Seq<char>, Seq<char>)> {
    match entry_of(s, key, 0) {
        Some(i) => s.update(i, (key, value)),
        None => s.push((key, value)),
    }
}

impl ProviderHostConfig {
    pub fn new(program: &str, runtime: RuntimeInfo) -> (r: Self)
        ensures
            r.program@ == program@,
            r.args@.len() == 0,
            r.env@.len() == 0,
            r.current_dir is None,
            r.runtime == runtime,
            r.request_timeout_ms == 30_000,
            r.shutdown_timeout_ms == 5_000,
            r.max_stdout_line_bytes == 1024 * 1024,
            r.stderr_history_lines == 128,
    {
        ProviderHostConfig {
            program: program.to_owned(),
            args: Vec::new(),
            env: Vec::new(),
            current_dir: None,
            runtime,
            request_timeout_ms: 30_000,
            shutdown_timeout_ms: 5_000,
            max_stdout_line_bytes: 1024 * 1024,
            stderr_history_lines: 128,
        }
    }

    pub fn arg(self, arg: &str) -> (r: Self)
        ensures
            texts(r.args@) == texts(self.args@).push(arg@),
            r == (ProviderHostConfig { args: r.args, ..self }),
    {
        let mut config = self;
        config.args.push(arg.to_owned());
        assert(texts(config.args@) =~= texts(self.args@).push(arg@));
        config
    }

    /// Sets a variable of the process's environment; a later value replaces an
    /// earlier one.
    pub fn env(self, key: &str, value: &str) -> (r: Self)
        ensures
            pairs(r.env@) == with_entry(pairs(self.env@), key@, value@),
            r == (ProviderHostConfig { env: r.env, ..self }),
    {
        let mut config = self;
        let ghost all = pairs(config.env@);
        let mut i: usize = 0;
        while i < config.env.len()
            invariant
                i <= config.env@.len(),
                all == pairs(config.env@),
                config.env@ == self.env@,
                entry_of(all, key@, 0) == entry_of(all, key@, i as int),
                config == (ProviderHostConfig { env: config.env, ..self }),
            decreases config.env@.len() - i,
        {
            if same_text(config.env[i].0.as_str(), key) {
                config.env.set(i, (key.to_owned(), value.to_owned()));
                assert(pairs(config.env@) =~= all.update(i as int, (key@, value@)));
                return config;
            }
            i = i + 1;
        }
        config.env.push((key.to_owned(), value.to_owned()));
        assert(pairs(config.env@) =~= all.push((key@, value@)));
        config
    }

    pub fn current_dir(self, path: &str) -> (r: Self)
        ensures
            r.current_dir matches Some(dir) && dir@ == path@,
            r == (ProviderHostConfig { current_dir: r.current_dir, ..self }),
    {
        let mut config = self;
        config.current_dir = Some(path.to_owned());
        config
    }

    pub fn request_timeout(self, value_ms: u64) -> (r: Self)
        ensures
            r == (ProviderHostConfig { request_timeout_ms: value_ms, ..self }),
    {
        let mut config = self;
        config.request_timeout_ms = value_ms;
        config
    }

    pub fn shutdown_timeout(self, value_ms: u64) -> (r: Self)
        ensures
            r == (ProviderHostConfig { shutdown_timeout_ms: value_ms, ..self }),
    {
        let mut config = self;
        config.shutdown_timeout_ms = value_ms;
        config
    }

    pub fn validate(&self) -> (r: Result<(), ProviderHostError>)
        ensures
            host_check(r) == config_fault(*self),
    {
        if self.program.as_str().is_empty() {
            return Err(
                ProviderHostError::InvalidConfig("provider program must not be empty".to_owned()),
            );
        }
        if blank(self.runtime.name.as_str()) || blank(self.runtime.version.as_str()) {
            return Err(
                ProviderHostError::InvalidConfig(
                    "runtime name/version must not be empty".to_owned(),
                ),
            );
        }
        if self.request_timeout_ms == 0 || self.shutdown_timeout_ms == 0 {
            return Err(
                ProviderHostError::InvalidConfig(
                    "provider request/shutdown timeouts must be greater than zero".to_owned(),
                ),
            );
        }
        if self.max_stdout_line_bytes == 0 || self.stderr_history_lines == 0 {
            return Err(
                ProviderHostError::InvalidConfig(
                    "stdout line limit and stderr history capacity must be greater than zero".to_owned(),
                ),
            );
        }
        Ok(())
    }

    /// What the process is told first.
    pub fn initialize_params(self) -> (r: InitializeParams)
        ensures
            r.protocol_version@ == PROTOCOL_VERSION@,
            r.runtime == self.runtime,
    {
        InitializeParams { protocol_version: PROTOCOL_VERSION.to_owned(), runtime: self.runtime }
    }
}

/// Why a request got no result.
#[derive(Debug, PartialEq)]
pub enum PendingFailure {
    Rpc(RpcErrorObject),
    Transport(String),
    Protocol(String),
}

#[verifier::ext_equal]
pub enum PendingFailureView {
    Rpc(RpcErrorView),
    Transport(Seq<char>),
    Protocol(Seq<char>),
}

impl View for PendingFailure {
    type V = PendingFailureView;

    open spec fn view(&self) -> PendingFailureView {
        match self {
            PendingFailure::Rpc(error) => PendingFailureView::Rpc(error@),
            PendingFailure::Transport(message) => PendingFailureView::Transport(message@),
            PendingFailure::Protocol(message) => PendingFailureView::Protocol(message@),
        }
    }
}

/// A stream that is open, and the number that its next event must have.
#[derive(Debug, PartialEq, Eq)]
pub struct StreamRoute {
    pub stream_id: String,
    pub next_seq: u64,
}

/// The connection to one provider process.
#[derive(Debug, PartialEq)]
pub struct ProviderHost {
    pub state: ProviderState,
    pub manifest: Option<ProviderManifest>,
    /// Requests that somebody waits for.
    pub pending: Vec<RpcId>,
    /// Requests that nobody waits for any more, oldest first.
    pub retired_rpc_ids: Vec<RpcId>,
    pub streams: Vec<StreamRoute>,
    /// The last lines of the process's error output.
    pub stderr_history: Vec<String>,
    pub next_rpc_id: u64,
    pub next_stream_id: u64,
    pub max_stdout_line_bytes: usize,
    pub stderr_history_lines: usize,
}

/// The model of a connection.
#[verifier::ext_equal]
pub struct HostView {
    pub state: ProviderState,
    pub manifest: Option<ManifestView>,
    pub pending: Seq<Seq<char>>,
    pub retired: Seq<Seq<char>>,
    pub streams: Seq<(Seq<char>, u64)>,
    pub stderr: Seq<Seq<char>>,
    pub next_rpc_id: u64,
    pub next_stream_id: u64,
    pub max_line: usize,
    pub history: usize,
}

pub open spec fn ids(s: Seq<RpcId>) -> Seq<Seq<char>> {
    s.map_values(|id: RpcId| id@)
}

pub open spec fn routes(s: Seq<StreamRoute>) -> Seq<(Seq<char>, u64)> {
    s.map_values(|r: StreamRoute| (r.stream_id@, r.next_seq))
}

impl View for ProviderHost {
    type V = HostView;

    open spec fn view(&self) -> HostView {
        HostView {
            state: self.state,
            manifest: match self.manifest {
                Some(manifest) => Some(manifest@),
                None => None,
            },
            pending: ids(self.pending@),
            retired: ids(self.retired_rpc_ids@),
            streams: routes(self.streams@),
            stderr: texts(self.stderr_history@),
            next_rpc_id: self.next_rpc_id,
            next_stream_id: self.next_stream_id,
            max_line: self.max_stdout_line_bytes,
            history: self.stderr_history_lines,
        }
    }
}

/// What always holds of a connection: what it remembers is bounded.
pub open spec fn bounded(h: HostView) -> bool {
    &&& h.retired.len() <= RETIRED_RPC_ID_LIMIT
    &&& 0 < h.history
    &&& h.stderr.len() <= h.history
}

/// The first place of `x` from `i` on.
pub open spec fn place_of(s: Seq<Seq<char>>, x: Seq<char>, i: int) -> Option<int>
    decreases s.len() - i,
{
    if i >= s.len() {
        None
    } else if s[i] == x {
        Some(i)
    } else {
        place_of(s, x, i + 1)
    }
}

/// A row without its first `x`.
pub open spec fn without(s: Seq<Seq<char>>, x: Seq<char>) -> Seq<Seq<char>> {
    match place_of(s, x, 0) {
        Some(i) => s.remove(i),
        None => s,
    }
}

/// The place of the stream `id`, from `i` on.
pub open spec fn route_of(s: Seq<(Seq<char>, u64)>, id: Seq<char>, i: int) -> Option<int>
    decreases s.len() - i,
{
    if i >= s.len() {
        None
    } else if s[i].0 == id {
        Some(i)
    } else {
        route_of(s, id, i + 1)
    }
}

/// The streams without the stream `id`.
pub open spec fn without_stream(s: Seq<(Seq<char>, u64)>, id: Seq<char>) -> Seq<(Seq<char>, u64)> {
    match route_of(s, id, 0) {
        Some(i) => s.remove(i),
        None => s,
    }
}

/// A row with `x` at its end that holds no more than `limit`: the oldest goes.
pub open spec fn pushed(s: Seq<Seq<char>>, x: Seq<char>, limit: int) -> Seq<Seq<char>> {
    if s.len() >= limit {
        s.skip(1).push(x)
    } else {
        s.push(x)
    }
}

fn find_id(v: &Vec<RpcId>, id: &RpcId) -> (r: Option<usize>)
    ensures
        match r {
            Some(i) => i < v@.len() && place_of(ids(v@), id@, 0) == Some(i as int),
            None => place_of(ids(v@), id@, 0) is None,
        },
{
    let ghost all = ids(v@);
    let mut i: usize = 0;
    while i < v.len()
        invariant
            i <= v@.len(),
            all == ids(v@),
            place_of(all, id@, 0) == place_of(all, id@, i as int),
        decreases v@.len() - i,
    {
        if v[i].same(id) {
            return Some(i);
        }
        i = i + 1;
    }
    None
}

/// Takes the first `id` out of a row and says whether there was one.
fn take_id(v: &mut Vec<RpcId>, id: &RpcId) -> (r: bool)
    ensures
        r == (place_of(ids(old(v)@), id@, 0) is Some),
        ids(final(v)@) == without(ids(old(v)@), id@),
        final(v)@.len() <= old(v)@.len(),
{
    match find_id(v, id) {
        Some(i) => {
            let ghost before = v@;
            let _ = v.remove(i);
            assert(ids(v@) =~= ids(before).remove(i as int));
            true
        },
        None => false,
    }
}

fn find_route(v: &Vec<StreamRoute>, id: &String) -> (r: Option<usize>)
    ensures
        match r {
            Some(i) => i < v@.len() && route_of(routes(v@), id@, 0) == Some(i as int),
            None => route_of(routes(v@), id@, 0) is None,
        },
{
    let ghost all = routes(v@);
    let mut i: usize = 0;
    while i < v.len()
        invariant
            i <= v@.len(),
            all == routes(v@),
            route_of(all, id@, 0) == route_of(all, id@, i as int),
        decreases v@.len() - i,
    {
        if v[i].stream_id == *id {
            return Some(i);
        }
        i = i + 1;
    }
    None
}

fn take_route(v: &mut Vec<StreamRoute>, id: &String)
    ensures
        routes(final(v)@) == without_stream(routes(old(v)@), id@),
{
    if let Some(i) = find_route(v, id) {
        let ghost before = v@;
        let _ = v.remove(i);
        assert(routes(v@) =~= routes(before).remove(i as int));
    }
}

/// The id of the `n`th request.
pub open spec fn rpc_name(n: u64) -> Seq<char> {
    "rpc_"@ + decimal(n as nat)
}

/// The id of the `n`th stream.
pub open spec fn stream_name(n: u64) -> Seq<char> {
    "str_"@ + decimal(n as nat)
}

/// All that waited on a connection, and what each is told.
#[derive(Debug, PartialEq)]
pub struct Failures {
    pub pending: Vec<RpcId>,
    pub streams: Vec<StreamRoute>,
    pub pending_failure: PendingFailure,
    pub stream_failure: ProviderStreamError,
}

/// Whether `f` holds all that waited on `h`, with the two failures.
pub open spec fn fails_all(
    h: HostView,
    f: Failures,
    pending: PendingFailureView,
    stream: StreamErrorView,
) -> bool {
    &&& ids(f.pending@) == h.pending
    &&& routes(f.streams@) == h.streams
    &&& f.pending_failure@ == pending
    &&& f.stream_failure@ == stream
}

/// A connection on which nothing is under way any more.
pub open spec fn cleared(h: HostView, state: ProviderState) -> HostView {
    HostView { state, pending: Seq::empty(), streams: Seq::empty(), ..h }
}

/// The state after the provider broke the protocol.
pub open spec fn faulted_state(state: ProviderState) -> ProviderState {
    match state {
        ProviderState::Stopping => ProviderState::Stopping,
        ProviderState::Stopped => ProviderState::Stopped,
        _ => ProviderState::Unhealthy,
    }
}

/// The state after the pipe to the provider ended.
pub open spec fn ended_state(state: ProviderState) -> ProviderState {
    match state {
        ProviderState::Stopping => ProviderState::Stopped,
        ProviderState::Stopped => ProviderState::Stopped,
        _ => ProviderState::Unhealthy,
    }
}

/// What a message from the provider leads to.
#[derive(Debug, PartialEq)]
pub enum Inbound {
    /// A reply that somebody waits for.
    Reply { id: RpcId, reply: Result<JsonText, PendingFailure> },
    /// A reply that nobody waits for any more.
    Late,
    /// The parameters of an event of a stream.
    Event(JsonText),
}

#[verifier::ext_equal]
pub enum InboundEffect {
    Reply { id: Seq<char>, reply: Result<Seq<char>, PendingFailureView> },
    Late,
    Event(Seq<char>),
}

pub open spec fn reply_view(r: Result<JsonText, PendingFailure>) -> Result<
    Seq<char>,
    PendingFailureView,
> {
    match r {
        Ok(value) => Ok(value@),
        Err(failure) => Err(failure@),
    }
}

impl View for Inbound {
    type V = InboundEffect;

    open spec fn view(&self) -> InboundEffect {
        match self {
            Inbound::Reply { id, reply } => InboundEffect::Reply {
                id: id@,
                reply: reply_view(*reply),
            },
            Inbound::Late => InboundEffect::Late,
            Inbound::Event(params) => InboundEffect::Event(params@),
        }
    }
}

pub open spec fn effect_view(r: Result<Inbound, String>) -> Result<InboundEffect, Seq<char>> {
    match r {
        Ok(inbound) => Ok(inbound@),
        Err(message) => Err(message@),
    }
}

/// What an outcome tells the one who waits for it.
pub open spec fn reply_of(outcome: OutcomeView) -> Result<Seq<char>, PendingFailureView> {
    match outcome {
        OutcomeView::Success(value) => Ok(value),
        OutcomeView::Error(error) => Err(PendingFailureView::Rpc(error)),
    }
}

/// Where a message goes, and the connection after it. A response belongs to a
/// request under way, or to one that was given up; the only notification is an
/// event of a stream; providers make no requests.
pub open spec fn routed(h: HostView, m: InboundView) -> (HostView, Result<
    InboundEffect,
    Seq<char>,
>) {
    match m {
        InboundView::Response { id, outcome } => {
            if place_of(h.pending, id, 0) is Some {
                (
                    HostView { pending: without(h.pending, id), ..h },
                    Ok(InboundEffect::Reply { id, reply: reply_of(outcome) }),
                )
            } else if place_of(h.retired, id, 0) is Some {
                (HostView { retired: without(h.retired, id), ..h }, Ok(InboundEffect::Late))
            } else {
                (
                    h,
                    Err(
                        "provider response id "@ + id
                            + " does not correlate to an active request"@,
                    ),
                )
            }
        },
        InboundView::Notification { method, params } => {
            if method == METHOD_LLM_EVENT@ {
                (h, Ok(InboundEffect::Event(params)))
            } else {
                (h, Err("provider sent unsupported notification method "@ + method))
            }
        },
        InboundView::Request { id, method, .. } => (
            h,
            Err(
                "provider-to-Core JSON-RPC requests are not supported in protocol v1: "@ + method
                    + " ("@ + id + ")"@,
            ),
        ),
    }
}

/// Where the message on a line goes, and the connection after it.
pub open spec fn line_routed(h: HostView, line: Seq<char>) -> (HostView, Result<
    InboundEffect,
    Seq<char>,
>) {
    if vstd::utf8::encode_utf8(line).len() > h.max_line {
        (
            h,
            Err("provider stdout frame exceeded "@ + decimal(h.max_line as nat) + " bytes"@),
        )
    } else {
        match decoded_line(line) {
            Err(error) => (h, Err(codec_error_text(error))),
            Ok(message) => routed(h, message),
        }
    }
}

/// One event, and the stream it goes to.
#[derive(Debug, PartialEq)]
pub struct StreamDelivery {
    pub stream_id: String,
    pub item: LlmStreamItem,
}

/// What is wrong with an event, and whether its stream is to be told so.
#[derive(Debug, PartialEq, Eq)]
pub struct EventFault {
    pub message: String,
    pub tells_stream: bool,
}

/// What an event does to the streams, or what is wrong with it.
pub open spec fn event_routed(
    streams: Seq<(Seq<char>, u64)>,
    stream_id: Seq<char>,
    seq: u64,
    event: StreamEventView,
) -> (Seq<(Seq<char>, u64)>, Option<(Seq<char>, bool)>) {
    if let Some(fault) = event_params_fault(stream_id, seq, event) {
        (streams, Some(("invalid llm.event: "@ + llm_wire_error_text(fault), false)))
    } else {
        match route_of(streams, stream_id, 0) {
            None => (
                streams,
                Some(("llm.event references unknown streamId "@ + stream_id, false)),
            ),
            Some(i) => {
                if seq != streams[i].1 {
                    (
                        streams.remove(i),
                        Some(
                            (
                                "llm.event stream "@ + stream_id + " expected seq "@ + decimal(
                                    streams[i].1 as nat,
                                ) + ", received "@ + decimal(seq as nat),
                                true,
                            ),
                        ),
                    )
                } else if event is Finish {
                    (streams.remove(i), None)
                } else {
                    (streams.update(i, (stream_id, (seq + 1) as u64)), None)
                }
            },
        }
    }
}

/// Whether a tool is declared.
pub open spec fn has_tool(m: Option<ManifestView>, tool: Seq<char>) -> bool {
    m matches Some(m) && tool_before(m.capabilities, m.capabilities.len() as int, tool)
}

/// What is wrong with asking for the tool `tool`.
pub open spec fn tool_capability_fault(m: Option<ManifestView>, tool: Seq<char>) -> Option<
    HostErrorView,
> {
    if has_tool(m, tool) {
        None
    } else {
        Some(HostErrorView::InvalidRequest("provider manifest does not declare tool "@ + tool))
    }
}

/// What is wrong with asking `provider` for the model `model`.
pub open spec fn llm_capability_fault(
    m: Option<ManifestView>,
    provider: Seq<char>,
    model: Seq<char>,
) -> Option<HostErrorView> {
    match m {
        None => Some(HostErrorView::InvalidRequest("provider manifest is unavailable"@)),
        Some(m) => {
            if m.provider_id != provider {
                Some(
                    HostErrorView::InvalidRequest(
                        "LLM request provider "@ + provider
                            + " does not match manifest provider "@ + m.provider_id,
                    ),
                )
            } else if !model_before(m.capabilities, m.capabilities.len() as int, model) {
                Some(
                    HostErrorView::InvalidRequest(
                        "provider manifest does not declare LLM model "@ + model,
                    ),
                )
            } else {
                None
            }
        },
    }
}

/// What is wrong with a state that is not the one expected.
pub open spec fn state_fault(actual: ProviderState, expected: ProviderState) -> Option<
    HostErrorView,
> {
    if actual != expected {
        Some(HostErrorView::InvalidState { expected, actual })
    } else {
        None
    }
}

impl ProviderHost {
    /// The connection to a process that has just been started.
    pub fn start(config: &ProviderHostConfig) -> (r: Result<Self, ProviderHostError>)
        ensures
            match r {
                Ok(host) => config_fault(*config) is None && bounded(host@) && host@ == (HostView {
                    state: ProviderState::Starting,
                    manifest: None,
                    pending: Seq::empty(),
                    retired: Seq::empty(),
                    streams: Seq::empty(),
                    stderr: Seq::empty(),
                    next_rpc_id: 1,
                    next_stream_id: 1,
                    max_line: config.max_stdout_line_bytes,
                    history: config.stderr_history_lines,
                }),
                Err(e) => config_fault(*config) == Some(e@),
            },
    {
        match config.validate() {
            Ok(()) => {
                let host = ProviderHost {
                    state: ProviderState::Starting,
                    manifest: None,
                    pending: Vec::new(),
                    retired_rpc_ids: Vec::new(),
                    streams: Vec::new(),
                    stderr_history: Vec::new(),
                    next_rpc_id: 1,
                    next_stream_id: 1,
                    max_stdout_line_bytes: config.max_stdout_line_bytes,
                    stderr_history_lines: config.stderr_history_lines,
                };
                assert(host@.pending =~= Seq::empty());
                assert(host@.retired =~= Seq::empty());
                assert(host@.streams =~= Seq::empty());
                assert(host@.stderr =~= Seq::empty());
                Ok(host)
            },
            Err(error) => Err(error),
        }
    }

    /// Takes the manifest that the process answered its initialisation with.
    pub fn initialized(&mut self, manifest: ProviderManifest) -> (r: Result<(), ProviderHostError>)
        ensures
            host_check(r) == (match manifest_fault(manifest@) {
                Some(fault) => Some(HostErrorView::InvalidManifest(manifest_error_text(fault))),
                None => None,
            }),
            final(self)@ == (if r is Ok {
                HostView {
                    state: ProviderState::Ready,
                    manifest: Some(manifest@),
                    ..old(self)@
                }
            } else {
                old(self)@
            }),
    {
        if let Err(error) = manifest.validate() {
            return Err(ProviderHostError::InvalidManifest(error.message()));
        }
        self.manifest = Some(manifest);
        self.state = ProviderState::Ready;
        Ok(())
    }

    pub fn state(&self) -> (r: ProviderState)
        ensures
            r == self@.state,
    {
        self.state
    }

    pub fn manifest(&self) -> (r: Option<&ProviderManifest>)
        ensures
            match r {
                Some(manifest) => self@.manifest == Some(manifest@),
                None => self@.manifest is None,
            },
    {
        match &self.manifest {
            Some(manifest) => Some(manifest),
            None => None,
        }
    }

    pub fn recent_stderr(&self) -> (r: &Vec<String>)
        ensures
            texts(r@) == self@.stderr,
    {
        &self.stderr_history
    }

    pub fn require_state(&self, expected: ProviderState) -> (r: Result<(), ProviderHostError>)
        ensures
            host_check(r) == state_fault(self@.state, expected),
    {
        if self.state != expected {
            return Err(ProviderHostError::InvalidState { expected, actual: self.state });
        }
        Ok(())
    }

    /// Gives a request its id and waits for it from now on.
    pub fn begin_request(&mut self) -> (r: RpcId)
        ensures
            r@ == rpc_name(old(self)@.next_rpc_id),
            final(self)@ == (HostView {
                pending: if place_of(old(self)@.pending, r@, 0) is Some {
                    old(self)@.pending
                } else {
                    old(self)@.pending.push(r@)
                },
                next_rpc_id: old(self)@.next_rpc_id.wrapping_add(1),
                ..old(self)@
            }),
    {
        let text = concat2("rpc_", decimal_text(self.next_rpc_id).as_str());
        proof {
            reveal_strlit("rpc_");
        }
        let id = RpcId::new(text.as_str()).unwrap();
        self.next_rpc_id = self.next_rpc_id.wrapping_add(1);
        if find_id(&self.pending, &id).is_none() {
            let ghost before = self.pending@;
            self.pending.push(id.clone());
            assert(ids(self.pending@) =~= ids(before).push(id@));
        }
        id
    }

    /// Stops waiting for a request that could not be sent.
    pub fn abandon_request(&mut self, id: &RpcId)
        ensures
            final(self)@ == (HostView {
                pending: without(old(self)@.pending, id@),
                ..old(self)@
            }),
    {
        let _ = take_id(&mut self.pending, id);
    }

    /// Stops waiting for a request that took too long. Its id is remembered, so
    /// that a late response is told from one that belongs to nothing.
    pub fn request_timed_out(&mut self, id: &RpcId, method: &str) -> (r: ProviderHostError)
        requires
            bounded(old(self)@),
        ensures
            r@ == (HostErrorView::RequestTimeout { method: method@ }),
            final(self)@ == (HostView {
                pending: without(old(self)@.pending, id@),
                retired: pushed(old(self)@.retired, id@, RETIRED_RPC_ID_LIMIT as int),
                ..old(self)@
            }),
            bounded(final(self)@),
    {
        self.retire_rpc_id(id);
        let _ = take_id(&mut self.pending, id);
        ProviderHostError::RequestTimeout { method: method.to_owned() }
    }

    fn retire_rpc_id(&mut self, id: &RpcId)
        requires
            bounded(old(self)@),
        ensures
            final(self)@ == (HostView {
                retired: pushed(old(self)@.retired, id@, RETIRED_RPC_ID_LIMIT as int),
                ..old(self)@
            }),
            bounded(final(self)@),
    {
        let ghost before = self.retired_rpc_ids@;
        if self.retired_rpc_ids.len() >= RETIRED_RPC_ID_LIMIT {
            let _ = self.retired_rpc_ids.remove(0);
            assert(ids(self.retired_rpc_ids@) =~= ids(before).skip(1));
        }
        let ghost kept = self.retired_rpc_ids@;
        self.retired_rpc_ids.push(id.clone());
        assert(ids(self.retired_rpc_ids@) =~= ids(kept).push(id@));
    }

    /// What a request got, or why it got nothing; without a reply the one who was to
    /// bring it is gone.
    pub fn take_reply(method: &str, reply: Option<Result<JsonText, PendingFailure>>) -> (r: Result<
        JsonText,
        ProviderHostError,
    >)
        ensures
            match reply {
                Some(Ok(value)) => r == Ok::<JsonText, ProviderHostError>(value),
                Some(Err(PendingFailure::Rpc(error))) => r matches Err(e) && e@ == (
                HostErrorView::Rpc {
                    code: error.code,
                    message: error.message@,
                    data: error@.data,
                }),
                Some(Err(PendingFailure::Transport(message))) => r matches Err(e) && e@
                    == HostErrorView::ProviderUnavailable(message@),
                Some(Err(PendingFailure::Protocol(message))) => r matches Err(e) && e@
                    == HostErrorView::Protocol(message@),
                None => r matches Err(e) && e@ == HostErrorView::ProviderUnavailable(
                    "response channel closed while waiting for "@ + method@,
                ),
            },
    {
        match reply {
            Some(Ok(value)) => Ok(value),
            Some(Err(PendingFailure::Rpc(error))) => Err(ProviderHostError::rpc(error)),
            Some(Err(PendingFailure::Transport(message))) => Err(
                ProviderHostError::ProviderUnavailable(message),
            ),
            Some(Err(PendingFailure::Protocol(message))) => Err(
                ProviderHostError::Protocol(message),
            ),
            None => Err(
                ProviderHostError::ProviderUnavailable(
                    concat2("response channel closed while waiting for ", method),
                ),
            ),
        }
    }

    /// Ends all that is under way with the two failures.
    fn fail_all(
        &mut self,
        pending_failure: PendingFailure,
        stream_failure: ProviderStreamError,
    ) -> (r: Failures)
        ensures
            fails_all(old(self)@, r, pending_failure@, stream_failure@),
            final(self)@ == cleared(old(self)@, old(self)@.state),
    {
        let mut pending: Vec<RpcId> = Vec::new();
        std::mem::swap(&mut pending, &mut self.pending);
        let mut streams: Vec<StreamRoute> = Vec::new();
        std::mem::swap(&mut streams, &mut self.streams);
        assert(ids(self.pending@) =~= Seq::empty());
        assert(routes(self.streams@) =~= Seq::empty());
        Failures { pending, streams, pending_failure, stream_failure }
    }

    /// Gives the provider up because it broke the protocol.
    pub fn protocol_fault(&mut self, message: String) -> (r: Failures)
        ensures
            fails_all(
                old(self)@,
                r,
                PendingFailureView::Protocol(message@),
                StreamErrorView::Protocol(message@),
            ),
            final(self)@ == cleared(old(self)@, faulted_state(old(self)@.state)),
    {
        self.state = match self.state {
            ProviderState::Stopping => ProviderState::Stopping,
            ProviderState::Stopped => ProviderState::Stopped,
            _ => ProviderState::Unhealthy,
        };
        self.fail_all(
            PendingFailure::Protocol(message.clone()),
            ProviderStreamError::Protocol(message),
        )
    }

    /// Gives the provider up because the pipe to it ended.
    pub fn provider_transport_ended(&mut self, message: String) -> (r: Failures)
        ensures
            fails_all(
                old(self)@,
                r,
                PendingFailureView::Transport(message@),
                StreamErrorView::ProviderUnavailable(message@),
            ),
            final(self)@ == cleared(old(self)@, ended_state(old(self)@.state)),
    {
        self.state = match self.state {
            ProviderState::Stopping => ProviderState::Stopped,
            ProviderState::Stopped => ProviderState::Stopped,
            _ => ProviderState::Unhealthy,
        };
        self.fail_all(
            PendingFailure::Transport(message.clone()),
            ProviderStreamError::ProviderUnavailable(message),
        )
    }

    /// Gives the provider up because it cannot be written to.
    pub fn write_failed(&mut self, error: String) -> (r: (ProviderHostError, Failures))
        ensures
            r.0@ == HostErrorView::Io(error@),
            fails_all(
                old(self)@,
                r.1,
                PendingFailureView::Transport("provider stdin write failed: "@ + error@),
                StreamErrorView::ProviderUnavailable("provider stdin write failed: "@ + error@),
            ),
            final(self)@ == cleared(old(self)@, ended_state(old(self)@.state)),
    {
        let failures = self.provider_transport_ended(
            concat2("provider stdin write failed: ", error.as_str()),
        );
        (ProviderHostError::Io(error), failures)
    }

    /// Gives the provider up because it cannot be read from. Output that is no text
    /// breaks the protocol; anything else is the end of the pipe.
    pub fn read_failed(&mut self, error: &str, invalid_data: bool) -> (r: Failures)
        ensures
            ({
                let message = "provider stdout read failed: "@ + error@;
                if invalid_data {
                    &&& fails_all(
                        old(self)@,
                        r,
                        PendingFailureView::Protocol(message),
                        StreamErrorView::Protocol(message),
                    )
                    &&& final(self)@ == cleared(old(self)@, faulted_state(old(self)@.state))
                } else {
                    &&& fails_all(
                        old(self)@,
                        r,
                        PendingFailureView::Transport(message),
                        StreamErrorView::ProviderUnavailable(message),
                    )
                    &&& final(self)@ == cleared(old(self)@, ended_state(old(self)@.state))
                }
            }),
    {
        let message = concat2("provider stdout read failed: ", error);
        if invalid_data {
            self.protocol_fault(message)
        } else {
            self.provider_transport_ended(message)
        }
    }

    /// Gives the provider up because its output ended.
    pub fn output_ended(&mut self) -> (r: Failures)
        ensures
            fails_all(
                old(self)@,
                r,
                PendingFailureView::Transport("provider stdout reached EOF"@),
                StreamErrorView::ProviderUnavailable("provider stdout reached EOF"@),
            ),
            final(self)@ == cleared(old(self)@, ended_state(old(self)@.state)),
    {
        self.provider_transport_ended("provider stdout reached EOF".to_owned())
    }

    /// Gives the provider up because it answered `method` with something else.
    pub fn invalid_result(&mut self, method: &str, error: String) -> (r: (
        ProviderHostError,
        Failures,
    ))
        ensures
            r.0@ == HostErrorView::DeserializeResponse(error@),
            ({
                let message = "provider returned invalid "@ + method@ + " result: "@ + error@;
                fails_all(
                    old(self)@,
                    r.1,
                    PendingFailureView::Protocol(message),
                    StreamErrorView::Protocol(message),
                )
            }),
            final(self)@ == cleared(old(self)@, faulted_state(old(self)@.state)),
    {
        let failures = self.protocol_fault(
            concat4("provider returned invalid ", method, " result: ", error.as_str()),
        );
        (ProviderHostError::DeserializeResponse(error), failures)
    }

    /// Finds out where a message goes.
    pub fn route_inbound(&mut self, message: InboundMessage) -> (r: Result<Inbound, String>)
        ensures
            (final(self)@, effect_view(r)) == routed(old(self)@, message@),
            bounded(old(self)@) ==> bounded(final(self)@),
    {
        match message {
            InboundMessage::Response(response) => {
                if take_id(&mut self.pending, &response.id) {
                    let reply = match response.outcome {
                        RpcResponseOutcome::Success(value) => Ok(value),
                        RpcResponseOutcome::Error(error) => Err(PendingFailure::Rpc(error)),
                    };
                    return Ok(Inbound::Reply { id: response.id, reply });
                }
                if take_id(&mut self.retired_rpc_ids, &response.id) {
                    return Ok(Inbound::Late);
                }
                Err(
                    concat3(
                        "provider response id ",
                        response.id.as_str(),
                        " does not correlate to an active request",
                    ),
                )
            },
            InboundMessage::Notification(notification) => {
                if same_text(notification.method.as_str(), METHOD_LLM_EVENT) {
                    Ok(Inbound::Event(notification.params))
                } else {
                    Err(
                        concat2(
                            "provider sent unsupported notification method ",
                            notification.method.as_str(),
                        ),
                    )
                }
            },
            InboundMessage::Request(request) => Err(
                concat5(
                    "provider-to-Core JSON-RPC requests are not supported in protocol v1: ",
                    request.method.as_str(),
                    " (",
                    request.id.as_str(),
                    ")",
                ),
            ),
        }
    }

    /// Reads one line of the provider's output and finds out where it goes. After an
    /// error the provider has broken the protocol.
    pub fn inbound_line(&mut self, line: &str) -> (r: Result<Inbound, String>)
        ensures
            (final(self)@, effect_view(r)) == line_routed(old(self)@, line@),
            bounded(old(self)@) ==> bounded(final(self)@),
    {
        if line.as_bytes().len() > self.max_stdout_line_bytes {
            return Err(
                concat3(
                    "provider stdout frame exceeded ",
                    decimal_text(self.max_stdout_line_bytes as u64).as_str(),
                    " bytes",
                ),
            );
        }
        match decode_inbound_line(line) {
            Ok(message) => self.route_inbound(message),
            Err(error) => Err(error.message()),
        }
    }

    /// Finds out which stream an event goes to.
    pub fn route_llm_event(&mut self, params: LlmEventParams) -> (r: Result<
        StreamDelivery,
        EventFault,
    >)
        ensures
            final(self)@ == (HostView {
                streams: event_routed(
                    old(self)@.streams,
                    params.stream_id@,
                    params.seq,
                    params.event@,
                ).0,
                ..old(self)@
            }),
            match r {
                Ok(delivery) => {
                    &&& event_routed(
                        old(self)@.streams,
                        params.stream_id@,
                        params.seq,
                        params.event@,
                    ).1 is None
                    &&& delivery.stream_id == params.stream_id
                    &&& delivery.item.seq == params.seq
                    &&& delivery.item.event == params.event
                },
                Err(fault) => event_routed(
                    old(self)@.streams,
                    params.stream_id@,
                    params.seq,
                    params.event@,
                ).1 == Some((fault.message@, fault.tells_stream)),
            },
    {
        if let Err(error) = params.validate() {
            return Err(
                EventFault {
                    message: concat2("invalid llm.event: ", error.message().as_str()),
                    tells_stream: false,
                },
            );
        }
        let i: usize = match find_route(&self.streams, &params.stream_id) {
            Some(i) => i,
            None => {
                return Err(
                    EventFault {
                        message: concat2(
                            "llm.event references unknown streamId ",
                            params.stream_id.as_str(),
                        ),
                        tells_stream: false,
                    },
                );
            },
        };
        let ghost before = self.streams@;
        let expected: u64 = self.streams[i].next_seq;
        if params.seq != expected {
            let head = concat4(
                "llm.event stream ",
                params.stream_id.as_str(),
                " expected seq ",
                decimal_text(expected).as_str(),
            );
            let message = concat3(
                head.as_str(),
                ", received ",
                decimal_text(params.seq).as_str(),
            );
            let _ = self.streams.remove(i);
            assert(routes(self.streams@) =~= routes(before).remove(i as int));
            return Err(EventFault { message, tells_stream: true });
        }
        if params.event.is_finish() {
            let _ = self.streams.remove(i);
            assert(routes(self.streams@) =~= routes(before).remove(i as int));
        } else {
            let route = StreamRoute {
                stream_id: params.stream_id.clone(),
                next_seq: expected + 1,
            };
            self.streams.set(i, route);
            assert(routes(self.streams@) =~= routes(before).update(
                i as int,
                (params.stream_id@, (params.seq + 1) as u64),
            ));
        }
        Ok(
            StreamDelivery {
                stream_id: params.stream_id,
                item: LlmStreamItem { seq: params.seq, event: params.event },
            },
        )
    }

    /// Keeps one line of the process's error output, as the last of a bounded number.
    pub fn stderr_line(&mut self, line: String)
        requires
            bounded(old(self)@),
        ensures
            final(self)@ == (HostView {
                stderr: pushed(old(self)@.stderr, line@, old(self)@.history as int),
                ..old(self)@
            }),
            bounded(final(self)@),
    {
        let ghost before = self.stderr_history@;
        if self.stderr_history.len() >= self.stderr_history_lines {
            let _ = self.stderr_history.remove(0);
            assert(texts(self.stderr_history@) =~= texts(before).skip(1));
        }
        let ghost kept = self.stderr_history@;
        self.stderr_history.push(line);
        assert(texts(self.stderr_history@) =~= texts(kept).push(line@));
    }

    pub fn require_tool_capability(&self, tool: &String) -> (r: Result<(), ProviderHostError>)
        ensures
            host_check(r) == tool_capability_fault(self@.manifest, tool@),
    {
        let declared = match &self.manifest {
            Some(manifest) => manifest.declares_tool(tool),
            None => false,
        };
        if !declared {
            return Err(
                ProviderHostError::InvalidRequest(
                    concat2("provider manifest does not declare tool ", tool.as_str()),
                ),
            );
        }
        Ok(())
    }

    pub fn require_llm_capability(&self, provider: &String, model: &String) -> (r: Result<
        (),
        ProviderHostError,
    >)
        ensures
            host_check(r) == llm_capability_fault(self@.manifest, provider@, model@),
    {
        let manifest = match &self.manifest {
            Some(manifest) => manifest,
            None => {
                return Err(
                    ProviderHostError::InvalidRequest(
                        "provider manifest is unavailable".to_owned(),
                    ),
                );
            },
        };
        if manifest.provider_id != *provider {
            return Err(
                ProviderHostError::InvalidRequest(
                    concat4(
                        "LLM request provider ",
                        provider.as_str(),
                        " does not match manifest provider ",
                        manifest.provider_id.as_str(),
                    ),
                ),
            );
        }
        if !manifest.declares_model(model) {
            return Err(
                ProviderHostError::InvalidRequest(
                    concat2("provider manifest does not declare LLM model ", model.as_str()),
                ),
            );
        }
        Ok(())
    }

    /// Checks a tool call before it is sent.
    pub fn begin_tool_call(&self, params: &ToolInvokeParams) -> (r: Result<(), ProviderHostError>)
        ensures
            host_check(r) == tool_call_refusal(self@, *params),
    {
        if let Err(error) = self.require_state(ProviderState::Ready) {
            return Err(error);
        }
        if let Err(error) = params.validate() {
            return Err(ProviderHostError::InvalidRequest(error.message()));
        }
        self.require_tool_capability(&params.tool)
    }

    /// Takes the result of a tool call. A result that is invalid breaks the protocol.
    pub fn finish_tool_call(&mut self, result: ToolInvokeResult) -> (r: Result<
        ToolInvokeResult,
        (ProviderHostError, Failures),
    >)
        ensures
            match outcome_fault(result.outcome@) {
                None => final(self)@ == old(self)@ && r == Ok::<
                    ToolInvokeResult,
                    (ProviderHostError, Failures),
                >(result),
                Some(fault) => {
                    let message = "provider returned invalid tool.invoke result: "@
                        + tool_invoke_error_text(fault);
                    &&& r matches Err(failed) && failed.0@ == HostErrorView::Protocol(message)
                        && fails_all(
                        old(self)@,
                        failed.1,
                        PendingFailureView::Protocol(message),
                        StreamErrorView::Protocol(message),
                    )
                    &&& final(self)@ == cleared(old(self)@, faulted_state(old(self)@.state))
                },
            },
    {
        match result.validate() {
            Ok(()) => Ok(result),
            Err(error) => {
                let message = concat2(
                    "provider returned invalid tool.invoke result: ",
                    error.message().as_str(),
                );
                let failures = self.protocol_fault(message.clone());
                Err((ProviderHostError::Protocol(message), failures))
            },
        }
    }

    /// Checks a stream before it is asked for and opens a route for it.
    pub fn begin_llm(
        &mut self,
        operation_id: String,
        request: WireModelRequest,
        deadline: Option<String>,
    ) -> (r: Result<LlmStartParams, ProviderHostError>)
        ensures
            match r {
                Ok(params) => {
                    &&& stream_refusal(old(self)@, operation_id@, request@, opt_text(deadline))
                        is None
                    &&& params.operation_id == operation_id
                    &&& params.stream_id@ == stream_name(old(self)@.next_stream_id)
                    &&& params.request == request
                    &&& params.deadline == deadline
                },
                Err(e) => stream_refusal(old(self)@, operation_id@, request@, opt_text(deadline))
                    == Some(e@),
            },
            final(self)@ == after_stream_request(old(self)@, r is Ok),
    {
        if let Err(error) = self.require_state(ProviderState::Ready) {
            return Err(error);
        }
        let stream_id = concat2("str_", decimal_text(self.next_stream_id).as_str());
        self.next_stream_id = self.next_stream_id.wrapping_add(1);
        let params = LlmStartParams { operation_id, stream_id, request, deadline };
        if let Err(error) = params.validate() {
            return Err(ProviderHostError::InvalidRequest(error.message()));
        }
        if let Err(error) = self.require_llm_capability(
            &params.request.provider,
            &params.request.model,
        ) {
            return Err(error);
        }
        take_route(&mut self.streams, &params.stream_id);
        let ghost kept = self.streams@;
        self.streams.push(StreamRoute { stream_id: params.stream_id.clone(), next_seq: 1 });
        assert(routes(self.streams@) =~= routes(kept).push((params.stream_id@, 1u64)));
        Ok(params)
    }

    /// Closes the route of a stream that could not be asked for.
    pub fn close_stream(&mut self, stream_id: &String)
        ensures
            final(self)@ == (HostView {
                streams: without_stream(old(self)@.streams, stream_id@),
                ..old(self)@
            }),
    {
        take_route(&mut self.streams, stream_id);
    }

    /// Takes the answer to a request for a stream. An answer for another stream
    /// breaks the protocol; a refusal closes the route.
    pub fn llm_started(&mut self, stream_id: &String, result: LlmStartResult) -> (r: Result<
        (),
        (ProviderHostError, Option<Failures>),
    >)
        ensures
            ({
                let closed = HostView {
                    streams: without_stream(old(self)@.streams, stream_id@),
                    ..old(self)@
                };
                if result.stream_id@ != stream_id@ {
                    let message = "llm.start echoed streamId "@ + result.stream_id@
                        + ", expected "@ + stream_id@;
                    &&& r matches Err((error, Some(failures))) && error@
                        == HostErrorView::Protocol(message) && fails_all(
                        closed,
                        failures,
                        PendingFailureView::Protocol(message),
                        StreamErrorView::Protocol(message),
                    )
                    &&& final(self)@ == cleared(closed, faulted_state(old(self)@.state))
                } else if !result.accepted {
                    let reason = match result.reason {
                        Some(reason) => reason@,
                        None => "provider rejected LLM stream"@,
                    };
                    &&& r matches Err((error, None)) && error@ == HostErrorView::StreamRejected(
                        reason,
                    )
                    &&& final(self)@ == closed
                } else {
                    r is Ok && final(self)@ == old(self)@
                }
            }),
    {
        if result.stream_id != *stream_id {
            take_route(&mut self.streams, stream_id);
            let message = concat4(
                "llm.start echoed streamId ",
                result.stream_id.as_str(),
                ", expected ",
                stream_id.as_str(),
            );
            let failures = self.protocol_fault(message.clone());
            return Err((ProviderHostError::Protocol(message), Some(failures)));
        }
        if !result.accepted {
            take_route(&mut self.streams, stream_id);
            let reason = match result.reason {
                Some(reason) => reason,
                None => "provider rejected LLM stream".to_owned(),
            };
            return Err((ProviderHostError::StreamRejected(reason), None));
        }
        Ok(())
    }

    /// What to send to cancel an operation.
    pub fn cancel(&self, operation_id: String, cause: WireCancelCause) -> (r: Result<
        CapabilityCancelParams,
        ProviderHostError,
    >)
        ensures
            match r {
                Ok(params) => self@.state == ProviderState::Ready && operation_id@.len() > 0
                    && params.operation_id == operation_id && params.cause == cause,
                Err(e) => e@ == (if self@.state != ProviderState::Ready {
                    HostErrorView::InvalidState {
                        expected: ProviderState::Ready,
                        actual: self@.state,
                    }
                } else {
                    HostErrorView::InvalidRequest(
                        "capability.cancel operationId must not be empty"@,
                    )
                }) && (self@.state != ProviderState::Ready || operation_id@.len() == 0),
            },
    {
        if let Err(error) = self.require_state(ProviderState::Ready) {
            return Err(error);
        }
        if operation_id.as_str().is_empty() {
            return Err(
                ProviderHostError::InvalidRequest(
                    "capability.cancel operationId must not be empty".to_owned(),
                ),
            );
        }
        Ok(CapabilityCancelParams { operation_id, cause })
    }

    /// What the answer to a ping means.
    pub fn ping_outcome(result: PingResult) -> (r: Result<(), ProviderHostError>)
        ensures
            host_check(r) == (if result.ok {
                None
            } else {
                Some(HostErrorView::UnexpectedResponse("provider.ping returned ok=false"@))
            }),
    {
        if !result.ok {
            return Err(
                ProviderHostError::UnexpectedResponse("provider.ping returned ok=false".to_owned()),
            );
        }
        Ok(())
    }

    /// Begins to stop the provider.
    pub fn begin_shutdown(&mut self) -> (r: ShutdownStart)
        ensures
            r == shutdown_start(old(self)@.state),
            final(self)@ == (if r is AlreadyStopped {
                old(self)@
            } else {
                HostView { state: ProviderState::Stopping, ..old(self)@ }
            }),
    {
        let previous = self.state;
        if previous == ProviderState::Stopped {
            return ShutdownStart::AlreadyStopped;
        }
        self.state = ProviderState::Stopping;
        if previous == ProviderState::Ready {
            ShutdownStart::AskFirst
        } else {
            ShutdownStart::StopNow
        }
    }

    /// What the answer to a request to stop means.
    pub fn shutdown_outcome(reply: Result<ShutdownResult, ProviderHostError>) -> (r: Result<
        (),
        ProviderHostError,
    >)
        ensures
            match reply {
                Ok(result) => host_check(r) == (if result.accepted {
                    None
                } else {
                    Some(
                        HostErrorView::UnexpectedResponse(
                            "provider.shutdown returned accepted=false"@,
                        ),
                    )
                }),
                Err(error) => r == Err::<(), ProviderHostError>(error),
            },
    {
        match reply {
            Ok(result) => {
                if result.accepted {
                    Ok(())
                } else {
                    Err(
                        ProviderHostError::UnexpectedResponse(
                            "provider.shutdown returned accepted=false".to_owned(),
                        ),
                    )
                }
            },
            Err(error) => Err(error),
        }
    }

    /// Ends the connection to a process that is gone.
    pub fn finish_shutdown(&mut self) -> (r: Failures)
        ensures
            fails_all(
                old(self)@,
                r,
                PendingFailureView::Transport("provider stopped"@),
                StreamErrorView::ProviderUnavailable("provider stopped"@),
            ),
            final(self)@ == cleared(old(self)@, ProviderState::Stopped),
    {
        self.state = ProviderState::Stopped;
        self.fail_all(
            PendingFailure::Transport("provider stopped".to_owned()),
            ProviderStreamError::ProviderUnavailable("provider stopped".to_owned()),
        )
    }
}

/// How stopping a provider begins.
#[derive(Clone, Copy, Debug, PartialEq, Eq, Structural)]
pub enum ShutdownStart {
    AlreadyStopped,
    /// The provider is asked to stop first.
    AskFirst,
    StopNow,
}

pub open spec fn shutdown_start(state: ProviderState) -> ShutdownStart {
    match state {
        ProviderState::Stopped => ShutdownStart::AlreadyStopped,
        ProviderState::Ready => ShutdownStart::AskFirst,
        _ => ShutdownStart::StopNow,
    }
}

/// Why a tool call is not sent.
pub open spec fn tool_call_refusal(h: HostView, params: ToolInvokeParams) -> Option<
    HostErrorView,
> {
    if let Some(error) = state_fault(h.state, ProviderState::Ready) {
        Some(error)
    } else if let Some(fault) = invoke_fault(
        params,
        crate::json::json_reading(params.arguments_json@),
        deadline_offset(opt_text(params.deadline)),
    ) {
        Some(HostErrorView::InvalidRequest(tool_invoke_error_text(fault)))
    } else {
        tool_capability_fault(h.manifest, params.tool@)
    }
}

/// Why a stream is not asked for.
pub open spec fn stream_refusal(
    h: HostView,
    operation_id: Seq<char>,
    request: ModelRequestView,
    deadline: Option<Seq<char>>,
) -> Option<HostErrorView> {
    if let Some(error) = state_fault(h.state, ProviderState::Ready) {
        Some(error)
    } else if let Some(fault) = start_fault(
        operation_id,
        stream_name(h.next_stream_id),
        request,
        deadline,
        deadline_offset(deadline),
    ) {
        Some(HostErrorView::InvalidRequest(llm_wire_error_text(fault)))
    } else {
        llm_capability_fault(h.manifest, request.provider, request.model)
    }
}

/// The connection after a request for a stream. A number that was given is not
/// given again, even where the request was refused.
pub open spec fn after_stream_request(h: HostView, opened: bool) -> HostView {
    if h.state != ProviderState::Ready {
        h
    } else {
        let name = stream_name(h.next_stream_id);
        HostView {
            next_stream_id: h.next_stream_id.wrapping_add(1),
            streams: if opened {
                without_stream(h.streams, name).push((name, 1u64))
            } else {
                h.streams
            },
            ..h
        }
    }
}

proof fn lemma_decimal_length(n: nat)
    ensures
        decimal(n).len() >= 1,
        n >= 10 ==> decimal(n).len() >= 2,
    decreases n,
{
    if n >= 10 {
        lemma_decimal_length(n / 10);
    }
}

/// A number is determined by its notation.
pub proof fn law_decimal_is_injective(a: nat, b: nat)
    requires
        decimal(a) == decimal(b),
    ensures
        a == b,
    decreases a,
{
    lemma_decimal_length(a);
    lemma_decimal_length(b);
    let s = decimal(a);
    assert(s.last() == decimal(b).last());
    assert(s.last() == crate::text::digit(a % 10)[0]) by {
        if a < 10 {
            assert(a % 10 == a);
        }
    }
    assert(decimal(b).last() == crate::text::digit(b % 10)[0]) by {
        if b < 10 {
            assert(b % 10 == b);
        }
    }
    assert(a % 10 == b % 10);
    if a >= 10 {
        assert(s.drop_last() =~= decimal(a / 10));
        if b >= 10 {
            assert(decimal(b).drop_last() =~= decimal(b / 10));
            law_decimal_is_injective(a / 10, b / 10);
        }
    }
}

/// Two requests of one connection never have the same id before the numbers run
/// out.
pub proof fn law_request_ids_are_distinct(a: u64, b: u64)
    requires
        a != b,
    ensures
        rpc_name(a) != rpc_name(b),
        stream_name(a) != stream_name(b),
{
    if rpc_name(a) == rpc_name(b) {
        assert(decimal(a as nat) =~= rpc_name(a).skip("rpc_"@.len() as int));
        assert(decimal(b as nat) =~= rpc_name(b).skip("rpc_"@.len() as int));
        law_decimal_is_injective(a as nat, b as nat);
    }
    if stream_name(a) == stream_name(b) {
        assert(decimal(a as nat) =~= stream_name(a).skip("str_"@.len() as int));
        assert(decimal(b as nat) =~= stream_name(b).skip("str_"@.len() as int));
        law_decimal_is_injective(a as nat, b as nat);
    }
}

proof fn lemma_place(s: Seq<Seq<char>>, x: Seq<char>, from: int, i: int)
    requires
        0 <= from <= i < s.len(),
        s[i] == x,
    ensures
        place_of(s, x, from) is Some,
    decreases i - from,
{
    if s[from] != x {
        lemma_place(s, x, from + 1, i);
    }
}

/// A response to a request that took too long is dropped in silence: nobody gets
/// it, and it is no fault of the provider.
pub proof fn law_late_responses_are_dropped(h: HostView, id: Seq<char>, outcome: OutcomeView)
    requires
        place_of(without(h.pending, id), id, 0) is None,
    ensures
        ({
            let timed_out = HostView {
                pending: without(h.pending, id),
                retired: pushed(h.retired, id, RETIRED_RPC_ID_LIMIT as int),
                ..h
            };
            routed(timed_out, InboundView::Response { id, outcome }).1 == Ok::<
                InboundEffect,
                Seq<char>,
            >(InboundEffect::Late)
        }),
{
    let retired = pushed(h.retired, id, RETIRED_RPC_ID_LIMIT as int);
    lemma_place(retired, id, 0, retired.len() - 1);
}

/// An event that is taken carries the number that was due, and, unless it ends the
/// stream, makes the next number due.
pub proof fn law_streams_are_contiguous(
    streams: Seq<(Seq<char>, u64)>,
    stream_id: Seq<char>,
    seq: u64,
    event: StreamEventView,
)
    requires
        event_routed(streams, stream_id, seq, event).1 is None,
    ensures
        ({
            let after = event_routed(streams, stream_id, seq, event).0;
            &&& route_of(streams, stream_id, 0) matches Some(i) && 0 <= i < streams.len()
                && streams[i] == (stream_id, seq)
            &&& !(event is Finish) ==> {
                &&& route_of(after, stream_id, 0) == route_of(streams, stream_id, 0)
                &&& after[route_of(after, stream_id, 0)->0].1 == seq + 1
            }
        }),
{
    lemma_route(streams, stream_id, 0);
    let i = route_of(streams, stream_id, 0)->0;
    if !(event is Finish) {
        lemma_route_kept(streams, stream_id, 0, i, (seq + 1) as u64);
    }
}

proof fn lemma_route(s: Seq<(Seq<char>, u64)>, id: Seq<char>, from: int)
    requires
        0 <= from,
    ensures
        route_of(s, id, from) matches Some(i) ==> from <= i < s.len() && s[i].0 == id,
    decreases s.len() - from,
{
    if from < s.len() && s[from].0 != id {
        lemma_route(s, id, from + 1);
    }
}

proof fn lemma_route_kept(s: Seq<(Seq<char>, u64)>, id: Seq<char>, from: int, i: int, next: u64)
    requires
        0 <= from <= i < s.len(),
        route_of(s, id, from) == Some(i),
    ensures
        route_of(s.update(i, (id, next)), id, from) == Some(i),
    decreases i - from,
{
    lemma_route(s, id, from);
    if s[from].0 != id {
        lemma_route(s, id, from + 1);
        lemma_route_kept(s, id, from + 1, i, next);
    }
}

/// A provider that stopped stays stopped: neither a fault nor the end of its output
/// brings it back, and it is not shut down again. One that failed is not mistaken
/// for one that was stopped.
pub proof fn law_stopped_is_final(state: ProviderState)
    ensures
        state is Stopped <==> faulted_state(state) is Stopped,
        state is Stopped ==> ended_state(state) is Stopped,
        state is Stopped <==> shutdown_start(state) is AlreadyStopped,
{
}

proof fn lemma_place_is(s: Seq<Seq<char>>, x: Seq<char>, from: int)
    requires
        0 <= from,
    ensures
        match place_of(s, x, from) {
            Some(i) => from <= i < s.len() && s[i] == x && forall|j: int|
                from <= j < i ==> (#[trigger] s[j]) != x,
            None => forall|j: int| from <= j < s.len() ==> (#[trigger] s[j]) != x,
        },
    decreases s.len() - from,
{
    if from < s.len() && s[from] != x {
        lemma_place_is(s, x, from + 1);
    }
}

/// Taking something out of a row takes out exactly one of it, and nothing else; where it is
/// not in the row nothing changes.
pub proof fn law_taking_out_takes_one(s: Seq<Seq<char>>, x: Seq<char>)
    ensures
        s.contains(x) ==> without(s, x).len() == s.len() - 1 && without(s, x).to_multiset()
            == s.to_multiset().remove(x),
        !s.contains(x) ==> without(s, x) == s,
{
    broadcast use vstd::seq_lib::group_to_multiset_ensures;

    lemma_place_is(s, x, 0);
    if s.contains(x) {
        let k = choose|k: int| 0 <= k < s.len() && s[k] == x;
        let i = place_of(s, x, 0)->0;
        assert(s[i] == x);
        vstd::seq_lib::to_multiset_remove(s, i);
    } else {
        if let Some(i) = place_of(s, x, 0) {
            assert(s.contains(s[i]));
        }
    }
}

/// A response goes to the request that waits for it, with its value or its error, and is
/// then waited for no more. A response to a request that was given up is dropped, once. Any
/// other response is a fault and changes nothing.
pub proof fn law_responses_find_their_request(h: HostView, id: Seq<char>, outcome: OutcomeView)
    ensures
        ({
            let r = routed(h, InboundView::Response { id, outcome });
            if h.pending.contains(id) {
                &&& r.0 == (HostView { pending: without(h.pending, id), ..h })
                &&& r.1 matches Ok(InboundEffect::Reply { id: to, reply })
                &&& to == id
                &&& outcome matches OutcomeView::Success(value) ==> reply == Ok::<
                    Seq<char>,
                    PendingFailureView,
                >(value)
                &&& outcome matches OutcomeView::Error(error) ==> reply == Err::<
                    Seq<char>,
                    PendingFailureView,
                >(PendingFailureView::Rpc(error))
            } else if h.retired.contains(id) {
                &&& r.0 == (HostView { retired: without(h.retired, id), ..h })
                &&& r.1 == Ok::<InboundEffect, Seq<char>>(InboundEffect::Late)
            } else {
                r.0 == h && r.1 is Err
            }
        }),
{
    lemma_place_is(h.pending, id, 0);
    lemma_place_is(h.retired, id, 0);
    if h.pending.contains(id) {
        let k = choose|k: int| 0 <= k < h.pending.len() && h.pending[k] == id;
        assert(h.pending[k] == id);
    } else if let Some(i) = place_of(h.pending, id, 0) {
        assert(h.pending.contains(h.pending[i]));
    }
    if h.retired.contains(id) {
        let k = choose|k: int| 0 <= k < h.retired.len() && h.retired[k] == id;
        assert(h.retired[k] == id);
    } else if let Some(i) = place_of(h.retired, id, 0) {
        assert(h.retired.contains(h.retired[i]));
    }
}

/// The only notification is an event of a stream, whose parameters are handed on as they
/// are. Any other notification, and every request, is a fault. None changes the connection.
pub proof fn law_providers_only_send_events(h: HostView, m: InboundView)
    requires
        !(m is Response),
    ensures
        routed(h, m).0 == h,
        m matches InboundView::Notification { method, params } ==> if method == "llm.event"@ {
            routed(h, m).1 == Ok::<InboundEffect, Seq<char>>(InboundEffect::Event(params))
        } else {
            routed(h, m).1 is Err
        },
        m is Request ==> routed(h, m).1 is Err,
{
}

/// A line is read only if it is not too long and is a message; otherwise it is a fault and
/// changes nothing.
pub proof fn law_bad_lines_are_faults(h: HostView, line: Seq<char>)
    ensures
        ({
            let r = line_routed(h, line);
            &&& vstd::utf8::encode_utf8(line).len() > h.max_line || decoded_line(line) is Err
                ==> r.0 == h && r.1 is Err
            &&& vstd::utf8::encode_utf8(line).len() <= h.max_line ==> (decoded_line(line) matches Ok(
                message,
            ) ==> r == routed(h, message))
        }),
{
}

/// What is remembered last is remembered, no more than allowed is remembered, and what is
/// forgotten is the oldest.
pub proof fn law_the_oldest_is_forgotten(s: Seq<Seq<char>>, x: Seq<char>, limit: int)
    requires
        0 < limit,
        s.len() <= limit,
    ensures
        pushed(s, x, limit).len() <= limit,
        pushed(s, x, limit).last() == x,
        s.len() < limit ==> pushed(s, x, limit).drop_last() == s,
        s.len() == limit ==> pushed(s, x, limit).drop_last() == s.drop_first(),
{
    assert(s.push(x).drop_last() =~= s);
    assert(s.skip(1).push(x).drop_last() =~= s.drop_first());
}

proof fn lemma_route_is(s: Seq<(Seq<char>, u64)>, id: Seq<char>, from: int)
    requires
        0 <= from,
    ensures
        match route_of(s, id, from) {
            Some(i) => from <= i < s.len() && s[i].0 == id && forall|j: int|
                from <= j < i ==> (#[trigger] s[j]).0 != id,
            None => forall|j: int| from <= j < s.len() ==> (#[trigger] s[j]).0 != id,
        },
    decreases s.len() - from,
{
    if from < s.len() && s[from].0 != id {
        lemma_route_is(s, id, from + 1);
    }
}

/// An event with the number that is due goes to its stream: the last event closes the
/// stream, any other makes the next number due. An event with another number closes the
/// stream, which is told so. Other streams are not touched, and an event that is invalid or
/// of no open stream touches none.
pub proof fn law_events_find_their_stream(
    streams: Seq<(Seq<char>, u64)>,
    i: int,
    seq: u64,
    event: StreamEventView,
)
    requires
        0 <= i < streams.len(),
        forall|j: int, k: int|
            0 <= j < k < streams.len() ==> (#[trigger] streams[j]).0 != (#[trigger] streams[k]).0,
        streams[i].1 < u64::MAX,
    ensures
        ({
            let id = streams[i].0;
            let r = event_routed(streams, id, seq, event);
            if event_params_fault(id, seq, event) is Some {
                r.0 == streams && (r.1 matches Some(fault) && !fault.1)
            } else if seq != streams[i].1 {
                r.0 == streams.remove(i) && (r.1 matches Some(fault) && fault.1)
            } else if event is Finish {
                r.0 == streams.remove(i) && r.1 is None
            } else {
                r.0 == streams.update(i, (id, (seq + 1) as u64)) && r.1 is None
            }
        }),
{
    lemma_route_is(streams, streams[i].0, 0);
    if let Some(j) = route_of(streams, streams[i].0, 0) {
        if j != i {
            assert(streams[j].0 == streams[i].0);
        }
    } else {
        assert(streams[i].0 != streams[i].0);
    }
}

/// An event of a stream that is not open is a fault that no stream is told, and touches
/// none.
pub proof fn law_unknown_streams_are_faults(
    streams: Seq<(Seq<char>, u64)>,
    id: Seq<char>,
    seq: u64,
    event: StreamEventView,
)
    requires
        forall|i: int| 0 <= i < streams.len() ==> (#[trigger] streams[i]).0 != id,
    ensures
        event_routed(streams, id, seq, event).0 == streams,
        event_routed(streams, id, seq, event).1 matches Some(fault) && !fault.1,
{
    lemma_route_is(streams, id, 0);
}

/// A stream that was asked for is open and waits for its first event; the streams before it
/// stay as they are. A refused request opens nothing, and no number is given twice.
pub proof fn law_streams_are_opened(h: HostView, opened: bool)
    requires
        forall|i: int|
            0 <= i < h.streams.len() ==> (#[trigger] h.streams[i]).0 != "str_"@ + decimal(
                h.next_stream_id as nat,
            ),
        h.next_stream_id < u64::MAX,
    ensures
        ({
            let after = after_stream_request(h, opened);
            if h.state != ProviderState::Ready {
                after == h
            } else {
                &&& after.next_stream_id == h.next_stream_id + 1
                &&& opened ==> after.streams == h.streams.push(
                    ("str_"@ + decimal(h.next_stream_id as nat), 1u64),
                )
                &&& !opened ==> after.streams == h.streams
                &&& after.pending == h.pending && after.retired == h.retired && after.state
                    == h.state && after.manifest == h.manifest
            }
        }),
{
    lemma_route_is(h.streams, stream_name(h.next_stream_id), 0);
}

/// Whether a manifest declares a tool.
pub open spec fn declares_tool(m: Option<ManifestView>, tool: Seq<char>) -> bool {
    m matches Some(m) && exists|i: int|
        0 <= i < m.capabilities.len() && ((
        #[trigger] m.capabilities[i]) matches CapabilityView::Tool { name, .. } && name == tool)
}

/// Whether a manifest declares a model.
pub open spec fn declares_model(m: Option<ManifestView>, model: Seq<char>) -> bool {
    m matches Some(m) && exists|i: int|
        0 <= i < m.capabilities.len() && ((
        #[trigger] m.capabilities[i]) matches CapabilityView::Llm { models } && models.contains(
            model,
        ))
}

proof fn lemma_declares(m: ManifestView, name: Seq<char>)
    ensures
        tool_before(m.capabilities, m.capabilities.len() as int, name) == declares_tool(
            Some(m),
            name,
        ),
        model_before(m.capabilities, m.capabilities.len() as int, name) == declares_model(
            Some(m),
            name,
        ),
{
    let s = m.capabilities;
    if tool_before(s, s.len() as int, name) {
        let i = choose|i: int| 0 <= i < s.len() && is_tool_named(#[trigger] s[i], name);
        assert(m.capabilities[i] matches CapabilityView::Tool { name: n, .. } && n == name);
    }
    if declares_tool(Some(m), name) {
        let i = choose|i: int|
            0 <= i < m.capabilities.len() && ((
            #[trigger] m.capabilities[i]) matches CapabilityView::Tool { name: n, .. } && n
                == name);
        assert(is_tool_named(s[i], name));
    }
    if model_before(s, s.len() as int, name) {
        let i = choose|i: int| 0 <= i < s.len() && offers_model(#[trigger] s[i], name);
        assert(m.capabilities[i] matches CapabilityView::Llm { models } && models.contains(name));
    }
    if declares_model(Some(m), name) {
        let i = choose|i: int|
            0 <= i < m.capabilities.len() && ((
            #[trigger] m.capabilities[i]) matches CapabilityView::Llm { models }
                && models.contains(name));
        assert(offers_model(s[i], name));
    }
}

/// A tool call is sent if and only if the provider is ready, the call passes its checks, and
/// the provider declares the tool.
pub proof fn law_tool_calls_are_sent_to_who_declares_them(h: HostView, params: ToolInvokeParams)
    ensures
        tool_call_refusal(h, params) is None <==> {
            &&& h.state == ProviderState::Ready
            &&& invoke_fault(
                params,
                crate::json::json_reading(params.arguments_json@),
                deadline_offset(opt_text(params.deadline)),
            ) is None
            &&& declares_tool(h.manifest, params.tool@)
        },
        h.state != ProviderState::Ready ==> tool_call_refusal(h, params) == Some(
            HostErrorView::InvalidState { expected: ProviderState::Ready, actual: h.state },
        ),
{
    if let Some(m) = h.manifest {
        lemma_declares(m, params.tool@);
    }
}

/// A stream is asked for if and only if the provider is ready, the request passes its
/// checks and is for this provider, and the provider declares the model.
pub proof fn law_streams_are_asked_of_who_declares_the_model(
    h: HostView,
    operation_id: Seq<char>,
    request: ModelRequestView,
    deadline: Option<Seq<char>>,
)
    ensures
        stream_refusal(h, operation_id, request, deadline) is None <==> {
            &&& h.state == ProviderState::Ready
            &&& start_fault(
                operation_id,
                stream_name(h.next_stream_id),
                request,
                deadline,
                deadline_offset(deadline),
            ) is None
            &&& h.manifest matches Some(m) && m.provider_id == request.provider
            &&& declares_model(h.manifest, request.model)
        },
        h.state != ProviderState::Ready ==> stream_refusal(h, operation_id, request, deadline)
            == Some(
            HostErrorView::InvalidState { expected: ProviderState::Ready, actual: h.state },
        ),
{
    if let Some(m) = h.manifest {
        lemma_declares(m, request.model);
    }
}

/// A provider that breaks the protocol or goes away is unhealthy, unless it was stopping or
/// had stopped: one that goes away while it stops has stopped.
pub proof fn law_faults_make_unhealthy()
    ensures
        faulted_state(ProviderState::Starting) == ProviderState::Unhealthy,
        faulted_state(ProviderState::Ready) == ProviderState::Unhealthy,
        faulted_state(ProviderState::Unhealthy) == ProviderState::Unhealthy,
        faulted_state(ProviderState::Stopping) == ProviderState::Stopping,
        ended_state(ProviderState::Starting) == ProviderState::Unhealthy,
        ended_state(ProviderState::Ready) == ProviderState::Unhealthy,
        ended_state(ProviderState::Unhealthy) == ProviderState::Unhealthy,
        ended_state(ProviderState::Stopping) == ProviderState::Stopped,
        shutdown_start(ProviderState::Ready) is AskFirst,
        shutdown_start(ProviderState::Starting) is StopNow,
        shutdown_start(ProviderState::Unhealthy) is StopNow,
        shutdown_start(ProviderState::Stopping) is StopNow,
{
}

/// A fault ends all that is under way and leaves the rest as it was; everybody who waited is
/// told.
pub proof fn law_faults_end_everything(
    h: HostView,
    state: ProviderState,
    f: Failures,
    pending: PendingFailureView,
    stream: StreamErrorView,
)
    requires
        fails_all(h, f, pending, stream),
    ensures
        ({
            let after = cleared(h, state);
            &&& after.pending.len() == 0 && after.streams.len() == 0 && after.state == state
            &&& after.manifest == h.manifest && after.retired == h.retired && after.stderr
                == h.stderr
            &&& after.next_rpc_id == h.next_rpc_id && after.next_stream_id == h.next_stream_id
        }),
        f.pending@.len() == h.pending.len(),
        forall|i: int| 0 <= i < h.pending.len() ==> (#[trigger] f.pending@[i])@ == h.pending[i],
        f.streams@.len() == h.streams.len(),
        forall|i: int|
            0 <= i < h.streams.len() ==> (#[trigger] f.streams@[i]).stream_id@ == h.streams[i].0,
        f.pending_failure@ == pending,
        f.stream_failure@ == stream,
{
    assert(ids(f.pending@).len() == f.pending@.len());
    assert(routes(f.streams@).len() == f.streams@.len());
    assert forall|i: int| 0 <= i < h.pending.len() implies (#[trigger] f.pending@[i])@
        == h.pending[i] by {
        assert(ids(f.pending@)[i] == f.pending@[i]@);
    }
    assert forall|i: int| 0 <= i < h.streams.len() implies (#[trigger] f.streams@[i]).stream_id@
        == h.streams[i].0 by {
        assert(routes(f.streams@)[i].0 == f.streams@[i].stream_id@);
    }
}

/// A configuration is accepted if and only if it names a program and a runtime, waits, and
/// has room for a line and a history.
pub proof fn law_configurations_are_complete(c: ProviderHostConfig)
    ensures
        config_fault(c) is None <==> {
            &&& c.program@.len() > 0
            &&& !is_blank(c.runtime.name@) && !is_blank(c.runtime.version@)
            &&& c.request_timeout_ms > 0 && c.shutdown_timeout_ms > 0
            &&& c.max_stdout_line_bytes > 0 && c.stderr_history_lines > 0
        },
        config_fault(c) matches Some(e) ==> e is InvalidConfig,
{
}

proof fn lemma_entry_is(s: Seq<(Seq<char>, Seq<char>)>, key: Seq<char>, from: int)
    requires
        0 <= from,
    ensures
        match entry_of(s, key, from) {
            Some(i) => from <= i < s.len() && s[i].0 == key,
            None => forall|j: int| from <= j < s.len() ==> (#[trigger] s[j]).0 != key,
        },
    decreases s.len() - from,
{
    if from < s.len() && s[from].0 != key {
        lemma_entry_is(s, key, from + 1);
    }
}

/// A variable that is set has its value, and no other variable is touched.
pub proof fn law_variables_are_set(
    s: Seq<(Seq<char>, Seq<char>)>,
    key: Seq<char>,
    value: Seq<char>,
    other: (Seq<char>, Seq<char>),
)
    ensures
        with_entry(s, key, value).contains((key, value)),
        other.0 != key ==> (with_entry(s, key, value).contains(other) <==> s.contains(other)),
        with_entry(s, key, value).len() <= s.len() + 1,
{
    lemma_entry_is(s, key, 0);
    let t = with_entry(s, key, value);
    match entry_of(s, key, 0) {
        Some(i) => {
            assert(t[i] == (key, value));
            if other.0 != key && s.contains(other) {
                let k = choose|k: int| 0 <= k < s.len() && s[k] == other;
                assert(t[k] == other);
            }
            if other.0 != key && t.contains(other) {
                let k = choose|k: int| 0 <= k < t.len() && t[k] == other;
                assert(s[k] == other);
            }
        },
        None => {
            assert(t[s.len() as int] == (key, value));
            if other.0 != key && s.contains(other) {
                let k = choose|k: int| 0 <= k < s.len() && s[k] == other;
                assert(t[k] == other);
            }
            if other.0 != key && t.contains(other) {
                let k = choose|k: int| 0 <= k < t.len() && t[k] == other;
                assert(s[k] == other);
            }
        },
    }
}

/// What is refused for want of a declaration is told by what is not declared.
pub proof fn law_missing_declarations_are_named(
    m: Option<ManifestView>,
    tool: Seq<char>,
    provider: Seq<char>,
    model: Seq<char>,
)
    ensures
        tool_capability_fault(m, tool) matches Some(e) ==> e == HostErrorView::InvalidRequest(
            "provider manifest does not declare tool "@ + tool,
        ),
        llm_capability_fault(m, provider, model) matches Some(e) ==> {
            ||| m is None && e == HostErrorView::InvalidRequest(
                "provider manifest is unavailable"@,
            )
            ||| m is Some && m->0.provider_id != provider && e == HostErrorView::InvalidRequest(
                "LLM request provider "@ + provider + " does not match manifest provider "@
                    + m->0.provider_id,
            )
            ||| m is Some && m->0.provider_id == provider && e == HostErrorView::InvalidRequest(
                "provider manifest does not declare LLM model "@ + model,
            )
        },
{
}

/// What is reported of a configuration is what is wrong with it.
pub proof fn law_configuration_faults_are_named(c: ProviderHostConfig)
    ensures
        config_fault(c) matches Some(e) ==> {
            ||| c.program@.len() == 0 && e == HostErrorView::InvalidConfig(
                "provider program must not be empty"@,
            )
            ||| (is_blank(c.runtime.name@) || is_blank(c.runtime.version@)) && e
                == HostErrorView::InvalidConfig("runtime name/version must not be empty"@)
            ||| (c.request_timeout_ms == 0 || c.shutdown_timeout_ms == 0) && e
                == HostErrorView::InvalidConfig(
                "provider request/shutdown timeouts must be greater than zero"@,
            )
            ||| (c.max_stdout_line_bytes == 0 || c.stderr_history_lines == 0) && e
                == HostErrorView::InvalidConfig(
                "stdout line limit and stderr history capacity must be greater than zero"@,
            )
        },
{
}

/// A connection remembers no more late requests than it may, nor more lines than it keeps.
pub proof fn law_memory_is_bounded(h: HostView)
    requires
        bounded(h),
    ensures
        h.retired.len() <= 1024,
        0 < h.history,
        h.stderr.len() <= h.history,
{
}

} // verus!
