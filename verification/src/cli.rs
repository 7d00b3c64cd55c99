//! The command line: what it asks for, what it decides, and what it prints.

use vstd::prelude::*;

use crate::agent::error::{code_name, code_text};
use crate::agent::state::{AgentState, ExecutionGate};
use crate::config::error::{config_error_text, ConfigErrorView, HarnessConfigError};
use crate::config::scope::{
    is_resolution, profile_of, session_of, workspace_of, ResolvedScope, ScopeCatalog,
    ScopeResolutionTrace, ScopeSelection, TraceView,
};
use crate::conformance::{join, joined};
use crate::message::{
    content_view, opt_id, ContentBlock, ContentBlockView, Message, MessageSource,
    MessageSourceView, MessageView,
};
use crate::session::{RecoveryBlocked, SessionEvent, SessionEventPayload};
use crate::text::{
    concat2, concat3, concat4, concat5, decimal, decimal_text, opt_text, quoted, quoted_text,
    same_text, texts,
};
use crate::types::{EventSeq, MessageId, Role, SessionId};

verus! {

/// How many events are read from a session at once.
pub const READ_PAGE_SIZE: usize = 256;

/// The command line as it was given.
#[derive(Debug, PartialEq, Eq)]
pub struct Cli {
    /// The configuration file.
    pub config: String,
    pub command: Command,
}

#[derive(Debug, PartialEq, Eq)]
pub enum Command {
    Config(ConfigArgs),
    Session(SessionArgs),
    Run(RunArgs),
    Inspect(InspectArgs),
}

#[derive(Debug, PartialEq, Eq)]
pub struct ConfigArgs {
    pub command: ConfigCommand,
}

#[derive(Debug, PartialEq, Eq)]
pub enum ConfigCommand {
    Check,
    Resolve(ResolveArgs),
}

#[derive(Debug, PartialEq, Eq)]
pub struct ResolveArgs {
    pub profile: Option<String>,
    pub workspace: Option<String>,
    pub session: Option<String>,
    pub json: bool,
}

#[derive(Debug, PartialEq, Eq)]
pub struct SessionArgs {
    pub command: SessionCommand,
}

#[derive(Clone, Copy, Debug, PartialEq, Eq, Structural)]
pub enum SessionCommand {
    Create,
}

#[derive(Debug, PartialEq, Eq)]
pub struct RunArgs {
    pub session_id: String,
    pub profile: Option<String>,
    pub workspace: Option<String>,
}

#[derive(Debug, PartialEq, Eq)]
pub struct InspectArgs {
    pub session_id: String,
    pub pretty: bool,
}

/// Why a command failed.
#[derive(Debug, PartialEq, Eq)]
#[non_exhaustive]
pub enum CliError {
    Config(HarnessConfigError),
    RuntimeBuild(String),
    Runtime(String),
    Storage(String),
    Session(String),
    Agent(String),
    InvalidSessionId { value: String, message: String },
    MissingProfile,
    ProfileNotFound(String),
    WorkspaceNotFound(String),
    ScopeSerialize(String),
    ApprovalPending,
    RecoveryBlocked(String),
    EventSequence(String),
    ObservabilityLagged { skipped: u64 },
    ObservabilityTask(String),
    RuntimeEventSerialize { path: String, source: String },
    Io { context: &'static str, source: String },
    Serialize(String),
}

#[verifier::ext_equal]
#[allow(inconsistent_fields)]
pub enum CliErrorView {
    Config(ConfigErrorView),
    RuntimeBuild(Seq<char>),
    Runtime(Seq<char>),
    Storage(Seq<char>),
    Session(Seq<char>),
    Agent(Seq<char>),
    InvalidSessionId { value: Seq<char>, message: Seq<char> },
    MissingProfile,
    ProfileNotFound(Seq<char>),
    WorkspaceNotFound(Seq<char>),
    ScopeSerialize(Seq<char>),
    ApprovalPending,
    RecoveryBlocked(Seq<char>),
    EventSequence(Seq<char>),
    ObservabilityLagged { skipped: u64 },
    ObservabilityTask(Seq<char>),
    RuntimeEventSerialize { path: Seq<char>, source: Seq<char> },
    Io { context: Seq<char>, source: Seq<char> },
    Serialize(Seq<char>),
}

impl View for CliError {
    type V = CliErrorView;

    open spec fn view(&self) -> CliErrorView {
        match self {
            CliError::Config(e) => CliErrorView::Config(e@),
            CliError::RuntimeBuild(m) => CliErrorView::RuntimeBuild(m@),
            CliError::Runtime(m) => CliErrorView::Runtime(m@),
            CliError::Storage(m) => CliErrorView::Storage(m@),
            CliError::Session(m) => CliErrorView::Session(m@),
            CliError::Agent(m) => CliErrorView::Agent(m@),
            CliError::InvalidSessionId { value, message } => CliErrorView::InvalidSessionId {
                value: value@,
                message: message@,
            },
            CliError::MissingProfile => CliErrorView::MissingProfile,
            CliError::ProfileNotFound(m) => CliErrorView::ProfileNotFound(m@),
            CliError::WorkspaceNotFound(m) => CliErrorView::WorkspaceNotFound(m@),
            CliError::ScopeSerialize(m) => CliErrorView::ScopeSerialize(m@),
            CliError::ApprovalPending => CliErrorView::ApprovalPending,
            CliError::RecoveryBlocked(m) => CliErrorView::RecoveryBlocked(m@),
            CliError::EventSequence(m) => CliErrorView::EventSequence(m@),
            CliError::ObservabilityLagged { skipped } => CliErrorView::ObservabilityLagged {
                skipped: *skipped,
            },
            CliError::ObservabilityTask(m) => CliErrorView::ObservabilityTask(m@),
            CliError::RuntimeEventSerialize { path, source } => {
                CliErrorView::RuntimeEventSerialize { path: path@, source: source@ }
            },
            CliError::Io { context, source } => CliErrorView::Io {
                context: context@,
                source: source@,
            },
            CliError::Serialize(m) => CliErrorView::Serialize(m@),
        }
    }
}

pub open spec fn cli_error_text(e: CliErrorView) -> Seq<char> {
    match e {
        CliErrorView::Config(e) => "Harness configuration failed: "@ + config_error_text(e),
        CliErrorView::RuntimeBuild(m) => "failed to compose Harness runtime: "@ + m,
        CliErrorView::Runtime(m) => "Harness runtime operation failed: "@ + m,
        CliErrorView::Storage(m) => "failed to open durable local storage: "@ + m,
        CliErrorView::Session(m) => "SessionStore operation failed: "@ + m,
        CliErrorView::Agent(m) => "Agent handle operation failed: "@ + m,
        CliErrorView::InvalidSessionId { value, message } => {
            "invalid SessionId "@ + quoted(value) + ": "@ + message
        },
        CliErrorView::MissingProfile => {
            "no profile was supplied and runtime.default_profile is not configured"@
        },
        CliErrorView::ProfileNotFound(m) => "Agent profile "@ + quoted(m) + " is not configured"@,
        CliErrorView::WorkspaceNotFound(m) => "workspace "@ + quoted(m) + " is not configured"@,
        CliErrorView::ScopeSerialize(m) => "failed to serialize resolved scope: "@ + m,
        CliErrorView::ApprovalPending => {
            "session is waiting for an approval; CLI run cannot continue interactively"@
        },
        CliErrorView::RecoveryBlocked(m) => "session execution is recovery-blocked: "@ + m,
        CliErrorView::EventSequence(m) => {
            "event sequence cannot advance while reading Session history: "@ + m
        },
        CliErrorView::ObservabilityLagged { skipped } => {
            "runtime event observer lagged and skipped "@ + decimal(skipped as nat) + " event(s)"@
        },
        CliErrorView::ObservabilityTask(m) => "runtime event observer task failed: "@ + m,
        CliErrorView::RuntimeEventSerialize { path, source } => {
            "failed to serialize RuntimeEvent for "@ + path + ": "@ + source
        },
        CliErrorView::Io { context, source } => {
            "I/O failure while "@ + context + ": "@ + source
        },
        CliErrorView::Serialize(m) => "failed to serialize SessionEvent: "@ + m,
    }
}

impl CliError {
    pub fn message(&self) -> (r: String)
        ensures
            r@ == cli_error_text(self@),
    {
        match self {
            CliError::Config(e) => {
                concat2("Harness configuration failed: ", e.message().as_str())
            },
            CliError::RuntimeBuild(m) => concat2("failed to compose Harness runtime: ", m.as_str()),
            CliError::Runtime(m) => concat2("Harness runtime operation failed: ", m.as_str()),
            CliError::Storage(m) => concat2("failed to open durable local storage: ", m.as_str()),
            CliError::Session(m) => concat2("SessionStore operation failed: ", m.as_str()),
            CliError::Agent(m) => concat2("Agent handle operation failed: ", m.as_str()),
            CliError::InvalidSessionId { value, message } => concat4(
                "invalid SessionId ",
                quoted_text(value.as_str()).as_str(),
                ": ",
                message.as_str(),
            ),
            CliError::MissingProfile => {
                "no profile was supplied and runtime.default_profile is not configured".to_owned()
            },
            CliError::ProfileNotFound(m) => concat3(
                "Agent profile ",
                quoted_text(m.as_str()).as_str(),
                " is not configured",
            ),
            CliError::WorkspaceNotFound(m) => concat3(
                "workspace ",
                quoted_text(m.as_str()).as_str(),
                " is not configured",
            ),
            CliError::ScopeSerialize(m) => {
                concat2("failed to serialize resolved scope: ", m.as_str())
            },
            CliError::ApprovalPending => {
                "session is waiting for an approval; CLI run cannot continue interactively".to_owned()
            },
            CliError::RecoveryBlocked(m) => {
                concat2("session execution is recovery-blocked: ", m.as_str())
            },
            CliError::EventSequence(m) => concat2(
                "event sequence cannot advance while reading Session history: ",
                m.as_str(),
            ),
            CliError::ObservabilityLagged { skipped } => concat3(
                "runtime event observer lagged and skipped ",
                decimal_text(*skipped).as_str(),
                " event(s)",
            ),
            CliError::ObservabilityTask(m) => {
                concat2("runtime event observer task failed: ", m.as_str())
            },
            CliError::RuntimeEventSerialize { path, source } => concat4(
                "failed to serialize RuntimeEvent for ",
                path.as_str(),
                ": ",
                source.as_str(),
            ),
            CliError::Io { context, source } => {
                concat4("I/O failure while ", context, ": ", source.as_str())
            },
            CliError::Serialize(m) => concat2("failed to serialize SessionEvent: ", m.as_str()),
        }
    }
}

/// Takes a text as the name of a session.
pub fn parse_session_id(value: String) -> (r: Result<SessionId, CliError>)
    ensures
        match r {
            Ok(id) => value@.len() > 0 && id@ == value@,
            Err(e) => value@.len() == 0 && e@ == (CliErrorView::InvalidSessionId {
                value: value@,
                message: "identifier must not be empty"@,
            }),
        },
{
    match SessionId::new(value.as_str()) {
        Ok(id) => Ok(id),
        Err(error) => Err(CliError::InvalidSessionId { value, message: error.message() }),
    }
}

/// The first of three choices that is there.
pub open spec fn first_of(
    requested: Option<Seq<char>>,
    bound: Option<Seq<char>>,
    otherwise: Option<Seq<char>>,
) -> Option<Seq<char>> {
    if requested is Some {
        requested
    } else if bound is Some {
        bound
    } else {
        otherwise
    }
}

fn first_choice(
    requested: Option<String>,
    bound: Option<String>,
    otherwise: &Option<String>,
) -> (r: Option<String>)
    ensures
        opt_text(r) == first_of(opt_text(requested), opt_text(bound), opt_text(*otherwise)),
{
    if requested.is_some() {
        requested
    } else if bound.is_some() {
        bound
    } else {
        otherwise.clone()
    }
}

/// The profile that a session is bound to.
pub open spec fn bound_profile(c: ScopeCatalog, session: Option<Seq<char>>) -> Option<Seq<char>> {
    match session {
        Some(id) => match session_of(c.sessions@, id) {
            Some(scope) => opt_text(scope.profile),
            None => None,
        },
        None => None,
    }
}

/// The workspace that a session is bound to.
pub open spec fn bound_workspace(c: ScopeCatalog, session: Option<Seq<char>>) -> Option<
    Seq<char>,
> {
    match session {
        Some(id) => match session_of(c.sessions@, id) {
            Some(scope) => opt_text(scope.workspace),
            None => None,
        },
        None => None,
    }
}

/// What a command asks for by default.
#[derive(Debug, PartialEq, Eq)]
pub struct ScopeDefaults {
    pub profile: Option<String>,
    pub workspace: Option<String>,
}

/// The profile and the workspace to resolve, or why there are none. A request
/// comes before what the session is bound to, and that before the default.
pub open spec fn target_of(
    profile: Option<Seq<char>>,
    workspace: Option<Seq<char>>,
    session: Option<Seq<char>>,
    c: ScopeCatalog,
    defaults: ScopeDefaults,
) -> Result<(Seq<char>, Option<Seq<char>>), CliErrorView> {
    match first_of(profile, bound_profile(c, session), opt_text(defaults.profile)) {
        None => Err(CliErrorView::MissingProfile),
        Some(profile) => {
            let workspace = first_of(
                workspace,
                bound_workspace(c, session),
                opt_text(defaults.workspace),
            );
            if profile_of(c.profiles@, profile) is None {
                Err(CliErrorView::ProfileNotFound(profile))
            } else if workspace is Some && workspace_of(c.workspaces@, workspace->0) is None {
                Err(CliErrorView::WorkspaceNotFound(workspace->0))
            } else {
                Ok((profile, workspace))
            }
        },
    }
}

/// Whether a selection is that of a target.
pub open spec fn selects(
    s: ScopeSelection,
    target: (Seq<char>, Option<Seq<char>>),
    session: Option<Seq<char>>,
) -> bool {
    &&& s.profile@ == target.0
    &&& opt_text(s.workspace) == target.1
    &&& opt_id(s.session_id) == session
}

/// The selection that a command asks for.
pub fn scope_target(
    requested_profile: Option<String>,
    requested_workspace: Option<String>,
    session_id: &Option<SessionId>,
    catalog: &ScopeCatalog,
    defaults: &ScopeDefaults,
) -> (r: Result<ScopeSelection, CliError>)
    ensures
        match r {
            Ok(selection) => target_of(
                opt_text(requested_profile),
                opt_text(requested_workspace),
                opt_id(*session_id),
                *catalog,
                *defaults,
            ) matches Ok(target) && selects(selection, target, opt_id(*session_id)),
            Err(e) => target_of(
                opt_text(requested_profile),
                opt_text(requested_workspace),
                opt_id(*session_id),
                *catalog,
                *defaults,
            ) == Err::<(Seq<char>, Option<Seq<char>>), CliErrorView>(e@),
        },
{
    let bound = match session_id {
        Some(id) => (catalog.session_profile(id), catalog.session_workspace(id)),
        None => (None, None),
    };
    let profile = match first_choice(requested_profile, bound.0, &defaults.profile) {
        Some(profile) => profile,
        None => {
            return Err(CliError::MissingProfile);
        },
    };
    if !catalog.contains_profile(&profile) {
        return Err(CliError::ProfileNotFound(profile));
    }
    let workspace = first_choice(requested_workspace, bound.1, &defaults.workspace);
    let mut selection = ScopeSelection::new(profile);
    if let Some(workspace) = workspace {
        if !catalog.contains_workspace(&workspace) {
            return Err(CliError::WorkspaceNotFound(workspace));
        }
        selection = selection.with_workspace(workspace);
    }
    if let Some(id) = session_id {
        selection = selection.with_session(id.clone());
    }
    Ok(selection)
}

/// Resolves what a command asks for.
pub fn resolve_scope_target(
    requested_profile: Option<String>,
    requested_workspace: Option<String>,
    session_id: &Option<SessionId>,
    catalog: &ScopeCatalog,
    defaults: &ScopeDefaults,
) -> (r: Result<ResolvedScope, CliError>)
    ensures
        match target_of(
            opt_text(requested_profile),
            opt_text(requested_workspace),
            opt_id(*session_id),
            *catalog,
            *defaults,
        ) {
            Err(error) => r matches Err(e) && e@ == error,
            Ok(target) => exists|selection: ScopeSelection| #[trigger]
                selects(selection, target, opt_id(*session_id)) && match r {
                    Ok(resolved) => is_resolution(
                        *catalog,
                        selection,
                        Ok::<ResolvedScope, HarnessConfigError>(resolved),
                    ),
                    Err(CliError::Config(error)) => is_resolution(
                        *catalog,
                        selection,
                        Err::<ResolvedScope, HarnessConfigError>(error),
                    ),
                    Err(_) => false,
                },
        },
{
    match scope_target(
        requested_profile,
        requested_workspace,
        session_id,
        catalog,
        defaults,
    ) {
        Ok(selection) => {
            match catalog.resolve(selection) {
                Ok(resolved) => Ok(resolved),
                Err(error) => Err(CliError::Config(error)),
            }
        },
        Err(error) => Err(error),
    }
}

/// What a configuration holds, for the line that reports it.
#[derive(Debug, PartialEq, Eq)]
pub struct ConfigSummary {
    pub source: String,
    pub providers: usize,
    pub profiles: usize,
    pub workspaces: usize,
    pub session_scopes: usize,
    pub credentials: usize,
    pub data_dir: String,
    pub runtime_events: Option<String>,
}

pub open spec fn or_text(o: Option<Seq<char>>, otherwise: Seq<char>) -> Seq<char> {
    match o {
        Some(text) => text,
        None => otherwise,
    }
}

fn text_or(o: &Option<String>, otherwise: &str) -> (r: String)
    ensures
        r@ == or_text(opt_text(*o), otherwise@),
{
    match o {
        Some(text) => text.clone(),
        None => otherwise.to_owned(),
    }
}

pub open spec fn summary_line(s: ConfigSummary) -> Seq<char> {
    "config ok: "@ + s.source@ + " (providers="@ + decimal(s.providers as nat) + ", profiles="@
        + decimal(s.profiles as nat) + ", workspaces="@ + decimal(s.workspaces as nat)
        + ", session_scopes="@ + decimal(s.session_scopes as nat) + ", credentials="@ + decimal(
        s.credentials as nat,
    ) + ", data_dir="@ + s.data_dir@ + ", runtime_events="@ + or_text(
        opt_text(s.runtime_events),
        "disabled"@,
    ) + ")"@
}

impl ConfigSummary {
    /// The line that reports a configuration that passed.
    pub fn line(&self) -> (r: String)
        ensures
            r@ == summary_line(*self),
    {
        let head = concat5(
            "config ok: ",
            self.source.as_str(),
            " (providers=",
            decimal_text(self.providers as u64).as_str(),
            ", profiles=",
        );
        let head = concat5(
            head.as_str(),
            decimal_text(self.profiles as u64).as_str(),
            ", workspaces=",
            decimal_text(self.workspaces as u64).as_str(),
            ", session_scopes=",
        );
        let head = concat5(
            head.as_str(),
            decimal_text(self.session_scopes as u64).as_str(),
            ", credentials=",
            decimal_text(self.credentials as u64).as_str(),
            ", data_dir=",
        );
        concat5(
            head.as_str(),
            self.data_dir.as_str(),
            ", runtime_events=",
            text_or(&self.runtime_events, "disabled").as_str(),
            ")",
        )
    }
}

pub open spec fn limit_text(limit: Option<u32>) -> Seq<char> {
    match limit {
        Some(limit) => decimal(limit as nat),
        None => "default"@,
    }
}

/// The lines that report how a scope was resolved.
pub open spec fn trace_lines(t: TraceView) -> Seq<Seq<char>> {
    let lines = seq![
        "scope profile="@ + t.profile + " workspace="@ + or_text(t.workspace, "-"@) + " session="@
            + or_text(t.session_id, "-"@),
        "layers: "@ + joined(t.layers, " -> "@),
        "model: "@ + t.provider + "/"@ + t.model + " timeout_ms="@ + decimal(t.timeout_ms as nat)
            + " max_output_tokens="@ + limit_text(t.max_output_tokens),
        "tools: "@ + joined(t.enabled_tools, ", "@),
    ];
    match t.system_prompt {
        Some(system) => lines.push("system:\n"@ + system),
        None => lines,
    }
}

/// The lines that report how a scope was resolved.
pub fn scope_lines(trace: &ScopeResolutionTrace) -> (r: Vec<String>)
    ensures
        texts(r@) == trace_lines(trace@),
{
    let mut lines: Vec<String> = Vec::new();
    let head = concat4(
        "scope profile=",
        trace.profile.as_str(),
        " workspace=",
        text_or(&trace.workspace, "-").as_str(),
    );
    lines.push(
        concat3(head.as_str(), " session=", text_or(&trace.session_id, "-").as_str()),
    );
    lines.push(concat2("layers: ", join(&trace.layers, " -> ").as_str()));
    let limit = match trace.model.max_output_tokens {
        Some(limit) => decimal_text(limit as u64),
        None => "default".to_owned(),
    };
    let head = concat5(
        "model: ",
        trace.model.provider.as_str(),
        "/",
        trace.model.model.as_str(),
        " timeout_ms=",
    );
    lines.push(
        concat4(
            head.as_str(),
            decimal_text(trace.model.timeout_ms).as_str(),
            " max_output_tokens=",
            limit.as_str(),
        ),
    );
    lines.push(concat2("tools: ", join(&trace.enabled_tools, ", ").as_str()));
    if let Some(system) = &trace.system_prompt {
        lines.push(concat2("system:\n", system.as_str()));
    }
    assert(texts(lines@) =~= trace_lines(trace@));
    lines
}

/// The line that greets a session.
pub open spec fn banner(session: Seq<char>, profile: Seq<char>, workspace: Option<Seq<char>>) -> Seq<
    char,
> {
    "session "@ + session + " profile "@ + profile + " workspace "@ + or_text(workspace, "-"@)
        + "; /quit to exit"@
}

/// The line that greets a session.
pub fn session_banner(session_id: &SessionId, profile: &str, workspace: &Option<String>) -> (r:
    String)
    ensures
        r@ == banner(session_id@, profile@, opt_text(*workspace)),
{
    let head = concat5("session ", session_id.as_str(), " profile ", profile, " workspace ");
    concat3(head.as_str(), text_or(workspace, "-").as_str(), "; /quit to exit")
}

/// The message that a typed text becomes.
pub fn typed_message(id: MessageId, text: &str) -> (r: Message)
    ensures
        r@ == (MessageView {
            id: id@,
            role: Role::User,
            source: MessageSourceView::User,
            content: seq![ContentBlockView::Text { text: text@ }],
        }),
{
    let mut content: Vec<ContentBlock> = Vec::new();
    content.push(ContentBlock::text(text));
    assert(content_view(content@) =~= seq![ContentBlockView::Text { text: text@ }]);
    Message { id, role: Role::User, source: MessageSource::User, content }
}

/// What a run comes to: the failure of the conversation comes before that of closing
/// the agent, and that before the failure of shutting the runtime down.
pub open spec fn run_failure(
    interaction: Result<(), CliError>,
    close: Result<(), String>,
    shutdown: Result<(), String>,
) -> Option<CliErrorView> {
    match (interaction, close, shutdown) {
        (Err(error), _, _) => Some(error@),
        (_, Err(message), _) => Some(CliErrorView::Runtime(message@)),
        (_, _, Err(message)) => Some(CliErrorView::Runtime(message@)),
        _ => None,
    }
}

/// Finds out what a run comes to. All three have been done, whatever became of them.
pub fn run_outcome(
    interaction: Result<(), CliError>,
    close: Result<(), String>,
    shutdown: Result<(), String>,
) -> (r: Result<(), CliError>)
    ensures
        match r {
            Ok(_) => run_failure(interaction, close, shutdown) is None,
            Err(e) => run_failure(interaction, close, shutdown) == Some(e@),
        },
{
    match interaction {
        Err(error) => Err(error),
        Ok(()) => match close {
            Err(message) => Err(CliError::Runtime(message)),
            Ok(()) => match shutdown {
                Err(message) => Err(CliError::Runtime(message)),
                Ok(()) => Ok(()),
            },
        },
    }
}

/// What has happened to the log of runtime events.
#[derive(Clone, Copy, Debug, PartialEq, Eq, Structural)]
pub enum LogEvent {
    /// An event came.
    Received,
    /// So many events went by unseen.
    Lagged { skipped: u64 },
    /// No more events will come.
    Closed,
    /// No event is waiting.
    Empty,
    /// The log is asked to stop.
    StopRequested,
}

/// What the log does next.
#[derive(Debug, PartialEq, Eq)]
pub enum LogStep {
    /// Write the event and go on.
    Write,
    /// Take the events that are waiting, without waiting for more.
    Drain,
    /// Go on waiting.
    Wait,
    /// Flush and end.
    Finish,
    Fail(CliError),
}

/// What the log does about an event. Once it is asked to stop it takes what is
/// waiting and ends; a gap in what it saw is never passed over.
pub fn log_step(event: LogEvent, draining: bool) -> (r: LogStep)
    ensures
        match event {
            LogEvent::Received => r is Write,
            LogEvent::Lagged { skipped } => r == LogStep::Fail(
                CliError::ObservabilityLagged { skipped },
            ),
            LogEvent::Closed => r is Finish,
            LogEvent::Empty => r == if draining {
                LogStep::Finish
            } else {
                LogStep::Wait
            },
            LogEvent::StopRequested => r is Drain,
        },
{
    match event {
        LogEvent::Received => LogStep::Write,
        LogEvent::Lagged { skipped } => LogStep::Fail(CliError::ObservabilityLagged { skipped }),
        LogEvent::Closed => LogStep::Finish,
        LogEvent::Empty => if draining {
            LogStep::Finish
        } else {
            LogStep::Wait
        },
        LogEvent::StopRequested => LogStep::Drain,
    }
}

/// A text without the ends of lines at its end.
pub open spec fn without_line_end(s: Seq<char>) -> Seq<char>
    decreases s.len(),
{
    if s.len() > 0 && (s.last() == '\r' || s.last() == '\n') {
        without_line_end(s.drop_last())
    } else {
        s
    }
}

/// What a line that was typed asks for.
#[derive(Debug, PartialEq, Eq)]
pub enum InputStep {
    Quit,
    Ignore,
    Say(String),
}

#[verifier::ext_equal]
pub enum InputStepView {
    Quit,
    Ignore,
    Say(Seq<char>),
}

impl View for InputStep {
    type V = InputStepView;

    open spec fn view(&self) -> InputStepView {
        match self {
            InputStep::Quit => InputStepView::Quit,
            InputStep::Ignore => InputStepView::Ignore,
            InputStep::Say(text) => InputStepView::Say(text@),
        }
    }
}

/// What a line asks for; no line at all is the end of the input.
pub open spec fn input_step(line: Option<Seq<char>>) -> InputStepView {
    match line {
        None => InputStepView::Quit,
        Some(line) => {
            let text = without_line_end(line);
            if text == "/quit"@ {
                InputStepView::Quit
            } else if text.len() == 0 {
                InputStepView::Ignore
            } else {
                InputStepView::Say(text)
            }
        },
    }
}

fn trim_line_end(line: &str) -> (r: &str)
    ensures
        r@ == without_line_end(line@),
    decreases line@.len(),
{
    let n: usize = line.unicode_len();
    if n == 0 {
        return line;
    }
    let last = line.get_char(n - 1);
    if last == '\r' || last == '\n' {
        let head = line.substring_char(0, n - 1);
        assert(head@ =~= line@.drop_last());
        trim_line_end(head)
    } else {
        line
    }
}

/// Finds out what a line that was typed asks for.
pub fn read_input(line: Option<&str>) -> (r: InputStep)
    ensures
        r@ == input_step(
            match line {
                Some(line) => Some(line@),
                None => None,
            },
        ),
{
    match line {
        None => InputStep::Quit,
        Some(line) => {
            let text = trim_line_end(line);
            if same_text(text, "/quit") {
                InputStep::Quit
            } else if text.is_empty() {
                InputStep::Ignore
            } else {
                InputStep::Say(text.to_owned())
            }
        },
    }
}

/// What a block on recovery says.
pub open spec fn block_text(b: RecoveryBlocked) -> Seq<char> {
    "RecoveryBlocked { kind: UnknownToolOutcome, call_id: "@ + quoted(b.call_id@)
        + ", invocation_id: "@ + quoted(b.invocation_id@) + ", reason: "@ + quoted(b.reason@)
        + " }"@
}

fn describe_block(b: &RecoveryBlocked) -> (r: String)
    ensures
        r@ == block_text(*b),
{
    let head = concat4(
        "RecoveryBlocked { kind: UnknownToolOutcome, call_id: ",
        quoted_text(b.call_id.as_str()).as_str(),
        ", invocation_id: ",
        quoted_text(b.invocation_id.as_str()).as_str(),
    );
    concat4(head.as_str(), ", reason: ", quoted_text(b.reason.as_str()).as_str(), " }")
}

/// Whether an agent has nothing left to do.
pub open spec fn at_rest(state: AgentState) -> bool {
    &&& state.active_operation is None
    &&& state.projection.inbox.next_turn@.len() == 0
    &&& state.projection.inbox.next_step@.len() == 0
    &&& state.projection.lifecycle.open_turn is None
    &&& state.projection.lifecycle.open_step is None
}

/// Whether a turn is over, or why it cannot be waited for: a pending approval comes
/// before a block.
pub open spec fn turn_status(state: AgentState) -> Result<bool, CliErrorView> {
    if state.projection.pending_approval is Some {
        Err(CliErrorView::ApprovalPending)
    } else if let ExecutionGate::Blocked(block) = state.gate {
        Err(CliErrorView::RecoveryBlocked(block_text(block.data)))
    } else {
        Ok(at_rest(state))
    }
}

/// Finds out whether a turn is over.
pub fn turn_is_over(state: &AgentState) -> (r: Result<bool, CliError>)
    ensures
        match r {
            Ok(over) => turn_status(*state) == Ok::<bool, CliErrorView>(over),
            Err(e) => turn_status(*state) == Err::<bool, CliErrorView>(e@),
        },
{
    if state.projection.pending_approval.is_some() {
        return Err(CliError::ApprovalPending);
    }
    if let ExecutionGate::Blocked(block) = &state.gate {
        return Err(CliError::RecoveryBlocked(describe_block(&block.data)));
    }
    Ok(
        state.active_operation.is_none() && state.projection.inbox.next_turn.len() == 0
            && state.projection.inbox.next_step.len() == 0
            && state.projection.lifecycle.open_turn.is_none()
            && state.projection.lifecycle.open_step.is_none(),
    )
}

/// A line that a turn gives rise to, and where it goes.
#[derive(Debug, PartialEq, Eq)]
pub enum RenderedLine {
    Output(String),
    Diagnostic(String),
}

#[verifier::ext_equal]
pub enum RenderedView {
    Output(Seq<char>),
    Diagnostic(Seq<char>),
}

impl View for RenderedLine {
    type V = RenderedView;

    open spec fn view(&self) -> RenderedView {
        match self {
            RenderedLine::Output(text) => RenderedView::Output(text@),
            RenderedLine::Diagnostic(text) => RenderedView::Diagnostic(text@),
        }
    }
}

pub open spec fn lines_view(s: Seq<RenderedLine>) -> Seq<RenderedView> {
    s.map_values(|l: RenderedLine| l@)
}

/// One line for each text of a message.
pub open spec fn content_lines(s: Seq<ContentBlock>) -> Seq<RenderedView>
    decreases s.len(),
{
    if s.len() == 0 {
        Seq::empty()
    } else if let ContentBlock::Text { text } = s.last() {
        content_lines(s.drop_last()).push(RenderedView::Output("assistant> "@ + text@))
    } else {
        content_lines(s.drop_last())
    }
}

/// The lines of one event: what the assistant says, and how the model failed.
pub open spec fn event_lines(e: SessionEvent) -> Seq<RenderedView> {
    match e.draft.payload {
        SessionEventPayload::AssistantMessage(message) => content_lines(message.message.content@),
        SessionEventPayload::ModelFailed(failed) => seq![
            RenderedView::Diagnostic(
                "model-error> "@ + code_name(failed.failure.code) + ": "@ + failed.failure.message@,
            ),
        ],
        _ => Seq::empty(),
    }
}

/// The lines of a row of events.
pub open spec fn turn_lines(s: Seq<SessionEvent>) -> Seq<RenderedView>
    decreases s.len(),
{
    if s.len() == 0 {
        Seq::empty()
    } else {
        turn_lines(s.drop_last()) + event_lines(s.last())
    }
}

fn render_content(content: &Vec<ContentBlock>, lines: &mut Vec<RenderedLine>)
    ensures
        lines_view(final(lines)@) == lines_view(old(lines)@) + content_lines(content@),
{
    let ghost before = lines_view(lines@);
    let mut i: usize = 0;
    assert(before + content_lines(content@.take(0)) =~= before);
    while i < content.len()
        invariant
            i <= content@.len(),
            lines_view(lines@) == before + content_lines(content@.take(i as int)),
        decreases content@.len() - i,
    {
        let ghost prior = lines@;
        assert(content@.take(i + 1).drop_last() =~= content@.take(i as int));
        assert(content@.take(i + 1).last() == content@[i as int]);
        if let ContentBlock::Text { text } = &content[i] {
            lines.push(RenderedLine::Output(concat2("assistant> ", text.as_str())));
            assert(lines_view(lines@) =~= lines_view(prior).push(
                RenderedView::Output("assistant> "@ + text@),
            ));
            assert(lines_view(lines@) =~= before + content_lines(content@.take(i + 1)));
        }
        i = i + 1;
    }
    assert(content@.take(i as int) =~= content@);
}

/// What a turn prints.
pub fn render_turn_events(events: &Vec<SessionEvent>) -> (r: Vec<RenderedLine>)
    ensures
        lines_view(r@) == turn_lines(events@),
{
    let mut lines: Vec<RenderedLine> = Vec::new();
    let mut i: usize = 0;
    assert(lines_view(lines@) =~= turn_lines(events@.take(0)));
    while i < events.len()
        invariant
            i <= events@.len(),
            lines_view(lines@) == turn_lines(events@.take(i as int)),
        decreases events@.len() - i,
    {
        let ghost prior = lines@;
        assert(events@.take(i + 1).drop_last() =~= events@.take(i as int));
        assert(events@.take(i + 1).last() == events@[i as int]);
        match &events[i].draft.payload {
            SessionEventPayload::AssistantMessage(message) => {
                render_content(&message.message.content, &mut lines);
            },
            SessionEventPayload::ModelFailed(failed) => {
                let text = concat4(
                    "model-error> ",
                    code_text(failed.failure.code),
                    ": ",
                    failed.failure.message.as_str(),
                );
                lines.push(RenderedLine::Diagnostic(text));
                assert(lines_view(lines@) =~= lines_view(prior) + event_lines(events@[i as int]));
            },
            _ => {
                assert(lines_view(lines@) =~= lines_view(prior) + event_lines(events@[i as int]));
            },
        }
        i = i + 1;
    }
    assert(events@.take(i as int) =~= events@);
    lines
}

/// A history that is read page by page up to its head.
#[derive(Debug, PartialEq)]
pub struct HistoryReader {
    pub head: EventSeq,
    pub from: EventSeq,
    pub events: Vec<SessionEvent>,
}

impl HistoryReader {
    pub fn new(head: EventSeq, start: EventSeq) -> (r: Self)
        ensures
            r.head == head,
            r.from == start,
            r.events@.len() == 0,
    {
        HistoryReader { head, from: start, events: Vec::new() }
    }

    /// Takes a page. Says whether the head was reached; an empty page before that is
    /// an error.
    pub fn accept_page(&mut self, page: Vec<SessionEvent>) -> (r: Result<bool, CliError>)
        ensures
            final(self).head == old(self).head,
            final(self).events@ == old(self).events@ + page@,
            if page@.len() == 0 {
                &&& r matches Err(e) && e@ == CliErrorView::EventSequence(
                    "SessionStore returned an empty page at seq "@ + decimal(
                        old(self).from@ as nat,
                    ) + " before head "@ + decimal(old(self).head@ as nat),
                )
                &&& final(self).from == old(self).from
            } else if page@.last().seq@ >= old(self).head@ {
                r == Ok::<bool, CliError>(true) && final(self).from == old(self).from
            } else {
                r == Ok::<bool, CliError>(false) && final(self).from@ == page@.last().seq@ + 1
            },
    {
        let mut page = page;
        if page.len() == 0 {
            assert(self.events@ + page@ =~= self.events@);
            return Err(
                CliError::EventSequence(
                    concat4(
                        "SessionStore returned an empty page at seq ",
                        decimal_text(self.from.get()).as_str(),
                        " before head ",
                        decimal_text(self.head.get()).as_str(),
                    ),
                ),
            );
        }
        let last = page[page.len() - 1].seq;
        self.events.append(&mut page);
        if last.get() >= self.head.get() {
            return Ok(true);
        }
        // A place before the head has a next one.
        let _ = self.head.get();
        match last.checked_next() {
            Ok(next) => {
                self.from = next;
                Ok(false)
            },
            Err(error) => Err(CliError::EventSequence(error.message())),
        }
    }
}

/// The events that came after `previous_head`.
pub open spec fn events_after(s: Seq<SessionEvent>, previous_head: EventSeq) -> Seq<SessionEvent>
    decreases s.len(),
{
    if s.len() == 0 {
        Seq::empty()
    } else if s.last().seq@ > previous_head@ {
        events_after(s.drop_last(), previous_head).push(s.last())
    } else {
        events_after(s.drop_last(), previous_head)
    }
}

/// Keeps the events that came after `previous_head`.
pub fn read_after(events: Vec<SessionEvent>, previous_head: EventSeq) -> (r: Vec<SessionEvent>)
    ensures
        r@ == events_after(events@, previous_head),
{
    let ghost all = events@;
    let mut rest = events;
    let mut kept: Vec<SessionEvent> = Vec::new();
    let n: usize = rest.len();
    let mut i: usize = 0;
    while i < n
        invariant
            n == all.len(),
            i <= n,
            rest@ == all.skip(i as int),
            kept@ == events_after(all.take(i as int), previous_head),
        decreases n - i,
    {
        assert(all.take(i + 1).drop_last() =~= all.take(i as int));
        let event = rest.remove(0);
        assert(event == all.take(i + 1).last());
        assert(rest@ =~= all.skip(i + 1));
        if previous_head.before(&event.seq) {
            kept.push(event);
        }
        i = i + 1;
    }
    assert(all.take(i as int) =~= all);
    kept
}

/// Nothing that was there before is shown again, and nothing that came after is
/// left out.
pub proof fn law_only_new_events_are_shown(s: Seq<SessionEvent>, previous_head: EventSeq)
    ensures
        forall|i: int|
            0 <= i < events_after(s, previous_head).len() ==> (#[trigger] events_after(
                s,
                previous_head,
            )[i]).seq@ > previous_head@,
        forall|i: int|
            0 <= i < s.len() && (#[trigger] s[i]).seq@ > previous_head@ ==> events_after(
                s,
                previous_head,
            ).contains(s[i]),
    decreases s.len(),
{
    if s.len() > 0 {
        let rest = s.drop_last();
        let kept = events_after(rest, previous_head);
        law_only_new_events_are_shown(rest, previous_head);
        let all = events_after(s, previous_head);
        assert forall|i: int| 0 <= i < all.len() implies (#[trigger] all[i]).seq@
            > previous_head@ by {
            if i < kept.len() {
                assert(all[i] == kept[i]);
            }
        }
        assert forall|i: int|
            0 <= i < s.len() && (#[trigger] s[i]).seq@ > previous_head@ implies all.contains(
            s[i],
        ) by {
            if i < rest.len() {
                assert(rest[i] == s[i]);
                let j = choose|j: int| 0 <= j < kept.len() && kept[j] == s[i];
                assert(all[j] == s[i]);
            } else {
                assert(all[all.len() - 1] == s[i]);
            }
        }
    }
}

/// A command gets the profile and the workspace that it asks for; where it asks for none,
/// those that its session is bound to; and where there are none either, the default ones.
/// They must be configured, and there must be a profile.
pub proof fn law_requests_come_before_bindings_and_defaults(
    profile: Option<Seq<char>>,
    workspace: Option<Seq<char>>,
    session: Option<Seq<char>>,
    c: ScopeCatalog,
    defaults: ScopeDefaults,
)
    ensures
        ({
            let bound = match session {
                Some(id) => session_of(c.sessions@, id),
                None => None,
            };
            let chosen = match (profile, bound) {
                (Some(name), _) => Some(name),
                (None, Some(scope)) if scope.profile is Some => Some(scope.profile->0@),
                _ => opt_text(defaults.profile),
            };
            let place = match (workspace, bound) {
                (Some(name), _) => Some(name),
                (None, Some(scope)) if scope.workspace is Some => Some(scope.workspace->0@),
                _ => opt_text(defaults.workspace),
            };
            match target_of(profile, workspace, session, c, defaults) {
                Ok(target) => {
                    &&& chosen == Some(target.0) && place == target.1
                    &&& profile_of(c.profiles@, target.0) is Some
                    &&& target.1 matches Some(w) ==> workspace_of(c.workspaces@, w) is Some
                },
                Err(e) => {
                    ||| chosen is None && e is MissingProfile
                    ||| chosen matches Some(p) && profile_of(c.profiles@, p) is None && e
                        == CliErrorView::ProfileNotFound(p)
                    ||| chosen is Some && profile_of(c.profiles@, chosen->0) is Some && place is Some
                        && workspace_of(c.workspaces@, place->0) is None && e
                        == CliErrorView::WorkspaceNotFound(place->0)
                },
            }
        }),
{
}

/// A selection of a target names its profile, its workspace and its session, and nothing else.
pub proof fn law_selections_name_their_target(
    s: ScopeSelection,
    profile: Seq<char>,
    workspace: Option<Seq<char>>,
    session: Option<Seq<char>>,
)
    ensures
        selects(s, (profile, workspace), session) <==> {
            &&& s.profile@ == profile
            &&& match s.workspace {
                Some(w) => workspace == Some(w@),
                None => workspace is None,
            }
            &&& match s.session_id {
                Some(id) => session == Some(id@),
                None => session is None,
            }
        },
{
}

/// A line that was typed is said without the ends of lines at its end, and all of it;
/// an empty one is ignored, and the word for leaving, or the end of the input, ends the
/// conversation.
pub proof fn law_typed_lines_are_said(text: Seq<char>, line: Seq<char>)
    requires
        text.len() == 0 || (text.last() != '\r' && text.last() != '\n'),
        text.len() <= line.len(),
        line.take(text.len() as int) == text,
        forall|i: int|
            text.len() <= i < line.len() ==> (#[trigger] line[i]) == '\r' || line[i] == '\n',
    ensures
        input_step(None) is Quit,
        text == "/quit"@ ==> input_step(Some(line)) is Quit,
        text != "/quit"@ && text.len() == 0 ==> input_step(Some(line)) is Ignore,
        text != "/quit"@ && text.len() > 0 ==> input_step(Some(line)) == InputStepView::Say(text),
{
    lemma_line_end(text, line);
}

proof fn lemma_line_end(text: Seq<char>, line: Seq<char>)
    requires
        text.len() == 0 || (text.last() != '\r' && text.last() != '\n'),
        text.len() <= line.len(),
        line.take(text.len() as int) == text,
        forall|i: int|
            text.len() <= i < line.len() ==> (#[trigger] line[i]) == '\r' || line[i] == '\n',
    ensures
        without_line_end(line) == text,
    decreases line.len(),
{
    if line.len() == text.len() {
        assert(line =~= text);
    } else {
        let rest = line.drop_last();
        assert(line[line.len() - 1] == '\r' || line[line.len() - 1] == '\n');
        assert(rest.take(text.len() as int) =~= text);
        assert forall|i: int| text.len() <= i < rest.len() implies (#[trigger] rest[i]) == '\r'
            || rest[i] == '\n' by {
            assert(rest[i] == line[i]);
        }
        lemma_line_end(text, rest);
    }
}

/// A turn is over once nothing is under way, nothing waits and nothing is open. An approval
/// that is pending, or a blocked session, cannot be waited for; the approval comes first.
pub proof fn law_turns_are_waited_for(state: AgentState)
    ensures
        state.projection.pending_approval is Some ==> turn_status(state) == Err::<
            bool,
            CliErrorView,
        >(CliErrorView::ApprovalPending),
        state.projection.pending_approval is None && state.gate is Blocked ==> (turn_status(
            state,
        ) matches Err(e) && e is RecoveryBlocked),
        state.projection.pending_approval is None && state.gate is Open ==> (turn_status(
            state,
        ) matches Ok(over) && (over <==> {
            &&& state.active_operation is None
            &&& state.projection.inbox.next_turn@.len() == 0
            &&& state.projection.inbox.next_step@.len() == 0
            &&& state.projection.lifecycle.open_turn is None
            &&& state.projection.lifecycle.open_step is None
        })),
{
}

/// Of a message exactly its texts are shown, one line each and in order.
pub proof fn law_texts_are_shown(s: Seq<ContentBlock>, next: ContentBlock)
    ensures
        content_lines(Seq::empty()).len() == 0,
        match next@ {
            ContentBlockView::Text { text } => content_lines(s.push(next)) == content_lines(s).push(
                RenderedView::Output("assistant> "@ + text),
            ),
            _ => content_lines(s.push(next)) == content_lines(s),
        },
{
    assert(s.push(next).drop_last() =~= s);
}

/// Of a turn exactly the messages of the assistant and the failures of the model are shown,
/// in order: messages as output, failures as diagnostics with code and message.
pub proof fn law_turns_are_shown(s: Seq<SessionEvent>, next: SessionEvent)
    ensures
        turn_lines(Seq::empty()).len() == 0,
        match next.draft.payload {
            SessionEventPayload::AssistantMessage(d) => turn_lines(s.push(next)) == turn_lines(s)
                + content_lines(d.message.content@),
            SessionEventPayload::ModelFailed(d) => turn_lines(s.push(next)) == turn_lines(s).push(
                RenderedView::Diagnostic(
                    "model-error> "@ + code_name(d.failure.code) + ": "@ + d.failure.message@,
                ),
            ),
            _ => turn_lines(s.push(next)) == turn_lines(s),
        },
{
    assert(s.push(next).drop_last() =~= s);
    assert(turn_lines(s) + event_lines(next) =~= turn_lines(s.push(next)));
}

/// The events that are shown keep their order.
pub proof fn law_shown_events_keep_their_order(
    s: Seq<SessionEvent>,
    previous_head: EventSeq,
    next: SessionEvent,
)
    ensures
        events_after(s.push(next), previous_head) == (if next.seq@ > previous_head@ {
            events_after(s, previous_head).push(next)
        } else {
            events_after(s, previous_head)
        }),
{
    assert(s.push(next).drop_last() =~= s);
}

/// A run fails if anything of it failed: with the failure of the conversation if there is
/// one, else with that of closing the agent, else with that of shutting down.
pub proof fn law_the_first_failure_counts(
    interaction: Result<(), CliError>,
    close: Result<(), String>,
    shutdown: Result<(), String>,
)
    ensures
        run_failure(interaction, close, shutdown) is None <==> interaction is Ok && close is Ok
            && shutdown is Ok,
        interaction matches Err(e) ==> run_failure(interaction, close, shutdown) == Some(e@),
        interaction is Ok ==> (close matches Err(m) ==> run_failure(interaction, close, shutdown)
            == Some(CliErrorView::Runtime(m@))),
        interaction is Ok && close is Ok ==> (shutdown matches Err(m) ==> run_failure(
            interaction,
            close,
            shutdown,
        ) == Some(CliErrorView::Runtime(m@))),
{
}

/// The report on a scope names its profile, workspace and session, its layers, its model and
/// its tools, and ends with the prompt if there is one.
pub proof fn law_reports_name_what_was_resolved(t: TraceView)
    ensures
        ({
            let lines = trace_lines(t);
            let workspace = match t.workspace {
                Some(w) => w,
                None => "-"@,
            };
            let session = match t.session_id {
                Some(id) => id,
                None => "-"@,
            };
            let limit = match t.max_output_tokens {
                Some(n) => decimal(n as nat),
                None => "default"@,
            };
            &&& lines[0] == "scope profile="@ + t.profile + " workspace="@ + workspace
                + " session="@ + session
            &&& lines[1] == "layers: "@ + joined(t.layers, " -> "@)
            &&& lines[2] == "model: "@ + t.provider + "/"@ + t.model + " timeout_ms="@ + decimal(
                t.timeout_ms as nat,
            ) + " max_output_tokens="@ + limit
            &&& lines[3] == "tools: "@ + joined(t.enabled_tools, ", "@)
            &&& t.system_prompt is None ==> lines.len() == 4
            &&& t.system_prompt matches Some(p) ==> lines.len() == 5 && lines[4] == "system:\n"@ + p
        }),
{
}

} // verus!
