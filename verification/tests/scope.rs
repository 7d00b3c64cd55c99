//! Scopes: layers of settings, and what a command line asks for.

use harness::cli::{
    parse_session_id, resolve_scope_target, scope_lines, scope_target, CliError, ConfigSummary,
    ScopeDefaults,
};
use harness::config::model::PolicyConfig;
use harness::config::plan::RuntimeToolBinding;
use harness::config::scope::{
    CompiledCapabilityPatch, CompiledModelPatch, CompiledProfile, CompiledProfileTool,
    CompiledScopePatch, CompiledSessionScope, PromptMode, ScopeCatalog, ScopeSelection,
};
use harness::conformance::tool_definition;
use harness::types::{Identifier, SideEffectClass};

fn id(value: &str) -> Identifier {
    Identifier::new(value).unwrap()
}

fn texts(values: &[&str]) -> Vec<String> {
    values.iter().map(|value| value.to_string()).collect()
}

fn empty_patch() -> CompiledScopePatch {
    CompiledScopePatch {
        system: None,
        system_mode: PromptMode::Append,
        model: CompiledModelPatch {
            provider: None,
            model: None,
            timeout_ms: None,
            max_output_tokens: None,
        },
        capabilities: CompiledCapabilityPatch { enable: Vec::new(), disable: Vec::new() },
        policy: None,
        max_automatic_tool_attempts: None,
    }
}

fn tool(name: &str, enabled: Option<bool>) -> (String, CompiledProfileTool) {
    (
        name.to_owned(),
        CompiledProfileTool {
            binding: RuntimeToolBinding {
                definition: tool_definition(name, SideEffectClass::ReadOnly),
                provider: id("prv_tools"),
            },
            enabled,
        },
    )
}

fn profile() -> CompiledProfile {
    CompiledProfile {
        model_provider: id("prv_model"),
        model: "base".to_owned(),
        system: Some("profile prompt".to_owned()),
        timeout_ms: None,
        max_output_tokens: None,
        tools: vec![tool("alpha", None), tool("beta", Some(false)), tool("gamma", None)],
        policy: None,
        max_automatic_tool_attempts: None,
    }
}

fn catalog() -> ScopeCatalog {
    let mut global = empty_patch();
    global.system = Some("global prompt".to_owned());
    global.policy = Some(PolicyConfig::AllowAll);
    global.model.timeout_ms = Some(1_000);
    global.capabilities.disable = texts(&["gamma", "unknown"]);
    let mut workspace = empty_patch();
    workspace.system = Some("workspace prompt".to_owned());
    workspace.system_mode = PromptMode::Replace;
    workspace.model.model = Some("workspace model".to_owned());
    workspace.model.timeout_ms = Some(2_000);
    workspace.capabilities.enable = texts(&["gamma"]);
    let mut session = empty_patch();
    session.model.model = Some("session model".to_owned());
    session.max_automatic_tool_attempts = Some(5);
    session.capabilities.enable = texts(&["alpha", "beta"]);
    session.capabilities.disable = texts(&["alpha"]);
    ScopeCatalog::new(
        global,
        vec![("work".to_owned(), workspace)],
        vec![("main".to_owned(), profile())],
        vec![(
            id("ses_1"),
            CompiledSessionScope {
                profile: Some("main".to_owned()),
                workspace: Some("work".to_owned()),
                patch: session,
            },
        )],
    )
}

#[test]
fn global_settings_and_the_profile_add_up() {
    let resolved = catalog().resolve(ScopeSelection::new("main".to_owned())).unwrap();
    let trace = resolved.trace();
    assert_eq!(trace.layers, texts(&["global", "profile:main"]));
    assert_eq!(trace.system_prompt.as_deref(), Some("global prompt\n\nprofile prompt"));
    assert_eq!(trace.model.provider, "prv_model");
    assert_eq!(trace.model.model, "base");
    assert_eq!(trace.model.timeout_ms, 1_000);
    assert_eq!(trace.model.max_output_tokens, None);
    assert_eq!(trace.enabled_tools, texts(&["alpha"]));
    assert_eq!(trace.disabled_tools, texts(&["beta", "gamma"]));
    assert_eq!(trace.ignored_capability_directives, texts(&["global:disable:unknown"]));
    assert_eq!(trace.policy, "allow-all");
    assert_eq!(trace.max_automatic_tool_attempts, 2);
    assert_eq!(resolved.agent_profile().tools.len(), 1);
    assert_eq!(resolved.profile_name(), "main");
    assert!(resolved.workspace().is_none());
    assert!(resolved.session_id().is_none());
}

#[test]
fn inner_layers_win_and_prompts_replace_what_came_before() {
    let selection = ScopeSelection::new("main".to_owned())
        .with_workspace("work".to_owned())
        .with_session(id("ses_1"));
    let resolved = catalog().resolve(selection).unwrap();
    let trace = resolved.trace();
    assert_eq!(
        trace.layers,
        texts(&["global", "workspace:work", "profile:main", "session:ses_1"])
    );
    assert_eq!(trace.system_prompt.as_deref(), Some("workspace prompt\n\nprofile prompt"));
    assert_eq!(trace.prompt_fragments[0].layer, "workspace:work");
    assert_eq!(trace.prompt_fragments[0].mode, "replace");
    assert_eq!(trace.model.model, "session model");
    assert_eq!(trace.model.timeout_ms, 2_000);
    assert_eq!(trace.max_automatic_tool_attempts, 5);
    // The session both enables and disables alpha: it stays off. It turns beta
    // on, and the workspace turns gamma on again.
    assert_eq!(trace.enabled_tools, texts(&["beta", "gamma"]));
    assert_eq!(trace.disabled_tools, texts(&["alpha"]));
    assert_eq!(resolved.agent_profile().model.model, "session model");
    assert_eq!(
        resolved.agent_profile().model.system.as_deref(),
        Some("workspace prompt\n\nprofile prompt")
    );
}

#[test]
fn a_session_without_settings_adds_no_layer() {
    let selection = ScopeSelection::new("main".to_owned()).with_session(id("ses_other"));
    let resolved = catalog().resolve(selection).unwrap();
    assert_eq!(resolved.trace().layers, texts(&["global", "profile:main"]));
    assert_eq!(resolved.trace().session_id.as_deref(), Some("ses_other"));
}

#[test]
fn scopes_that_do_not_exist_are_refused() {
    let error = catalog().resolve(ScopeSelection::new("other".to_owned())).unwrap_err();
    assert_eq!(
        error.message(),
        "invalid Harness config: scope references profile \"other\", which is not configured"
    );
    let error = catalog()
        .resolve(ScopeSelection::new("main".to_owned()).with_workspace("other".to_owned()))
        .unwrap_err();
    assert_eq!(
        error.message(),
        "invalid Harness config: scope references workspace \"other\", which is not configured"
    );
    let error = catalog()
        .resolve(ScopeSelection::new("main".to_owned()).with_session(id("ses_1")))
        .unwrap_err();
    assert_eq!(
        error.message(),
        "invalid Harness config: session scope binds workspace \"work\", but resolution requested None"
    );

    let mut other = catalog();
    other.profiles.push(("second".to_owned(), profile()));
    let error = other
        .resolve(
            ScopeSelection::new("second".to_owned())
                .with_workspace("work".to_owned())
                .with_session(id("ses_1")),
        )
        .unwrap_err();
    assert_eq!(
        error.message(),
        "invalid Harness config: session scope binds profile \"main\", but resolution requested \"second\""
    );

    let mut lawless = catalog();
    lawless.global.policy = None;
    let error = lawless.resolve(ScopeSelection::new("main".to_owned())).unwrap_err();
    assert_eq!(
        error.message(),
        "invalid Harness config: scope for profile \"main\" does not resolve a Tool policy"
    );
}

#[test]
fn catalogs_are_looked_up_by_name() {
    let catalog = catalog();
    assert_eq!(catalog.workspace_count(), 1);
    assert_eq!(catalog.session_scope_count(), 1);
    assert!(catalog.contains_profile(&"main".to_owned()));
    assert!(!catalog.contains_profile(&"work".to_owned()));
    assert!(catalog.contains_workspace(&"work".to_owned()));
    assert!(!catalog.contains_workspace(&"main".to_owned()));
    assert_eq!(catalog.session_profile(&id("ses_1")).as_deref(), Some("main"));
    assert_eq!(catalog.session_workspace(&id("ses_1")).as_deref(), Some("work"));
    assert_eq!(catalog.session_profile(&id("ses_2")), None);
}

fn no_defaults() -> ScopeDefaults {
    ScopeDefaults { profile: None, workspace: None }
}

#[test]
fn a_request_comes_before_the_binding_and_the_binding_before_the_default() {
    let catalog = catalog();
    let defaults =
        ScopeDefaults { profile: Some("main".to_owned()), workspace: Some("work".to_owned()) };

    let selection = scope_target(None, None, &None, &catalog, &defaults).unwrap();
    assert_eq!(selection.profile(), "main");
    assert_eq!(selection.workspace().as_deref(), Some("work"));

    let selection =
        scope_target(None, None, &Some(id("ses_1")), &catalog, &no_defaults()).unwrap();
    assert_eq!(selection.profile(), "main");
    assert_eq!(selection.workspace().as_deref(), Some("work"));
    assert_eq!(selection.session_id(), &Some(id("ses_1")));

    let requested = Some("other".to_owned());
    assert_eq!(
        scope_target(requested, None, &Some(id("ses_1")), &catalog, &defaults).unwrap_err(),
        CliError::ProfileNotFound("other".to_owned())
    );
}

#[test]
fn targets_that_do_not_exist_are_refused() {
    let catalog = catalog();
    let missing = resolve_scope_target(None, None, &None, &catalog, &no_defaults()).unwrap_err();
    assert_eq!(missing, CliError::MissingProfile);
    assert_eq!(
        missing.message(),
        "no profile was supplied and runtime.default_profile is not configured"
    );

    let unknown =
        resolve_scope_target(Some("x".to_owned()), None, &None, &catalog, &no_defaults())
            .unwrap_err();
    assert_eq!(unknown.message(), "Agent profile \"x\" is not configured");

    let nowhere = resolve_scope_target(
        Some("main".to_owned()),
        Some("y".to_owned()),
        &None,
        &catalog,
        &no_defaults(),
    )
    .unwrap_err();
    assert_eq!(nowhere.message(), "workspace \"y\" is not configured");

    let mut lawless = catalog;
    lawless.global.policy = None;
    let refused =
        resolve_scope_target(Some("main".to_owned()), None, &None, &lawless, &no_defaults())
            .unwrap_err();
    assert!(matches!(refused, CliError::Config(_)));
}

#[test]
fn a_resolved_scope_is_reported_line_by_line() {
    let resolved = resolve_scope_target(
        Some("main".to_owned()),
        None,
        &None,
        &catalog(),
        &no_defaults(),
    )
    .unwrap();
    assert_eq!(
        scope_lines(resolved.trace()),
        texts(&[
            "scope profile=main workspace=- session=-",
            "layers: global -> profile:main",
            "model: prv_model/base timeout_ms=1000 max_output_tokens=default",
            "tools: alpha",
            "system:\nglobal prompt\n\nprofile prompt",
        ])
    );
}

#[test]
fn a_configuration_is_reported_in_one_line() {
    let mut summary = ConfigSummary {
        source: "/etc/harness.toml".to_owned(),
        providers: 2,
        profiles: 1,
        workspaces: 0,
        session_scopes: 0,
        credentials: 3,
        data_dir: "/var/harness".to_owned(),
        runtime_events: None,
    };
    assert_eq!(
        summary.line(),
        "config ok: /etc/harness.toml (providers=2, profiles=1, workspaces=0, session_scopes=0, \
         credentials=3, data_dir=/var/harness, runtime_events=disabled)"
    );
    summary.runtime_events = Some("/var/events.jsonl".to_owned());
    assert!(summary.line().ends_with("runtime_events=/var/events.jsonl)"));
}

#[test]
fn session_names_must_not_be_empty() {
    assert_eq!(parse_session_id("ses_1".to_owned()).unwrap(), id("ses_1"));
    let error = parse_session_id(String::new()).unwrap_err();
    assert_eq!(error.message(), "invalid SessionId \"\": identifier must not be empty");
}
