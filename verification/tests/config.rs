//! Compiling a configuration, schemas, paths and credentials.

use harness::config::credentials::{CredentialResolveError, EnvironmentCredentialResolver};
use harness::config::error::HarnessConfigError;
use harness::config::loader::{
    compile_config, compile_tool_definition, resolve_path, resolve_program, schema_to_json,
    validate_object_arguments, validate_provider_config, ToolRefusal,
};
use harness::config::model::{
    default_input_schema, default_max_automatic_tool_attempts, default_max_stdout_line_bytes,
    default_model_timeout_ms, default_provider_request_timeout_ms,
    default_provider_shutdown_timeout_ms, default_stderr_history_lines, default_tool_timeout_ms,
    ConfigPath, HarnessConfig, ModelConfig, ObservabilityConfig, PathForm, PolicyConfig,
    ProfileConfig, ProviderConfig, RuntimeConfig, TomlValue, ToolConfig,
};
use harness::config::plan::ResolvedPath;
use harness::json::JsonText;
use harness::rows::{comes_before, put_row};
use harness::types::SideEffectClass;

fn plain(text: &str) -> ConfigPath {
    ConfigPath { text: text.to_owned(), form: PathForm::Plain }
}

fn provider(id: &str, program: ConfigPath, args: Vec<&str>) -> ProviderConfig {
    ProviderConfig {
        id: id.to_owned(),
        program,
        args: args.into_iter().map(str::to_owned).collect(),
        cwd: None,
        env: Vec::new(),
        credentials: Vec::new(),
        request_timeout_ms: default_provider_request_timeout_ms(),
        shutdown_timeout_ms: default_provider_shutdown_timeout_ms(),
        max_stdout_line_bytes: default_max_stdout_line_bytes(),
        stderr_history_lines: default_stderr_history_lines(),
    }
}

fn model(provider: &str, model: &str) -> ModelConfig {
    ModelConfig {
        provider: provider.to_owned(),
        model: model.to_owned(),
        system: None,
        timeout_ms: default_model_timeout_ms(),
        max_output_tokens: None,
    }
}

fn profile(model: ModelConfig, tools: Vec<ToolConfig>) -> ProfileConfig {
    ProfileConfig {
        model,
        tools,
        policy: PolicyConfig::AllowAll,
        max_automatic_tool_attempts: default_max_automatic_tool_attempts(),
    }
}

fn tool(name: &str, provider: &str, description: &str, input_schema: TomlValue) -> ToolConfig {
    ToolConfig {
        name: name.to_owned(),
        provider: provider.to_owned(),
        version: "1".to_owned(),
        description: description.to_owned(),
        input_schema,
        output_schema: None,
        parallel_safe: true,
        side_effect: SideEffectClass::ReadOnly,
        timeout_ms: default_tool_timeout_ms(),
    }
}

fn config(providers: Vec<ProviderConfig>, profiles: Vec<(String, ProfileConfig)>) -> HarnessConfig {
    HarnessConfig {
        schema_version: 1,
        runtime: RuntimeConfig::default(),
        observability: ObservabilityConfig::default(),
        credentials: Vec::new(),
        providers,
        profiles,
    }
}

fn text(value: &str) -> TomlValue {
    TomlValue::String(value.to_owned())
}

fn table(entries: Vec<(&str, TomlValue)>) -> TomlValue {
    TomlValue::Table(entries.into_iter().map(|(k, v)| (k.to_owned(), v)).collect())
}

fn echo_config() -> HarnessConfig {
    let schema = table(vec![
        ("properties", table(vec![("text", table(vec![("type", text("string"))]))])),
        ("type", text("object")),
    ]);
    let mut model = model("example-python", "agent-model");
    model.max_output_tokens = Some(128);
    let mut config = config(
        vec![provider(
            "example-python",
            plain("python3"),
            vec!["providers/example-python/provider.py"],
        )],
        vec![(
            "default".to_owned(),
            profile(model, vec![tool("echo", "example-python", "Echo", schema)]),
        )],
    );
    config.runtime.data_dir = plain(".state");
    config.runtime.default_profile = Some("default".to_owned());
    config
}

#[test]
fn compiles_relative_paths_and_profile_bindings() {
    let plan = compile_config(&echo_config(), "/base", &Vec::new()).unwrap();
    assert_eq!(plan.provider_count(), 1);
    assert_eq!(plan.profile_count(), 1);
    assert_eq!(plan.default_profile().as_deref(), Some("default"));
    assert_eq!(
        *plan.data_dir(),
        ResolvedPath::Under { base: "/base".to_owned(), path: ".state".to_owned() }
    );
    assert_eq!(plan.profile_names(), vec!["default".to_owned()]);
    assert!(plan.contains_profile("default") && !plan.contains_profile("other"));
    assert_eq!(plan.providers[0].program, ResolvedPath::AsGiven("python3".to_owned()));
    let profile = &plan.profiles[0].1;
    assert_eq!(profile.model.options.max_output_tokens, Some(128));
    assert_eq!(profile.tools.len(), 1);
    assert_eq!(
        profile.tools[0].definition.input_schema.as_str(),
        r#"{"properties":{"text":{"type":"string"}},"type":"object"}"#
    );
}

#[test]
fn accepts_json_text_schema_when_toml_cannot_express_json_null() {
    let config = config(
        vec![provider("provider", plain("provider"), Vec::new())],
        vec![(
            "default".to_owned(),
            profile(
                model("provider", "model"),
                vec![tool(
                    "tool",
                    "provider",
                    "tool",
                    text(r#"{"type":"object","examples":[null]}"#),
                )],
            ),
        )],
    );
    let plan = compile_config(&config, "/base", &Vec::new()).unwrap();
    assert_eq!(plan.profile_count(), 1);
}

#[test]
fn static_compile_does_not_start_or_require_provider_process() {
    let program =
        ConfigPath { text: "./definitely-not-present".to_owned(), form: PathForm::Nested };
    let config = config(vec![provider("offline-provider", program, Vec::new())], Vec::new());
    let plan = compile_config(&config, "/base", &Vec::new()).unwrap();
    assert_eq!(plan.provider_count(), 1);
}

#[test]
fn rejects_unknown_profile_provider() {
    let config = config(
        Vec::new(),
        vec![("default".to_owned(), profile(model("missing", "model"), Vec::new()))],
    );
    let error = match compile_config(&config, "/base", &Vec::new()) {
        Ok(_) => panic!("config unexpectedly compiled"),
        Err(error) => error,
    };
    assert!(matches!(error, HarnessConfigError::UnknownProviderReference { .. }));
}

#[test]
fn rejects_unsupported_schema_version() {
    let mut config = config(Vec::new(), Vec::new());
    config.schema_version = 2;
    let error = match compile_config(&config, "/base", &Vec::new()) {
        Ok(_) => panic!("config unexpectedly compiled"),
        Err(error) => error,
    };
    assert!(matches!(error, HarnessConfigError::Invalid(_)));
}

#[test]
fn rejects_default_profile_that_is_not_defined() {
    let mut config = config(Vec::new(), Vec::new());
    config.runtime.default_profile = Some("missing".to_owned());
    let error = match compile_config(&config, "/base", &Vec::new()) {
        Ok(_) => panic!("config unexpectedly compiled"),
        Err(error) => error,
    };
    assert!(matches!(error, HarnessConfigError::Invalid(_)));
    assert!(error.message().contains("\"missing\""));
}

#[test]
fn rejects_duplicate_and_unnamed_providers() {
    let twice = || provider("p", plain("p"), Vec::new());
    assert!(matches!(
        compile_config(&config(vec![twice(), twice()], Vec::new()), "/base", &Vec::new()),
        Err(HarnessConfigError::DuplicateProvider(id)) if id == "p"
    ));
    assert!(matches!(
        compile_config(
            &config(vec![provider("", plain("p"), Vec::new())], Vec::new()),
            "/base",
            &Vec::new()
        ),
        Err(HarnessConfigError::Invalid(_)) | Err(HarnessConfigError::InvalidProviderId { .. })
    ));
    let mut echo = echo_config();
    echo.profiles[0].1.tools[0].provider = "elsewhere".to_owned();
    assert!(matches!(
        compile_config(&echo, "/base", &Vec::new()),
        Err(HarnessConfigError::UnknownToolProviderReference { tool, provider, .. })
            if tool == "echo" && provider == "elsewhere"
    ));
}

#[test]
fn provider_limits_must_be_positive() {
    assert!(validate_provider_config("p", "program", 1, 1, 1, 1).is_ok());
    for bad in [
        validate_provider_config("p", "", 1, 1, 1, 1),
        validate_provider_config("p", "program", 0, 1, 1, 1),
        validate_provider_config("p", "program", 1, 0, 1, 1),
        validate_provider_config("p", "program", 1, 1, 0, 1),
        validate_provider_config("p", "program", 1, 1, 1, 0),
    ] {
        assert!(matches!(bad, Err(HarnessConfigError::Invalid(_))));
    }
}

#[test]
fn schemas_that_json_cannot_carry_are_refused() {
    let mut echo = echo_config();
    echo.profiles[0].1.tools[0].input_schema = table(vec![("when", TomlValue::Datetime)]);
    assert!(matches!(
        compile_config(&echo, "/base", &Vec::new()),
        Err(HarnessConfigError::SchemaDatetime { .. })
    ));
    echo.profiles[0].1.tools[0].input_schema =
        table(vec![("x", TomlValue::Float { finite: false, text: String::new() })]);
    assert!(matches!(
        compile_config(&echo, "/base", &Vec::new()),
        Err(HarnessConfigError::SchemaNonFiniteFloat { .. })
    ));
    echo.profiles[0].1.tools[0].input_schema = text("{");
    assert!(matches!(
        compile_config(&echo, "/base", &Vec::new()),
        Err(HarnessConfigError::SchemaJson { field, .. }) if field == "input_schema"
    ));
}

#[test]
fn schema_values_are_written_as_json() {
    let value = table(vec![
        ("a", TomlValue::Array(vec![TomlValue::Integer(-7), TomlValue::Boolean(true)])),
        ("f", TomlValue::Float { finite: true, text: "1.5".to_owned() }),
        ("q", text("say \"hi\"\n")),
    ]);
    assert_eq!(
        schema_to_json(&value).unwrap(),
        r#"{"a":[-7,true],"f":1.5,"q":"say \"hi\"\n"}"#
    );
    assert_eq!(schema_to_json(&default_input_schema()).unwrap(), r#"{"type":"object"}"#);
}

#[test]
fn paths_are_taken_from_the_configuration_directory() {
    let absolute = ConfigPath { text: "/abs/x".to_owned(), form: PathForm::Absolute };
    let nested = ConfigPath { text: "bin/x".to_owned(), form: PathForm::Nested };
    assert_eq!(resolve_path("/base", &absolute), ResolvedPath::AsGiven("/abs/x".to_owned()));
    assert_eq!(
        resolve_path("/base", &plain("x")),
        ResolvedPath::Under { base: "/base".to_owned(), path: "x".to_owned() }
    );
    assert_eq!(resolve_program("/base", &plain("x")), ResolvedPath::AsGiven("x".to_owned()));
    assert_eq!(
        resolve_program("/base", &nested),
        ResolvedPath::Under { base: "/base".to_owned(), path: "bin/x".to_owned() }
    );
}

#[test]
fn tool_arguments_must_be_an_object() {
    let json = |text: &str| JsonText::new(text.to_owned()).unwrap();
    assert!(validate_object_arguments(&json("{}")).is_ok());
    assert!(validate_object_arguments(&json("[]")).is_err());
    assert!(JsonText::new("{".to_owned()).is_err());
}

#[test]
fn credentials_come_from_their_variables() {
    let resolver = EnvironmentCredentialResolver::new(vec![(
        "openai".to_owned(),
        "OPENAI_KEY".to_owned(),
    )]);
    assert_eq!(resolver.len(), 1);
    assert!(!resolver.is_empty());
    assert_eq!(resolver.variable(&"openai".to_owned()).unwrap(), "OPENAI_KEY");
    assert_eq!(
        resolver.resolve(&"openai".to_owned(), Some("value".to_owned())),
        Ok("value".to_owned())
    );
    assert_eq!(
        resolver.resolve(&"openai".to_owned(), None),
        Err(CredentialResolveError::Backend {
            key: "openai".to_owned(),
            message: "environment variable \"OPENAI_KEY\" is not set".to_owned(),
        })
    );
    assert_eq!(
        resolver.resolve(&"other".to_owned(), Some("value".to_owned())),
        Err(CredentialResolveError::NotFound { key: "other".to_owned() })
    );
}

#[test]
fn refused_tool_definitions_are_reported() {
    let echo = echo_config();
    let refusal = |profile: &str, message: &str| ToolRefusal {
        profile: profile.to_owned(),
        tool: "echo".to_owned(),
        message: message.to_owned(),
    };
    let profile = echo.profiles[0].0.clone();
    let definition = compile_tool_definition(&profile, &echo.profiles[0].1.tools[0]).unwrap();
    assert_eq!(definition.name, "echo");
    let refused = compile_config(
        &echo,
        "/base",
        &vec![refusal("elsewhere", "first"), refusal(&profile, "timeout is zero")],
    );
    match refused {
        Err(HarnessConfigError::Invalid(message)) => assert_eq!(
            message,
            format!("profile {profile:?} tool \"echo\" is invalid: timeout is zero")
        ),
        other => panic!("unexpected outcome: {other:?}"),
    }
    assert!(compile_config(&echo, "/base", &vec![refusal("elsewhere", "first")]).is_ok());
}

#[test]
fn a_faulty_schema_comes_before_a_refusal() {
    let mut echo = echo_config();
    echo.profiles[0].1.tools[0].output_schema = Some(TomlValue::Datetime);
    let refusals = vec![ToolRefusal {
        profile: echo.profiles[0].0.clone(),
        tool: "echo".to_owned(),
        message: "refused".to_owned(),
    }];
    assert!(matches!(
        compile_config(&echo, "/base", &refusals),
        Err(HarnessConfigError::SchemaDatetime { .. })
    ));
}

#[test]
fn profile_names_ascend() {
    let mut profiles: Vec<(String, ProfileConfig)> = Vec::new();
    for name in ["main", "beta", "main", "main2"] {
        let mut echo = echo_config();
        put_row(&mut profiles, name.to_owned(), echo.profiles.remove(0).1);
    }
    let mut echo = echo_config();
    echo.runtime.default_profile = None;
    echo.profiles = profiles;
    let plan = compile_config(&echo, "/base", &Vec::new()).unwrap();
    assert_eq!(plan.profile_names(), vec!["beta", "main", "main2"]);
}

#[test]
fn rows_are_kept_in_order() {
    assert!(comes_before("a", "ab"));
    assert!(comes_before("Z", "a"));
    assert!(!comes_before("a", "a"));
    assert!(comes_before("z", "\u{e9}"));
    let mut rows: Vec<(String, u8)> = Vec::new();
    put_row(&mut rows, "b".to_owned(), 1);
    put_row(&mut rows, "a".to_owned(), 2);
    put_row(&mut rows, "c".to_owned(), 3);
    put_row(&mut rows, "b".to_owned(), 4);
    assert_eq!(rows, vec![("a".to_owned(), 2), ("b".to_owned(), 4), ("c".to_owned(), 3)]);
}
