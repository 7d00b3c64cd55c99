//! Compiling a configuration.

use vstd::prelude::*;

use crate::config::error::{ConfigErrorView, HarnessConfigError};
use crate::config::model::{
    ConfigPath, HarnessConfig, PathForm, ProfileConfig, ProviderConfig, TomlValue, ToolConfig,
    HARNESS_CONFIG_SCHEMA_VERSION,
};
use crate::config::plan::{
    bindings, clone_pairs, pairs, AgentProfile, AgentProfileView, ModelBinding, ModelBindingView,
    PathView, PlanView, ProviderProcessSpec, ProviderSpecView, ResolvedPath, RuntimePlan, RuntimeToolBinding,
    ToolBindingView,
};
use crate::json::{
    json_quoted, json_reading, quote_json, read_json, reading_view, JsonRoot, JsonRootView,
    JsonText,
};
use crate::llm::request::ModelOptions;
use crate::rows::{ascending, names_of};
use crate::text::{
    blank, clone_texts, concat3, concat4, concat5, decimal, decimal_text, integer_notation,
    integer_text, is_blank, opt_text, quoted, quoted_text, same_text, texts,
};
use crate::tools::ToolDefinition;
use crate::types::{Identifier, ProviderId};

verus! {

/// What is wrong with a schema.
#[derive(Clone, Copy, Debug, PartialEq, Eq, Structural)]
pub enum SchemaFault {
    Datetime,
    NonFiniteFloat,
}

/// The JSON notation of a value of the configuration language, or its first
/// part that JSON cannot express.
pub open spec fn schema_notation(v: TomlValue) -> Result<Seq<char>, SchemaFault>
    decreases v,
{
    match v {
        TomlValue::String(s) => Ok(json_quoted(s@)),
        TomlValue::Integer(n) => Ok(integer_notation(n as int)),
        TomlValue::Float { finite, text } => if finite {
            Ok(text@)
        } else {
            Err(SchemaFault::NonFiniteFloat)
        },
        TomlValue::Boolean(b) => Ok(
            if b {
                "true"@
            } else {
                "false"@
            },
        ),
        TomlValue::Datetime => Err(SchemaFault::Datetime),
        TomlValue::Array(items) => match items_notation(items@) {
            Ok(body) => Ok("["@ + body + "]"@),
            Err(fault) => Err(fault),
        },
        TomlValue::Table(entries) => match entries_notation(entries@) {
            Ok(body) => Ok("{"@ + body + "}"@),
            Err(fault) => Err(fault),
        },
    }
}

/// The notation of the items of an array, between commas.
pub open spec fn items_notation(s: Seq<TomlValue>) -> Result<Seq<char>, SchemaFault>
    decreases s,
{
    if s.len() == 0 {
        Ok(Seq::empty())
    } else {
        match items_notation(s.drop_last()) {
            Err(fault) => Err(fault),
            Ok(before) => match schema_notation(s[s.len() - 1]) {
                Err(fault) => Err(fault),
                Ok(item) => Ok(
                    if s.len() == 1 {
                        item
                    } else {
                        before + ","@ + item
                    },
                ),
            },
        }
    }
}

/// The notation of the entries of a table, between commas.
pub open spec fn entries_notation(s: Seq<(String, TomlValue)>) -> Result<Seq<char>, SchemaFault>
    decreases s,
{
    if s.len() == 0 {
        Ok(Seq::empty())
    } else {
        match entries_notation(s.drop_last()) {
            Err(fault) => Err(fault),
            Ok(before) => match schema_notation(s[s.len() - 1].1) {
                Err(fault) => Err(fault),
                Ok(value) => {
                    let entry = json_quoted(s[s.len() - 1].0@) + ":"@ + value;
                    Ok(
                        if s.len() == 1 {
                            entry
                        } else {
                            before + ","@ + entry
                        },
                    )
                },
            },
        }
    }
}

/// Writes a value of the configuration language as JSON.
pub fn schema_to_json(value: &TomlValue) -> (r: Result<String, SchemaFault>)
    ensures
        match r {
            Ok(text) => schema_notation(*value) == Ok::<Seq<char>, SchemaFault>(text@),
            Err(fault) => schema_notation(*value) == Err::<Seq<char>, SchemaFault>(fault),
        },
    decreases value,
{
    match value {
        TomlValue::String(s) => Ok(quote_json(s.as_str())),
        TomlValue::Integer(n) => Ok(integer_text(*n)),
        TomlValue::Float { finite, text } => if *finite {
            Ok(text.clone())
        } else {
            Err(SchemaFault::NonFiniteFloat)
        },
        TomlValue::Boolean(b) => Ok(
            if *b {
                "true".to_owned()
            } else {
                "false".to_owned()
            },
        ),
        TomlValue::Datetime => Err(SchemaFault::Datetime),
        TomlValue::Array(items) => {
            let mut body = String::new();
            let mut i: usize = 0;
            while i < items.len()
                invariant
                    i <= items@.len(),
                    value matches TomlValue::Array(x) && x == items,
                    items_notation(items@.take(i as int)) == Ok::<Seq<char>, SchemaFault>(body@),
                decreases items@.len() - i,
            {
                let ghost part = items@.take(i + 1);
                assert(part.drop_last() =~= items@.take(i as int));
                assert(part[part.len() - 1] == items@[i as int]);
                match schema_to_json(&items[i]) {
                    Ok(item) => {
                        if i > 0 {
                            body.append(",");
                            body.append(item.as_str());
                        } else {
                            body = item;
                        }
                    },
                    Err(fault) => {
                        proof {
                            lemma_items_fault(items@, i as int);
                        }
                        return Err(fault);
                    },
                }
                i = i + 1;
            }
            assert(items@.take(i as int) =~= items@);
            Ok(concat3("[", body.as_str(), "]"))
        },
        TomlValue::Table(entries) => {
            let mut body = String::new();
            let mut i: usize = 0;
            while i < entries.len()
                invariant
                    i <= entries@.len(),
                    value matches TomlValue::Table(x) && x == entries,
                    entries_notation(entries@.take(i as int)) == Ok::<Seq<char>, SchemaFault>(
                        body@,
                    ),
                decreases entries@.len() - i,
            {
                let ghost part = entries@.take(i + 1);
                assert(part.drop_last() =~= entries@.take(i as int));
                assert(part[part.len() - 1] == entries@[i as int]);
                match schema_to_json(&entries[i].1) {
                    Ok(item) => {
                        let entry = concat3(
                            quote_json(entries[i].0.as_str()).as_str(),
                            ":",
                            item.as_str(),
                        );
                        if i > 0 {
                            body.append(",");
                            body.append(entry.as_str());
                        } else {
                            body = entry;
                        }
                    },
                    Err(fault) => {
                        proof {
                            lemma_entries_fault(entries@, i as int);
                        }
                        return Err(fault);
                    },
                }
                i = i + 1;
            }
            assert(entries@.take(i as int) =~= entries@);
            Ok(concat3("{", body.as_str(), "}"))
        },
    }
}

proof fn lemma_items_fault(s: Seq<TomlValue>, i: int)
    requires
        0 <= i < s.len(),
        items_notation(s.take(i + 1)) is Err,
    ensures
        items_notation(s) == items_notation(s.take(i + 1)),
    decreases s.len() - i,
{
    if i + 1 == s.len() {
        assert(s.take(i + 1) =~= s);
    } else {
        assert(s.take(i + 2).drop_last() =~= s.take(i + 1));
        lemma_items_fault(s, i + 1);
    }
}

proof fn lemma_entries_fault(s: Seq<(String, TomlValue)>, i: int)
    requires
        0 <= i < s.len(),
        entries_notation(s.take(i + 1)) is Err,
    ensures
        entries_notation(s) == entries_notation(s.take(i + 1)),
    decreases s.len() - i,
{
    if i + 1 == s.len() {
        assert(s.take(i + 1) =~= s);
    } else {
        assert(s.take(i + 2).drop_last() =~= s.take(i + 1));
        lemma_entries_fault(s, i + 1);
    }
}

/// A path as it is to be used: a relative one is below the base directory.
pub open spec fn located(base: Seq<char>, path: ConfigPath) -> PathView {
    if path.form == PathForm::Absolute {
        PathView::AsGiven(path.text@)
    } else {
        PathView::Under { base, path: path.text@ }
    }
}

/// A program as it is to be started: a plain name is looked up by the system.
pub open spec fn located_program(base: Seq<char>, program: ConfigPath) -> PathView {
    if program.form == PathForm::Plain {
        PathView::AsGiven(program.text@)
    } else {
        located(base, program)
    }
}

pub fn resolve_path(base_dir: &str, path: &ConfigPath) -> (r: ResolvedPath)
    ensures
        r@ == located(base_dir@, *path),
{
    if path.form == PathForm::Absolute {
        ResolvedPath::AsGiven(path.text.clone())
    } else {
        ResolvedPath::Under { base: base_dir.to_owned(), path: path.text.clone() }
    }
}

pub fn resolve_program(base_dir: &str, program: &ConfigPath) -> (r: ResolvedPath)
    ensures
        r@ == located_program(base_dir@, *program),
{
    if program.form == PathForm::Plain {
        ResolvedPath::AsGiven(program.text.clone())
    } else {
        resolve_path(base_dir, program)
    }
}

pub open spec fn invalid(message: Seq<char>) -> ConfigErrorView {
    ConfigErrorView::Invalid(message)
}

/// What is wrong with the limits of a provider.
pub open spec fn limits_fault(
    id: Seq<char>,
    program: Seq<char>,
    request_timeout_ms: u64,
    shutdown_timeout_ms: u64,
    max_stdout_line_bytes: usize,
    stderr_history_lines: usize,
) -> Option<ConfigErrorView> {
    if is_blank(id) {
        Some(invalid("provider id must not be empty"@))
    } else if is_blank(program) {
        Some(invalid("provider "@ + quoted(id) + " program must not be empty"@))
    } else if request_timeout_ms == 0 || shutdown_timeout_ms == 0 {
        Some(
            invalid(
                "provider "@ + quoted(id)
                    + " request/shutdown timeouts must be greater than zero"@,
            ),
        )
    } else if max_stdout_line_bytes == 0 || stderr_history_lines == 0 {
        Some(
            invalid(
                "provider "@ + quoted(id) + " stdout/stderr limits must be greater than zero"@,
            ),
        )
    } else {
        None
    }
}

/// The view of a check.
pub open spec fn config_fault(r: Result<(), HarnessConfigError>) -> Option<ConfigErrorView> {
    match r {
        Ok(_) => None,
        Err(e) => Some(e@),
    }
}

/// Checks the limits of a provider.
pub fn validate_provider_config(
    id: &str,
    program: &str,
    request_timeout_ms: u64,
    shutdown_timeout_ms: u64,
    max_stdout_line_bytes: usize,
    stderr_history_lines: usize,
) -> (r: Result<(), HarnessConfigError>)
    ensures
        config_fault(r) == limits_fault(
            id@,
            program@,
            request_timeout_ms,
            shutdown_timeout_ms,
            max_stdout_line_bytes,
            stderr_history_lines,
        ),
{
    if blank(id) {
        return Err(HarnessConfigError::Invalid("provider id must not be empty".to_owned()));
    }
    if blank(program) {
        return Err(
            HarnessConfigError::Invalid(
                concat3("provider ", quoted_text(id).as_str(), " program must not be empty"),
            ),
        );
    }
    if request_timeout_ms == 0 || shutdown_timeout_ms == 0 {
        return Err(
            HarnessConfigError::Invalid(
                concat3(
                    "provider ",
                    quoted_text(id).as_str(),
                    " request/shutdown timeouts must be greater than zero",
                ),
            ),
        );
    }
    if max_stdout_line_bytes == 0 || stderr_history_lines == 0 {
        return Err(
            HarnessConfigError::Invalid(
                concat3(
                    "provider ",
                    quoted_text(id).as_str(),
                    " stdout/stderr limits must be greater than zero",
                ),
            ),
        );
    }
    Ok(())
}

/// Whether one of the first `n` providers has the identifier `id`.
pub open spec fn has_provider(providers: Seq<ProviderConfig>, n: int, id: Seq<char>) -> bool {
    exists|i: int| 0 <= i < n && (#[trigger] providers[i]).id@ == id
}

pub open spec fn has_blank_key(env: Seq<(String, String)>) -> bool {
    exists|i: int| 0 <= i < env.len() && is_blank((#[trigger] env[i]).0@)
}

/// What is wrong with the provider at `i`.
pub open spec fn provider_fault(providers: Seq<ProviderConfig>, i: int) -> Option<ConfigErrorView> {
    let p = providers[i];
    let limits = limits_fault(
        p.id@,
        p.program.text@,
        p.request_timeout_ms,
        p.shutdown_timeout_ms,
        p.max_stdout_line_bytes,
        p.stderr_history_lines,
    );
    if limits is Some {
        limits
    } else if has_provider(providers, i, p.id@) {
        Some(ConfigErrorView::DuplicateProvider(p.id@))
    } else if has_blank_key(p.env@) {
        Some(invalid("provider "@ + quoted(p.id@) + " contains an empty env key"@))
    } else {
        None
    }
}

/// The fault of the first faulty provider from `from` on.
pub open spec fn providers_fault(providers: Seq<ProviderConfig>, from: int) -> Option<
    ConfigErrorView,
>
    decreases providers.len() - from,
{
    if from >= providers.len() {
        None
    } else if provider_fault(providers, from) is Some {
        provider_fault(providers, from)
    } else {
        providers_fault(providers, from + 1)
    }
}

/// What a provider compiles to.
pub open spec fn provider_spec(base: Seq<char>, p: ProviderConfig) -> ProviderSpecView {
    ProviderSpecView {
        id: p.id@,
        program: located_program(base, p.program),
        args: texts(p.args@),
        cwd: match p.cwd {
            Some(path) => located(base, path),
            None => PathView::AsGiven(base),
        },
        env: pairs(p.env@),
        request_timeout_ms: p.request_timeout_ms,
        shutdown_timeout_ms: p.shutdown_timeout_ms,
        max_stdout_line_bytes: p.max_stdout_line_bytes,
        stderr_history_lines: p.stderr_history_lines,
    }
}

/// The JSON notation of a schema: a text is taken to be JSON itself, anything
/// else is written as JSON.
pub open spec fn schema_root(
    profile: Seq<char>,
    tool: Seq<char>,
    field: Seq<char>,
    v: TomlValue,
    reading: Result<JsonRootView, Seq<char>>,
) -> Result<Seq<char>, ConfigErrorView> {
    match v {
        TomlValue::String(text) => match reading {
            Ok(_) => Ok(text@),
            Err(message) => Err(ConfigErrorView::SchemaJson { profile, tool, field, message }),
        },
        _ => match schema_notation(v) {
            Ok(text) => Ok(text),
            Err(SchemaFault::Datetime) => Err(
                ConfigErrorView::SchemaDatetime { profile, tool, field },
            ),
            Err(SchemaFault::NonFiniteFloat) => Err(
                ConfigErrorView::SchemaNonFiniteFloat { profile, tool, field },
            ),
        },
    }
}

/// The text of a schema that is a text; empty otherwise.
pub open spec fn schema_source(v: TomlValue) -> Seq<char> {
    match v {
        TomlValue::String(text) => text@,
        _ => Seq::empty(),
    }
}

/// The schema of a tool.
pub open spec fn tool_schema(
    profile: Seq<char>,
    tool: Seq<char>,
    field: Seq<char>,
    v: TomlValue,
) -> Result<Seq<char>, ConfigErrorView> {
    schema_root(profile, tool, field, v, json_reading(schema_source(v)))
}

/// Takes a schema as JSON, where `reading` is what reading it gave if it is a text.
pub fn schema_root_to_json(
    profile: &str,
    tool: &str,
    field: &str,
    value: &TomlValue,
    reading: Result<JsonRoot, String>,
) -> (r: Result<JsonText, HarnessConfigError>)
    ensures
        match r {
            Ok(json) => schema_root(profile@, tool@, field@, *value, reading_view(reading))
                == Ok::<Seq<char>, ConfigErrorView>(json@),
            Err(e) => schema_root(profile@, tool@, field@, *value, reading_view(reading)) == Err::<
                Seq<char>,
                ConfigErrorView,
            >(e@),
        },
{
    if let TomlValue::String(text) = value {
        return match JsonText::from_reading(text.clone(), reading) {
            Ok(json) => Ok(json),
            Err(message) => Err(
                HarnessConfigError::SchemaJson {
                    profile: profile.to_owned(),
                    tool: tool.to_owned(),
                    field: field.to_owned(),
                    message,
                },
            ),
        };
    }
    match schema_to_json(value) {
        Ok(text) => Ok(JsonText::of_notation(text)),
        Err(SchemaFault::Datetime) => Err(
            HarnessConfigError::SchemaDatetime {
                profile: profile.to_owned(),
                tool: tool.to_owned(),
                field: field.to_owned(),
            },
        ),
        Err(SchemaFault::NonFiniteFloat) => Err(
            HarnessConfigError::SchemaNonFiniteFloat {
                profile: profile.to_owned(),
                tool: tool.to_owned(),
                field: field.to_owned(),
            },
        ),
    }
}

fn read_schema(profile: &str, tool: &str, field: &str, value: &TomlValue) -> (r: Result<
    JsonText,
    HarnessConfigError,
>)
    ensures
        match r {
            Ok(json) => tool_schema(profile@, tool@, field@, *value) == Ok::<
                Seq<char>,
                ConfigErrorView,
            >(json@),
            Err(e) => tool_schema(profile@, tool@, field@, *value) == Err::<
                Seq<char>,
                ConfigErrorView,
            >(e@),
        },
{
    let source = match value {
        TomlValue::String(text) => text.clone(),
        _ => String::new(),
    };
    let reading = read_json(source.as_str());
    assert(source@ =~= schema_source(*value));
    schema_root_to_json(profile, tool, field, value, reading)
}

/// Whether one of the first `n` tools has the name `name`.
pub open spec fn tool_named_before(tools: Seq<ToolConfig>, n: int, name: Seq<char>) -> bool {
    exists|i: int| 0 <= i < n && (#[trigger] tools[i]).name@ == name
}

/// The refusal of a tool by the check of tool definitions.
#[derive(Debug, PartialEq, Eq)]
pub struct ToolRefusal {
    pub profile: String,
    pub tool: String,
    /// What the check says of the definition that the tool compiles to.
    pub message: String,
}

/// What the check of tool definitions says of a tool that it refuses.
pub open spec fn refusal_of(
    refusals: Seq<ToolRefusal>,
    profile: Seq<char>,
    tool: Seq<char>,
) -> Option<Seq<char>>
    decreases refusals.len(),
{
    if refusals.len() == 0 {
        None
    } else if refusals[0].profile@ == profile && refusals[0].tool@ == tool {
        Some(refusals[0].message@)
    } else {
        refusal_of(refusals.skip(1), profile, tool)
    }
}

fn find_refusal<'a>(refusals: &'a Vec<ToolRefusal>, profile: &str, tool: &str) -> (r: Option<
    &'a String,
>)
    ensures
        match r {
            Some(message) => refusal_of(refusals@, profile@, tool@) == Some(message@),
            None => refusal_of(refusals@, profile@, tool@) is None,
        },
{
    let mut i: usize = 0;
    assert(refusals@.skip(0) =~= refusals@);
    while i < refusals.len()
        invariant
            i <= refusals@.len(),
            refusal_of(refusals@, profile@, tool@) == refusal_of(
                refusals@.skip(i as int),
                profile@,
                tool@,
            ),
        decreases refusals@.len() - i,
    {
        let refusal = &refusals[i];
        assert(refusals@.skip(i as int)[0] == refusals@[i as int]);
        if same_text(refusal.profile.as_str(), profile) && same_text(refusal.tool.as_str(), tool) {
            return Some(&refusal.message);
        }
        assert(refusals@.skip(i as int).skip(1) =~= refusals@.skip(i + 1));
        i = i + 1;
    }
    None
}

/// What is wrong with the tool at `i` of a profile.
pub open spec fn tool_fault(
    profile: Seq<char>,
    tools: Seq<ToolConfig>,
    i: int,
    providers: Seq<ProviderConfig>,
    refusals: Seq<ToolRefusal>,
) -> Option<ConfigErrorView> {
    let t = tools[i];
    if tool_named_before(tools, i, t.name@) {
        Some(
            invalid(
                "profile "@ + quoted(profile) + " configures tool "@ + quoted(t.name@)
                    + " more than once"@,
            ),
        )
    } else if !has_provider(providers, providers.len() as int, t.provider@) {
        Some(
            ConfigErrorView::UnknownToolProviderReference {
                profile,
                tool: t.name@,
                provider: t.provider@,
            },
        )
    } else if let Err(e) = tool_schema(profile, t.name@, "input_schema"@, t.input_schema) {
        Some(e)
    } else if t.output_schema is Some && tool_schema(
        profile,
        t.name@,
        "output_schema"@,
        t.output_schema->0,
    ) is Err {
        Some(tool_schema(profile, t.name@, "output_schema"@, t.output_schema->0)->Err_0)
    } else {
        match refusal_of(refusals, profile, t.name@) {
            Some(message) => Some(
                invalid(
                    "profile "@ + quoted(profile) + " tool "@ + quoted(t.name@) + " is invalid: "@
                        + message,
                ),
            ),
            None => None,
        }
    }
}

/// The fault of the first faulty tool from `from` on.
pub open spec fn tools_fault(
    profile: Seq<char>,
    tools: Seq<ToolConfig>,
    from: int,
    providers: Seq<ProviderConfig>,
    refusals: Seq<ToolRefusal>,
) -> Option<ConfigErrorView>
    decreases tools.len() - from,
{
    if from >= tools.len() {
        None
    } else if tool_fault(profile, tools, from, providers, refusals) is Some {
        tool_fault(profile, tools, from, providers, refusals)
    } else {
        tools_fault(profile, tools, from + 1, providers, refusals)
    }
}

/// What a tool compiles to.
pub open spec fn tool_binding(profile: Seq<char>, t: ToolConfig) -> ToolBindingView {
    ToolBindingView {
        name: t.name@,
        version: t.version@,
        description: t.description@,
        input_schema: tool_schema(profile, t.name@, "input_schema"@, t.input_schema)->Ok_0,
        output_schema: match t.output_schema {
            Some(output) => Some(
                tool_schema(profile, t.name@, "output_schema"@, output)->Ok_0,
            ),
            None => None,
        },
        parallel_safe: t.parallel_safe,
        side_effect: t.side_effect,
        timeout_ms: t.timeout_ms,
        provider: t.provider@,
    }
}

/// What is wrong with a profile.
pub open spec fn profile_fault(
    name: Seq<char>,
    p: ProfileConfig,
    providers: Seq<ProviderConfig>,
    refusals: Seq<ToolRefusal>,
) -> Option<ConfigErrorView> {
    if is_blank(name) {
        Some(invalid("profile names must not be empty"@))
    } else if is_blank(p.model.model@) {
        Some(invalid("profile "@ + quoted(name) + " model.model must not be empty"@))
    } else if p.model.timeout_ms == 0 {
        Some(invalid("profile "@ + quoted(name) + " model.timeout_ms must be greater than zero"@))
    } else if p.model.max_output_tokens == Some(0u32) {
        Some(
            invalid(
                "profile "@ + quoted(name) + " model.max_output_tokens must be greater than zero"@,
            ),
        )
    } else if p.max_automatic_tool_attempts == 0 {
        Some(
            invalid(
                "profile "@ + quoted(name)
                    + " max_automatic_tool_attempts must be greater than zero"@,
            ),
        )
    } else if !has_provider(providers, providers.len() as int, p.model.provider@) {
        Some(
            ConfigErrorView::UnknownProviderReference {
                profile: name,
                provider: p.model.provider@,
            },
        )
    } else {
        tools_fault(name, p.tools@, 0, providers, refusals)
    }
}

/// The fault of the first faulty profile from `from` on.
pub open spec fn profiles_fault(
    profiles: Seq<(String, ProfileConfig)>,
    from: int,
    providers: Seq<ProviderConfig>,
    refusals: Seq<ToolRefusal>,
) -> Option<ConfigErrorView>
    decreases profiles.len() - from,
{
    if from >= profiles.len() {
        None
    } else if profile_fault(profiles[from].0@, profiles[from].1, providers, refusals) is Some {
        profile_fault(profiles[from].0@, profiles[from].1, providers, refusals)
    } else {
        profiles_fault(profiles, from + 1, providers, refusals)
    }
}

/// What a profile compiles to.
pub open spec fn profile_plan(name: Seq<char>, p: ProfileConfig) -> AgentProfileView {
    AgentProfileView {
        model: ModelBindingView {
            provider: p.model.provider@,
            model: p.model.model@,
            options: ModelOptions { max_output_tokens: p.model.max_output_tokens },
            timeout_ms: p.model.timeout_ms,
            system: opt_text(p.model.system),
        },
        policy: p.policy,
        max_automatic_tool_attempts: p.max_automatic_tool_attempts,
        tools: p.tools@.map_values(|t: ToolConfig| tool_binding(name, t)),
    }
}

pub open spec fn has_profile(profiles: Seq<(String, ProfileConfig)>, name: Seq<char>) -> bool {
    exists|i: int| 0 <= i < profiles.len() && (#[trigger] profiles[i]).0@ == name
}

/// What a configuration compiles to, or the first thing that is wrong with it.
pub open spec fn compiled(
    config: HarnessConfig,
    base: Seq<char>,
    refusals: Seq<ToolRefusal>,
) -> Result<PlanView, ConfigErrorView> {
    let providers = config.providers@;
    let default_profile = opt_text(config.runtime.default_profile);
    if config.schema_version != HARNESS_CONFIG_SCHEMA_VERSION {
        Err(
            invalid(
                "unsupported config schema_version "@ + decimal(config.schema_version as nat)
                    + "; expected "@ + decimal(HARNESS_CONFIG_SCHEMA_VERSION as nat),
            ),
        )
    } else if is_blank(config.runtime.name@) {
        Err(invalid("runtime.name must not be empty"@))
    } else if config.runtime.data_dir.text@.len() == 0 {
        Err(invalid("runtime.data_dir must not be empty"@))
    } else if let Some(e) = providers_fault(providers, 0) {
        Err(e)
    } else if let Some(e) = profiles_fault(config.profiles@, 0, providers, refusals) {
        Err(e)
    } else if default_profile is Some && !has_profile(config.profiles@, default_profile->0) {
        Err(
            invalid(
                "runtime.default_profile "@ + quoted(default_profile->0)
                    + " is not defined in profiles"@,
            ),
        )
    } else {
        Ok(
            PlanView {
                runtime_name: config.runtime.name@,
                data_dir: located(base, config.runtime.data_dir),
                providers: providers.map_values(|p: ProviderConfig| provider_spec(base, p)),
                profiles: config.profiles@.map_values(
                    |p: (String, ProfileConfig)| (p.0@, profile_plan(p.0@, p.1)),
                ),
                default_profile,
            },
        )
    }
}

fn find_provider(providers: &Vec<ProviderConfig>, n: usize, id: &String) -> (r: bool)
    requires
        n <= providers@.len(),
    ensures
        r == has_provider(providers@, n as int, id@),
{
    let mut i: usize = 0;
    while i < n
        invariant
            i <= n <= providers@.len(),
            forall|j: int| 0 <= j < i ==> (#[trigger] providers@[j]).id@ != id@,
        decreases n - i,
    {
        if providers[i].id == *id {
            return true;
        }
        i = i + 1;
    }
    false
}

fn finds_blank_key(env: &Vec<(String, String)>) -> (r: bool)
    ensures
        r == has_blank_key(env@),
{
    let mut i: usize = 0;
    while i < env.len()
        invariant
            i <= env@.len(),
            forall|j: int| 0 <= j < i ==> !is_blank((#[trigger] env@[j]).0@),
        decreases env@.len() - i,
    {
        if blank(env[i].0.as_str()) {
            assert(is_blank(env@[i as int].0@));
            return true;
        }
        i = i + 1;
    }
    false
}

fn compile_provider(providers: &Vec<ProviderConfig>, i: usize, base_dir: &str) -> (r: Result<
    ProviderProcessSpec,
    HarnessConfigError,
>)
    requires
        i < providers@.len(),
    ensures
        match r {
            Ok(spec) => provider_fault(providers@, i as int) is None && spec@ == provider_spec(
                base_dir@,
                providers@[i as int],
            ),
            Err(e) => provider_fault(providers@, i as int) == Some(e@),
        },
{
    let provider = &providers[i];
    let limits = validate_provider_config(
        provider.id.as_str(),
        provider.program.text.as_str(),
        provider.request_timeout_ms,
        provider.shutdown_timeout_ms,
        provider.max_stdout_line_bytes,
        provider.stderr_history_lines,
    );
    if let Err(error) = limits {
        return Err(error);
    }
    if find_provider(providers, i, &provider.id) {
        return Err(HarnessConfigError::DuplicateProvider(provider.id.clone()));
    }
    if finds_blank_key(&provider.env) {
        return Err(
            HarnessConfigError::Invalid(
                concat3(
                    "provider ",
                    quoted_text(provider.id.as_str()).as_str(),
                    " contains an empty env key",
                ),
            ),
        );
    }
    let id = provider_id(&provider.id);
    let cwd = match &provider.cwd {
        Some(path) => resolve_path(base_dir, path),
        None => ResolvedPath::AsGiven(base_dir.to_owned()),
    };
    Ok(
        ProviderProcessSpec {
            id,
            program: resolve_program(base_dir, &provider.program),
            args: clone_texts(&provider.args),
            cwd,
            env: clone_pairs(&provider.env),
            request_timeout_ms: provider.request_timeout_ms,
            shutdown_timeout_ms: provider.shutdown_timeout_ms,
            max_stdout_line_bytes: provider.max_stdout_line_bytes,
            stderr_history_lines: provider.stderr_history_lines,
        },
    )
}

fn provider_id(id: &String) -> (r: ProviderId)
    requires
        !is_blank(id@),
    ensures
        r@ == id@,
{
    Identifier::new(id.as_str()).unwrap()
}

fn compile_tool(
    profile: &str,
    tools: &Vec<ToolConfig>,
    i: usize,
    providers: &Vec<ProviderConfig>,
    refusals: &Vec<ToolRefusal>,
) -> (r: Result<RuntimeToolBinding, HarnessConfigError>)
    requires
        i < tools@.len(),
        providers_fault(providers@, 0) is None,
    ensures
        match r {
            Ok(binding) => tool_fault(profile@, tools@, i as int, providers@, refusals@) is None
                && binding@ == tool_binding(profile@, tools@[i as int]),
            Err(e) => tool_fault(profile@, tools@, i as int, providers@, refusals@) == Some(e@),
        },
{
    let tool = &tools[i];
    let mut j: usize = 0;
    while j < i
        invariant
            j <= i < tools@.len(),
            tool == tools@[i as int],
            forall|k: int| 0 <= k < j ==> (#[trigger] tools@[k]).name@ != tool.name@,
        decreases i - j,
    {
        if tools[j].name == tool.name {
            assert(tool_named_before(tools@, i as int, tool.name@));
            return Err(
                HarnessConfigError::Invalid(
                    concat5(
                        "profile ",
                        quoted_text(profile).as_str(),
                        " configures tool ",
                        quoted_text(tool.name.as_str()).as_str(),
                        " more than once",
                    ),
                ),
            );
        }
        j = j + 1;
    }
    if !find_provider(providers, providers.len(), &tool.provider) {
        return Err(
            HarnessConfigError::UnknownToolProviderReference {
                profile: profile.to_owned(),
                tool: tool.name.clone(),
                provider: tool.provider.clone(),
            },
        );
    }
    let definition = match compile_tool_definition(profile, tool) {
        Ok(definition) => definition,
        Err(error) => {
            return Err(error);
        },
    };
    if let Some(message) = find_refusal(refusals, profile, tool.name.as_str()) {
        let mut text = concat5(
            "profile ",
            quoted_text(profile).as_str(),
            " tool ",
            quoted_text(tool.name.as_str()).as_str(),
            " is invalid: ",
        );
        text.append(message.as_str());
        return Err(HarnessConfigError::Invalid(text));
    }
    proof {
        lemma_known_providers(providers@, tool.provider@);
    }
    Ok(RuntimeToolBinding { definition, provider: provider_id(&tool.provider) })
}

/// Compiles the definition of a tool.
pub fn compile_tool_definition(profile: &str, tool: &ToolConfig) -> (r: Result<
    ToolDefinition,
    HarnessConfigError,
>)
    ensures
        ({
            let input = tool_schema(profile@, tool.name@, "input_schema"@, tool.input_schema);
            let output = match tool.output_schema {
                Some(o) => tool_schema(profile@, tool.name@, "output_schema"@, o),
                None => Ok(Seq::empty()),
            };
            match r {
                Ok(d) => {
                    &&& input == Ok::<Seq<char>, ConfigErrorView>(d.input_schema@)
                    &&& output is Ok
                    &&& tool.output_schema is Some <==> d.output_schema is Some
                    &&& d.output_schema is Some ==> output == Ok::<Seq<char>, ConfigErrorView>(
                        d.output_schema->0@,
                    )
                    &&& d.name@ == tool.name@
                    &&& d.version@ == tool.version@
                    &&& d.description@ == tool.description@
                    &&& d.parallel_safe == tool.parallel_safe
                    &&& d.side_effect == tool.side_effect
                    &&& d.default_timeout_ms == tool.timeout_ms
                },
                Err(e) => input == Err::<Seq<char>, ConfigErrorView>(e@) || (input is Ok && output
                    == Err::<Seq<char>, ConfigErrorView>(e@)),
            }
        }),
{
    let input_schema = match read_schema(
        profile,
        tool.name.as_str(),
        "input_schema",
        &tool.input_schema,
    ) {
        Ok(schema) => schema,
        Err(error) => {
            return Err(error);
        },
    };
    let output_schema = match &tool.output_schema {
        None => None,
        Some(output) => match read_schema(profile, tool.name.as_str(), "output_schema", output) {
            Ok(schema) => Some(schema),
            Err(error) => {
                return Err(error);
            },
        },
    };
    Ok(
        ToolDefinition {
            name: tool.name.clone(),
            version: tool.version.clone(),
            description: tool.description.clone(),
            input_schema,
            output_schema,
            parallel_safe: tool.parallel_safe,
            side_effect: tool.side_effect,
            default_timeout_ms: tool.timeout_ms,
        },
    )
}

proof fn lemma_known_providers(providers: Seq<ProviderConfig>, id: Seq<char>)
    requires
        providers_fault(providers, 0) is None,
        has_provider(providers, providers.len() as int, id),
    ensures
        !is_blank(id),
{
    let i = choose|i: int| 0 <= i < providers.len() && (#[trigger] providers[i]).id@ == id;
    lemma_sound_provider(providers, 0, i);
}

proof fn lemma_sound_provider(providers: Seq<ProviderConfig>, from: int, i: int)
    requires
        providers_fault(providers, from) is None,
        0 <= from <= i < providers.len(),
    ensures
        provider_fault(providers, i) is None,
    decreases i - from,
{
    if from < i {
        lemma_sound_provider(providers, from + 1, i);
    }
}

fn check_profile(
    name: &str,
    profile: &ProfileConfig,
    providers: &Vec<ProviderConfig>,
    Ghost(refusals): Ghost<Seq<ToolRefusal>>,
) -> (r: Result<(), HarnessConfigError>)
    ensures
        match r {
            Ok(_) => profile_fault(name@, *profile, providers@, refusals) == tools_fault(
                name@,
                profile.tools@,
                0,
                providers@,
                refusals,
            ) && has_provider(providers@, providers@.len() as int, profile.model.provider@),
            Err(e) => profile_fault(name@, *profile, providers@, refusals) == Some(e@),
        },
{
    if blank(name) {
        return Err(HarnessConfigError::Invalid("profile names must not be empty".to_owned()));
    }
    let label = quoted_text(name);
    let zero_tokens = match profile.model.max_output_tokens {
        Some(limit) => limit == 0,
        None => false,
    };
    let complaint = if blank(profile.model.model.as_str()) {
        " model.model must not be empty"
    } else if profile.model.timeout_ms == 0 {
        " model.timeout_ms must be greater than zero"
    } else if zero_tokens {
        " model.max_output_tokens must be greater than zero"
    } else if profile.max_automatic_tool_attempts == 0 {
        " max_automatic_tool_attempts must be greater than zero"
    } else if !find_provider(providers, providers.len(), &profile.model.provider) {
        return Err(
            HarnessConfigError::UnknownProviderReference {
                profile: name.to_owned(),
                provider: profile.model.provider.clone(),
            },
        );
    } else {
        return Ok(());
    };
    Err(HarnessConfigError::Invalid(concat3("profile ", label.as_str(), complaint)))
}

fn compile_profile(
    name: &str,
    profile: &ProfileConfig,
    providers: &Vec<ProviderConfig>,
    refusals: &Vec<ToolRefusal>,
) -> (r: Result<AgentProfile, HarnessConfigError>)
    requires
        providers_fault(providers@, 0) is None,
    ensures
        match r {
            Ok(p) => profile_fault(name@, *profile, providers@, refusals@) is None && p@
                == profile_plan(name@, *profile),
            Err(e) => profile_fault(name@, *profile, providers@, refusals@) == Some(e@),
        },
{
    if let Err(error) = check_profile(name, profile, providers, Ghost(refusals@)) {
        return Err(error);
    }
    proof {
        lemma_known_providers(providers@, profile.model.provider@);
    }
    let model = ModelBinding {
        provider: provider_id(&profile.model.provider),
        model: profile.model.model.clone(),
        options: ModelOptions { max_output_tokens: profile.model.max_output_tokens },
        timeout_ms: profile.model.timeout_ms,
        system: profile.model.system.clone(),
    };
    let mut tools: Vec<RuntimeToolBinding> = Vec::new();
    let mut i: usize = 0;
    while i < profile.tools.len()
        invariant
            i <= profile.tools@.len(),
            providers_fault(providers@, 0) is None,
            profile_fault(name@, *profile, providers@, refusals@) == tools_fault(
                name@,
                profile.tools@,
                i as int,
                providers@,
                refusals@,
            ),
            bindings(tools@) == profile.tools@.take(i as int).map_values(
                |t: ToolConfig| tool_binding(name@, t),
            ),
        decreases profile.tools@.len() - i,
    {
        let ghost before = tools@;
        match compile_tool(name, &profile.tools, i, providers, refusals) {
            Ok(binding) => {
                tools.push(binding);
                proof {
                    assert(bindings(tools@) =~= bindings(before).push(binding@));
                    assert(profile.tools@.take(i + 1).map_values(
                        |t: ToolConfig| tool_binding(name@, t),
                    ) =~= profile.tools@.take(i as int).map_values(
                        |t: ToolConfig| tool_binding(name@, t),
                    ).push(binding@));
                }
            },
            Err(error) => {
                return Err(error);
            },
        }
        i = i + 1;
    }
    assert(profile.tools@.take(i as int) =~= profile.tools@);
    Ok(
        AgentProfile {
            model,
            policy: profile.policy,
            max_automatic_tool_attempts: profile.max_automatic_tool_attempts,
            tools,
        },
    )
}

fn compile_providers(providers: &Vec<ProviderConfig>, base_dir: &str) -> (r: Result<
    Vec<ProviderProcessSpec>,
    HarnessConfigError,
>)
    ensures
        match r {
            Ok(specs) => providers_fault(providers@, 0) is None && specs@.map_values(
                |p: ProviderProcessSpec| p@,
            ) == providers@.map_values(|p: ProviderConfig| provider_spec(base_dir@, p)),
            Err(e) => providers_fault(providers@, 0) == Some(e@),
        },
{
    let mut specs: Vec<ProviderProcessSpec> = Vec::new();
    let mut i: usize = 0;
    while i < providers.len()
        invariant
            i <= providers@.len(),
            providers_fault(providers@, 0) == providers_fault(providers@, i as int),
            specs@.len() == i,
            forall|j: int|
                0 <= j < i ==> (#[trigger] specs@[j])@ == provider_spec(base_dir@, providers@[j]),
        decreases providers@.len() - i,
    {
        match compile_provider(providers, i, base_dir) {
            Ok(spec) => {
                specs.push(spec);
            },
            Err(error) => {
                return Err(error);
            },
        }
        i = i + 1;
    }
    assert(specs@.map_values(|p: ProviderProcessSpec| p@) =~= providers@.map_values(
        |p: ProviderConfig| provider_spec(base_dir@, p),
    ));
    Ok(specs)
}

fn compile_profiles(
    profiles: &Vec<(String, ProfileConfig)>,
    providers: &Vec<ProviderConfig>,
    refusals: &Vec<ToolRefusal>,
) -> (r: Result<Vec<(String, AgentProfile)>, HarnessConfigError>)
    requires
        providers_fault(providers@, 0) is None,
    ensures
        match r {
            Ok(plans) => profiles_fault(profiles@, 0, providers@, refusals@) is None
                && plans@.map_values(|p: (String, AgentProfile)| (p.0@, p.1@)) == profiles@.map_values(
                |p: (String, ProfileConfig)| (p.0@, profile_plan(p.0@, p.1)),
            ),
            Err(e) => profiles_fault(profiles@, 0, providers@, refusals@) == Some(e@),
        },
{
    let mut plans: Vec<(String, AgentProfile)> = Vec::new();
    let mut i: usize = 0;
    while i < profiles.len()
        invariant
            i <= profiles@.len(),
            providers_fault(providers@, 0) is None,
            profiles_fault(profiles@, 0, providers@, refusals@) == profiles_fault(
                profiles@,
                i as int,
                providers@,
                refusals@,
            ),
            plans@.len() == i,
            forall|j: int|
                0 <= j < i ==> (#[trigger] plans@[j]).0@ == profiles@[j].0@ && plans@[j].1@
                    == profile_plan(profiles@[j].0@, profiles@[j].1),
        decreases profiles@.len() - i,
    {
        match compile_profile(profiles[i].0.as_str(), &profiles[i].1, providers, refusals) {
            Ok(plan) => {
                plans.push((profiles[i].0.clone(), plan));
            },
            Err(error) => {
                return Err(error);
            },
        }
        i = i + 1;
    }
    assert(plans@.map_values(|p: (String, AgentProfile)| (p.0@, p.1@)) =~= profiles@.map_values(
        |p: (String, ProfileConfig)| (p.0@, profile_plan(p.0@, p.1)),
    ));
    Ok(plans)
}

fn find_profile(profiles: &Vec<(String, ProfileConfig)>, name: &String) -> (r: bool)
    ensures
        r == has_profile(profiles@, name@),
{
    let mut i: usize = 0;
    while i < profiles.len()
        invariant
            i <= profiles@.len(),
            forall|j: int| 0 <= j < i ==> (#[trigger] profiles@[j]).0@ != name@,
        decreases profiles@.len() - i,
    {
        if profiles[i].0 == *name {
            return true;
        }
        i = i + 1;
    }
    false
}

/// Compiles a configuration whose relative paths are below `base_dir`. Nothing
/// is started. `refusals` are the tools that the check of tool definitions refuses;
/// [`compile_tool_definition`] gives the definitions that it looks at.
pub fn compile_config(
    config: &HarnessConfig,
    base_dir: &str,
    refusals: &Vec<ToolRefusal>,
) -> (r: Result<RuntimePlan, HarnessConfigError>)
    ensures
        match r {
            Ok(plan) => compiled(*config, base_dir@, refusals@) == Ok::<PlanView, ConfigErrorView>(
                plan@,
            ),
            Err(e) => compiled(*config, base_dir@, refusals@) == Err::<PlanView, ConfigErrorView>(
                e@,
            ),
        },
{
    if config.schema_version != HARNESS_CONFIG_SCHEMA_VERSION {
        return Err(
            HarnessConfigError::Invalid(
                concat4(
                    "unsupported config schema_version ",
                    decimal_text(config.schema_version as u64).as_str(),
                    "; expected ",
                    decimal_text(HARNESS_CONFIG_SCHEMA_VERSION as u64).as_str(),
                ),
            ),
        );
    }
    if blank(config.runtime.name.as_str()) {
        return Err(HarnessConfigError::Invalid("runtime.name must not be empty".to_owned()));
    }
    if config.runtime.data_dir.text.as_str().is_empty() {
        return Err(HarnessConfigError::Invalid("runtime.data_dir must not be empty".to_owned()));
    }
    let providers = match compile_providers(&config.providers, base_dir) {
        Ok(providers) => providers,
        Err(error) => {
            return Err(error);
        },
    };
    let profiles = match compile_profiles(&config.profiles, &config.providers, refusals) {
        Ok(profiles) => profiles,
        Err(error) => {
            return Err(error);
        },
    };
    if let Some(default_profile) = &config.runtime.default_profile {
        if !find_profile(&config.profiles, default_profile) {
            return Err(
                HarnessConfigError::Invalid(
                    concat3(
                        "runtime.default_profile ",
                        quoted_text(default_profile.as_str()).as_str(),
                        " is not defined in profiles",
                    ),
                ),
            );
        }
    }
    Ok(
        RuntimePlan {
            runtime_name: config.runtime.name.clone(),
            data_dir: resolve_path(base_dir, &config.runtime.data_dir),
            providers,
            profiles,
            default_profile: config.runtime.default_profile.clone(),
        },
    )
}

/// What is wrong with the arguments of a configured tool: they must be a JSON
/// object.
pub open spec fn arguments_fault(reading: Result<JsonRootView, Seq<char>>) -> Option<Seq<char>> {
    match reading {
        Err(message) => Some(message),
        Ok(JsonRootView::Object(_)) => None,
        Ok(_) => Some("configured CLI tools require a JSON object argument"@),
    }
}

/// Checks arguments, where `reading` is what reading them as JSON gave.
pub fn check_object_arguments(reading: Result<JsonRoot, String>) -> (r: Result<(), String>)
    ensures
        match r {
            Ok(_) => arguments_fault(reading_view(reading)) is None,
            Err(message) => arguments_fault(reading_view(reading)) == Some(message@),
        },
{
    match reading {
        Err(message) => Err(message),
        Ok(JsonRoot::Object(_)) => Ok(()),
        Ok(_) => Err("configured CLI tools require a JSON object argument".to_owned()),
    }
}

/// Checks the arguments of a configured tool.
pub fn validate_object_arguments(arguments_json: &JsonText) -> (r: Result<(), String>)
    ensures
        match r {
            Ok(_) => arguments_fault(json_reading(arguments_json@)) is None,
            Err(message) => arguments_fault(json_reading(arguments_json@)) == Some(message@),
        },
{
    check_object_arguments(read_json(arguments_json.as_str()))
}

/// What compiles from tables in order has its profiles in order: the names of a
/// plan's profiles ascend.
pub proof fn law_profile_names_ascend(
    config: HarnessConfig,
    base: Seq<char>,
    refusals: Seq<ToolRefusal>,
    plan: PlanView,
)
    requires
        config.in_order(),
        compiled(config, base, refusals) == Ok::<PlanView, ConfigErrorView>(plan),
    ensures
        ascending(plan.profiles.map_values(|p: (Seq<char>, AgentProfileView)| p.0)),
{
    assert(plan.profiles.map_values(|p: (Seq<char>, AgentProfileView)| p.0) =~= names_of(
        config.profiles@,
    ));
}

/// In what compiles, every profile's model and tools refer to a configured
/// provider, and no provider is configured twice.
pub proof fn law_compiled_references_resolve(
    config: HarnessConfig,
    base: Seq<char>,
    refusals: Seq<ToolRefusal>,
    i: int,
)
    requires
        compiled(config, base, refusals) is Ok,
        0 <= i < config.profiles@.len(),
    ensures
        has_provider(
            config.providers@,
            config.providers@.len() as int,
            config.profiles@[i].1.model.provider@,
        ),
        forall|j: int|
            0 <= j < config.profiles@[i].1.tools@.len() ==> has_provider(
                config.providers@,
                config.providers@.len() as int,
                (#[trigger] config.profiles@[i].1.tools@[j]).provider@,
            ),
        forall|a: int, b: int|
            0 <= a < b < config.providers@.len() ==> (#[trigger] config.providers@[a]).id@ != (
            #[trigger] config.providers@[b]).id@,
{
    let providers = config.providers@;
    let profile = config.profiles@[i].1;
    lemma_sound_profile(config.profiles@, 0, i, providers, refusals);
    assert forall|j: int| 0 <= j < profile.tools@.len() implies has_provider(
        providers,
        providers.len() as int,
        (#[trigger] profile.tools@[j]).provider@,
    ) by {
        lemma_sound_tool(config.profiles@[i].0@, profile.tools@, 0, j, providers, refusals);
    }
    assert forall|a: int, b: int| 0 <= a < b < providers.len() implies (
    #[trigger] providers[a]).id@ != (#[trigger] providers[b]).id@ by {
        lemma_sound_provider(providers, 0, b);
        if providers[a].id@ == providers[b].id@ {
            assert(has_provider(providers, b, providers[b].id@));
        }
    }
}

proof fn lemma_sound_profile(
    profiles: Seq<(String, ProfileConfig)>,
    from: int,
    i: int,
    providers: Seq<ProviderConfig>,
    refusals: Seq<ToolRefusal>,
)
    requires
        profiles_fault(profiles, from, providers, refusals) is None,
        0 <= from <= i < profiles.len(),
    ensures
        profile_fault(profiles[i].0@, profiles[i].1, providers, refusals) is None,
    decreases i - from,
{
    if from < i {
        lemma_sound_profile(profiles, from + 1, i, providers, refusals);
    }
}

proof fn lemma_sound_tool(
    profile: Seq<char>,
    tools: Seq<ToolConfig>,
    from: int,
    i: int,
    providers: Seq<ProviderConfig>,
    refusals: Seq<ToolRefusal>,
)
    requires
        tools_fault(profile, tools, from, providers, refusals) is None,
        0 <= from <= i < tools.len(),
    ensures
        tool_fault(profile, tools, i, providers, refusals) is None,
    decreases i - from,
{
    if from < i {
        lemma_sound_tool(profile, tools, from + 1, i, providers, refusals);
    }
}

/// Whether a provider can be started: it has an identifier and a program, waits, has room
/// for its output, and sets no variable without a name.
pub open spec fn can_be_started(p: ProviderConfig) -> bool {
    &&& !is_blank(p.id@)
    &&& !is_blank(p.program.text@)
    &&& p.request_timeout_ms > 0 && p.shutdown_timeout_ms > 0
    &&& p.max_stdout_line_bytes > 0 && p.stderr_history_lines > 0
    &&& forall|k: int| 0 <= k < p.env@.len() ==> !is_blank((#[trigger] p.env@[k]).0@)
}

proof fn lemma_provider_fault(providers: Seq<ProviderConfig>, i: int)
    requires
        0 <= i < providers.len(),
    ensures
        provider_fault(providers, i) is None <==> can_be_started(providers[i]) && forall|j: int|
            0 <= j < i ==> (#[trigger] providers[j]).id@ != providers[i].id@,
{
}

proof fn lemma_providers_fault(providers: Seq<ProviderConfig>, from: int)
    requires
        0 <= from,
    ensures
        providers_fault(providers, from) is None <==> forall|i: int|
            from <= i < providers.len() ==> #[trigger] provider_fault(providers, i) is None,
    decreases providers.len() - from,
{
    if from < providers.len() {
        lemma_providers_fault(providers, from + 1);
        if forall|i: int|
            from <= i < providers.len() ==> #[trigger] provider_fault(providers, i) is None {
            assert(provider_fault(providers, from) is None);
        }
    }
}

/// Whether a tool of a profile can be used: its provider is configured, its schemas are JSON,
/// and the check of tool definitions has nothing against it.
pub open spec fn can_be_used(
    profile: Seq<char>,
    t: ToolConfig,
    providers: Seq<ProviderConfig>,
    refusals: Seq<ToolRefusal>,
) -> bool {
    &&& exists|i: int| 0 <= i < providers.len() && (#[trigger] providers[i]).id@ == t.provider@
    &&& tool_schema(profile, t.name@, "input_schema"@, t.input_schema) is Ok
    &&& t.output_schema matches Some(o) ==> tool_schema(
        profile,
        t.name@,
        "output_schema"@,
        o,
    ) is Ok
    &&& refusal_of(refusals, profile, t.name@) is None
}

proof fn lemma_tools_fault(
    profile: Seq<char>,
    tools: Seq<ToolConfig>,
    from: int,
    providers: Seq<ProviderConfig>,
    refusals: Seq<ToolRefusal>,
)
    requires
        0 <= from,
    ensures
        tools_fault(profile, tools, from, providers, refusals) is None <==> forall|i: int|
            from <= i < tools.len() ==> can_be_used(
                profile,
                #[trigger] tools[i],
                providers,
                refusals,
            ) && !tool_named_before(tools, i, tools[i].name@),
    decreases tools.len() - from,
{
    if from < tools.len() {
        lemma_tools_fault(profile, tools, from + 1, providers, refusals);
        assert(tool_fault(profile, tools, from, providers, refusals) is None <==> can_be_used(
            profile,
            tools[from],
            providers,
            refusals,
        ) && !tool_named_before(tools, from, tools[from].name@));
        if forall|i: int|
            from <= i < tools.len() ==> can_be_used(
                profile,
                #[trigger] tools[i],
                providers,
                refusals,
            ) && !tool_named_before(tools, i, tools[i].name@) {
            assert(can_be_used(profile, tools[from], providers, refusals));
        }
    }
}

/// Whether agents can run with a profile: it has a name and a model of a configured provider,
/// no limit of it is zero, and its tools can be used, each name once.
pub open spec fn can_be_run(
    name: Seq<char>,
    p: ProfileConfig,
    providers: Seq<ProviderConfig>,
    refusals: Seq<ToolRefusal>,
) -> bool {
    &&& !is_blank(name)
    &&& !is_blank(p.model.model@)
    &&& p.model.timeout_ms > 0
    &&& p.model.max_output_tokens != Some(0u32)
    &&& p.max_automatic_tool_attempts > 0
    &&& exists|i: int| 0 <= i < providers.len() && (#[trigger] providers[i]).id@ == p.model.provider@
    &&& forall|i: int|
        0 <= i < p.tools@.len() ==> can_be_used(name, #[trigger] p.tools@[i], providers, refusals)
    &&& forall|i: int, j: int|
        0 <= i < j < p.tools@.len() ==> (#[trigger] p.tools@[i]).name@ != (
        #[trigger] p.tools@[j]).name@
}

proof fn lemma_profile_fault(
    name: Seq<char>,
    p: ProfileConfig,
    providers: Seq<ProviderConfig>,
    refusals: Seq<ToolRefusal>,
)
    ensures
        profile_fault(name, p, providers, refusals) is None <==> can_be_run(
            name,
            p,
            providers,
            refusals,
        ),
{
    let tools = p.tools@;
    lemma_tools_fault(name, tools, 0, providers, refusals);
    if tools_fault(name, tools, 0, providers, refusals) is None {
        assert forall|i: int, j: int| 0 <= i < j < tools.len() implies (#[trigger] tools[i]).name@
            != (#[trigger] tools[j]).name@ by {
            assert(!tool_named_before(tools, j, tools[j].name@));
        }
    }
    if forall|i: int, j: int|
        0 <= i < j < tools.len() ==> (#[trigger] tools[i]).name@ != (#[trigger] tools[j]).name@ {
        assert forall|i: int| 0 <= i < tools.len() implies !tool_named_before(
            tools,
            i,
            (#[trigger] tools[i]).name@,
        ) by {
            if tool_named_before(tools, i, tools[i].name@) {
                let k = choose|k: int| 0 <= k < i && (#[trigger] tools[k]).name@ == tools[i].name@;
                assert(tools[k].name@ != tools[i].name@);
            }
        }
    }
}

proof fn lemma_profiles_fault(
    profiles: Seq<(String, ProfileConfig)>,
    from: int,
    providers: Seq<ProviderConfig>,
    refusals: Seq<ToolRefusal>,
)
    requires
        0 <= from,
    ensures
        profiles_fault(profiles, from, providers, refusals) is None <==> forall|i: int|
            from <= i < profiles.len() ==> can_be_run(
                (#[trigger] profiles[i]).0@,
                profiles[i].1,
                providers,
                refusals,
            ),
    decreases profiles.len() - from,
{
    if from < profiles.len() {
        lemma_profiles_fault(profiles, from + 1, providers, refusals);
        lemma_profile_fault(profiles[from].0@, profiles[from].1, providers, refusals);
        if forall|i: int|
            from <= i < profiles.len() ==> can_be_run(
                (#[trigger] profiles[i]).0@,
                profiles[i].1,
                providers,
                refusals,
            ) {
            assert(can_be_run(profiles[from].0@, profiles[from].1, providers, refusals));
        }
    }
}

/// A configuration compiles if and only if it is of this version, names its runtime and its
/// data directory, all its providers can be started and none is there twice, agents can run
/// with all its profiles, and the default profile, if it has one, is among them.
pub proof fn law_sound_configurations_compile(
    config: HarnessConfig,
    base: Seq<char>,
    refusals: Seq<ToolRefusal>,
)
    ensures
        compiled(config, base, refusals) is Ok <==> {
            &&& config.schema_version == 1
            &&& !is_blank(config.runtime.name@)
            &&& config.runtime.data_dir.text@.len() > 0
            &&& forall|i: int|
                0 <= i < config.providers@.len() ==> can_be_started(
                    #[trigger] config.providers@[i],
                )
            &&& forall|i: int, j: int|
                0 <= i < j < config.providers@.len() ==> (#[trigger] config.providers@[i]).id@ != (
                #[trigger] config.providers@[j]).id@
            &&& forall|i: int|
                0 <= i < config.profiles@.len() ==> can_be_run(
                    (#[trigger] config.profiles@[i]).0@,
                    config.profiles@[i].1,
                    config.providers@,
                    refusals,
                )
            &&& config.runtime.default_profile matches Some(name) ==> exists|i: int|
                0 <= i < config.profiles@.len() && (#[trigger] config.profiles@[i]).0@ == name@
        },
{
    let providers = config.providers@;
    lemma_providers_fault(providers, 0);
    lemma_profiles_fault(config.profiles@, 0, providers, refusals);
    assert forall|i: int| 0 <= i < providers.len() implies (#[trigger] provider_fault(
        providers,
        i,
    ) is None <==> can_be_started(providers[i]) && forall|j: int|
        0 <= j < i ==> (#[trigger] providers[j]).id@ != providers[i].id@) by {
        lemma_provider_fault(providers, i);
    }
    if providers_fault(providers, 0) is None {
        assert forall|i: int| 0 <= i < providers.len() implies can_be_started(
            #[trigger] providers[i],
        ) by {
            assert(provider_fault(providers, i) is None);
        }
        assert forall|i: int, j: int| 0 <= i < j < providers.len() implies (
        #[trigger] providers[i]).id@ != (#[trigger] providers[j]).id@ by {
            assert(provider_fault(providers, j) is None);
        }
    }
    if (forall|i: int| 0 <= i < providers.len() ==> can_be_started(#[trigger] providers[i])) && (
    forall|i: int, j: int|
        0 <= i < j < providers.len() ==> (#[trigger] providers[i]).id@ != (
        #[trigger] providers[j]).id@) {
        assert forall|i: int| 0 <= i < providers.len() implies #[trigger] provider_fault(
            providers,
            i,
        ) is None by {
            assert(can_be_started(providers[i]));
        }
    }
}

/// A plan says what its configuration says: the same names, limits and references, each
/// provider and each profile in its place. Relative paths are below the base directory, and
/// so is a provider that is given no directory.
pub proof fn law_plans_say_what_was_configured(
    config: HarnessConfig,
    base: Seq<char>,
    refusals: Seq<ToolRefusal>,
    plan: PlanView,
    i: int,
)
    requires
        compiled(config, base, refusals) == Ok::<PlanView, ConfigErrorView>(plan),
    ensures
        plan.runtime_name == config.runtime.name@,
        plan.default_profile == opt_text(config.runtime.default_profile),
        plan.data_dir == (match config.runtime.data_dir.form {
            PathForm::Absolute => PathView::AsGiven(config.runtime.data_dir.text@),
            _ => PathView::Under { base, path: config.runtime.data_dir.text@ },
        }),
        plan.providers.len() == config.providers@.len(),
        plan.profiles.len() == config.profiles@.len(),
        0 <= i < config.providers@.len() ==> {
            let p = config.providers@[i];
            let spec = plan.providers[i];
            &&& spec.id == p.id@
            &&& spec.args == texts(p.args@)
            &&& spec.env == pairs(p.env@)
            &&& spec.request_timeout_ms == p.request_timeout_ms
            &&& spec.shutdown_timeout_ms == p.shutdown_timeout_ms
            &&& spec.max_stdout_line_bytes == p.max_stdout_line_bytes
            &&& spec.stderr_history_lines == p.stderr_history_lines
            &&& spec.program == (match p.program.form {
                PathForm::Nested => PathView::Under { base, path: p.program.text@ },
                _ => PathView::AsGiven(p.program.text@),
            })
            &&& spec.cwd == (match p.cwd {
                None => PathView::AsGiven(base),
                Some(d) => if d.form == PathForm::Absolute {
                    PathView::AsGiven(d.text@)
                } else {
                    PathView::Under { base, path: d.text@ }
                },
            })
        },
        0 <= i < config.profiles@.len() ==> {
            let p = config.profiles@[i].1;
            let got = plan.profiles[i].1;
            &&& plan.profiles[i].0 == config.profiles@[i].0@
            &&& got.model.provider == p.model.provider@
            &&& got.model.model == p.model.model@
            &&& got.model.system == opt_text(p.model.system)
            &&& got.model.timeout_ms == p.model.timeout_ms
            &&& got.model.options.max_output_tokens == p.model.max_output_tokens
            &&& got.policy == p.policy
            &&& got.max_automatic_tool_attempts == p.max_automatic_tool_attempts
            &&& got.tools.len() == p.tools@.len()
            &&& forall|k: int|
                0 <= k < p.tools@.len() ==> is_binding_of(
                    #[trigger] got.tools[k],
                    p.tools@[k],
                    config.profiles@[i].0@,
                )
        },
{
    if 0 <= i < config.profiles@.len() {
        let p = config.profiles@[i].1;
        let got = plan.profiles[i].1;
        assert forall|k: int| 0 <= k < p.tools@.len() implies is_binding_of(
            #[trigger] got.tools[k],
            p.tools@[k],
            config.profiles@[i].0@,
        ) by {
            assert(got.tools[k] == tool_binding(config.profiles@[i].0@, p.tools@[k]));
        }
    }
}

/// Whether a binding says what a tool of the profile `profile` says.
pub open spec fn is_binding_of(b: ToolBindingView, t: ToolConfig, profile: Seq<char>) -> bool {
    &&& b.name == t.name@ && b.version == t.version@ && b.description == t.description@
    &&& b.parallel_safe == t.parallel_safe && b.side_effect == t.side_effect
    &&& b.timeout_ms == t.timeout_ms && b.provider == t.provider@
    &&& tool_schema(profile, t.name@, "input_schema"@, t.input_schema) matches Ok(text)
        ==> b.input_schema == text
    &&& t.output_schema is None <==> b.output_schema is None
    &&& t.output_schema matches Some(o) ==> (tool_schema(
        profile,
        t.name@,
        "output_schema"@,
        o,
    ) matches Ok(text) ==> b.output_schema == Some(text))
}

/// A schema that is given as a text is taken as it is if it reads as JSON; any other value is
/// written as JSON.
pub proof fn law_schemas_are_json(
    profile: Seq<char>,
    tool: Seq<char>,
    field: Seq<char>,
    v: TomlValue,
)
    ensures
        v matches TomlValue::String(text) ==> {
            &&& tool_schema(profile, tool, field, v) is Ok <==> json_reading(text@) is Ok
            &&& tool_schema(profile, tool, field, v) matches Ok(s) ==> s == text@
        },
        !(v is String) ==> {
            &&& tool_schema(profile, tool, field, v) is Ok <==> schema_notation(v) is Ok
            &&& tool_schema(profile, tool, field, v) matches Ok(s) ==> schema_notation(v)
                == Ok::<Seq<char>, SchemaFault>(s)
        },
{
}

/// Whether a value can be written as JSON: no date is in it, and no number in floating point
/// that is not finite.
pub open spec fn can_be_written(v: TomlValue) -> bool
    decreases v,
{
    match v {
        TomlValue::Datetime => false,
        TomlValue::Float { finite, .. } => finite,
        TomlValue::Array(items) => forall|i: int|
            0 <= i < items@.len() ==> can_be_written(#[trigger] items@[i]),
        TomlValue::Table(entries) => forall|i: int|
            0 <= i < entries@.len() ==> can_be_written((#[trigger] entries@[i]).1),
        _ => true,
    }
}

/// A value is written as JSON if and only if nothing in it keeps it from being written.
pub proof fn law_values_are_written_as_json(v: TomlValue)
    ensures
        schema_notation(v) is Ok <==> can_be_written(v),
    decreases v,
{
    match v {
        TomlValue::Array(items) => {
            assert forall|i: int| 0 <= i < items@.len() implies (schema_notation(
                #[trigger] items@[i],
            ) is Ok <==> can_be_written(items@[i])) by {
                law_values_are_written_as_json(items@[i]);
            }
            lemma_items_written(items@);
        },
        TomlValue::Table(entries) => {
            assert forall|i: int| 0 <= i < entries@.len() implies (schema_notation(
                (#[trigger] entries@[i]).1,
            ) is Ok <==> can_be_written(entries@[i].1)) by {
                law_values_are_written_as_json(entries@[i].1);
            }
            lemma_entries_written(entries@);
        },
        _ => {},
    }
}

proof fn lemma_items_written(s: Seq<TomlValue>)
    ensures
        items_notation(s) is Ok <==> forall|i: int|
            0 <= i < s.len() ==> schema_notation(#[trigger] s[i]) is Ok,
    decreases s.len(),
{
    if s.len() > 0 {
        let rest = s.drop_last();
        lemma_items_written(rest);
        if items_notation(s) is Ok {
            assert forall|i: int| 0 <= i < s.len() implies schema_notation(
                #[trigger] s[i],
            ) is Ok by {
                if i < rest.len() {
                    assert(rest[i] == s[i]);
                }
            }
        } else if forall|i: int| 0 <= i < s.len() ==> schema_notation(#[trigger] s[i]) is Ok {
            assert forall|i: int| 0 <= i < rest.len() implies schema_notation(
                #[trigger] rest[i],
            ) is Ok by {
                assert(schema_notation(s[i]) is Ok);
            }
            assert(schema_notation(s[s.len() - 1]) is Ok);
        }
    }
}

proof fn lemma_entries_written(s: Seq<(String, TomlValue)>)
    ensures
        entries_notation(s) is Ok <==> forall|i: int|
            0 <= i < s.len() ==> schema_notation((#[trigger] s[i]).1) is Ok,
    decreases s.len(),
{
    if s.len() > 0 {
        let rest = s.drop_last();
        lemma_entries_written(rest);
        if entries_notation(s) is Ok {
            assert forall|i: int| 0 <= i < s.len() implies schema_notation(
                (#[trigger] s[i]).1,
            ) is Ok by {
                if i < rest.len() {
                    assert(rest[i] == s[i]);
                }
            }
        } else if forall|i: int| 0 <= i < s.len() ==> schema_notation((#[trigger] s[i]).1) is Ok {
            assert forall|i: int| 0 <= i < rest.len() implies schema_notation(
                (#[trigger] rest[i]).1,
            ) is Ok by {
                assert(schema_notation(s[i].1) is Ok);
            }
            assert(schema_notation(s[s.len() - 1].1) is Ok);
        }
    }
}

/// The notation of a value: a text between quotes, a number in decimal, the words for truth,
/// an array between brackets and a table between braces, with commas between items and a
/// colon behind each name.
pub proof fn law_notation_is_that_of_json(
    items: Seq<TomlValue>,
    entries: Seq<(String, TomlValue)>,
    name: String,
    v: TomlValue,
)
    requires
        items_notation(items) is Ok,
        entries_notation(entries) is Ok,
        schema_notation(v) is Ok,
    ensures
        ({
            let text = schema_notation(v)->Ok_0;
            &&& match v {
                TomlValue::String(s) => text == json_quoted(s@),
                TomlValue::Integer(n) => text == integer_notation(n as int),
                TomlValue::Float { text: t, .. } => text == t@,
                TomlValue::Boolean(b) => text == (if b {
                    "true"@
                } else {
                    "false"@
                }),
                TomlValue::Array(s) => items_notation(s@) matches Ok(body) && text == "["@ + body
                    + "]"@,
                TomlValue::Table(s) => entries_notation(s@) matches Ok(body) && text == "{"@ + body
                    + "}"@,
                TomlValue::Datetime => false,
            }
            &&& items_notation(Seq::<TomlValue>::empty()) == Ok::<Seq<char>, SchemaFault>(
                Seq::empty(),
            )
            &&& items_notation(items.push(v)) == Ok::<Seq<char>, SchemaFault>(
                if items.len() == 0 {
                    text
                } else {
                    items_notation(items)->Ok_0 + ","@ + text
                },
            )
            &&& entries_notation(entries.push((name, v))) == Ok::<Seq<char>, SchemaFault>(
                if entries.len() == 0 {
                    json_quoted(name@) + ":"@ + text
                } else {
                    entries_notation(entries)->Ok_0 + ","@ + (json_quoted(name@) + ":"@ + text)
                },
            )
        }),
{
    assert(items.push(v).drop_last() =~= items);
    assert(entries.push((name, v)).drop_last() =~= entries);
}

/// Arguments are taken if and only if they are a JSON object.
pub proof fn law_arguments_are_objects(reading: Result<JsonRootView, Seq<char>>)
    ensures
        arguments_fault(reading) is None <==> (reading matches Ok(JsonRootView::Object(_))),
        reading matches Err(message) ==> arguments_fault(reading) == Some(message),
{
}

/// Whether `e` is what is wrong with the tool at `i` of a profile.
pub open spec fn is_fault_of_tool(
    name: Seq<char>,
    tools: Seq<ToolConfig>,
    i: int,
    providers: Seq<ProviderConfig>,
    refusals: Seq<ToolRefusal>,
    e: ConfigErrorView,
) -> bool {
    let t = tools[i];
    match e {
        ConfigErrorView::UnknownToolProviderReference { profile, tool, provider } => {
            &&& profile == name && tool == t.name@ && provider == t.provider@
            &&& forall|j: int| 0 <= j < providers.len() ==> (#[trigger] providers[j]).id@ != provider
        },
        ConfigErrorView::SchemaJson { profile, tool, field, .. } => profile == name && tool
            == t.name@ && is_fault_of_schema(name, t, field, e),
        ConfigErrorView::SchemaDatetime { profile, tool, field } => profile == name && tool
            == t.name@ && is_fault_of_schema(name, t, field, e),
        ConfigErrorView::SchemaNonFiniteFloat { profile, tool, field } => profile == name && tool
            == t.name@ && is_fault_of_schema(name, t, field, e),
        ConfigErrorView::Invalid(text) => {
            ||| (exists|j: int| 0 <= j < i && (#[trigger] tools[j]).name@ == t.name@) && text
                == "profile "@ + quoted(name) + " configures tool "@ + quoted(t.name@)
                + " more than once"@
            ||| refusal_of(refusals, name, t.name@) matches Some(message) && text == "profile "@
                + quoted(name) + " tool "@ + quoted(t.name@) + " is invalid: "@ + message
        },
        _ => false,
    }
}

/// Whether `e` is what is wrong with the schema of a tool in `field`.
pub open spec fn is_fault_of_schema(
    name: Seq<char>,
    t: ToolConfig,
    field: Seq<char>,
    e: ConfigErrorView,
) -> bool {
    ||| field == "input_schema"@ && tool_schema(name, t.name@, field, t.input_schema) == Err::<
        Seq<char>,
        ConfigErrorView,
    >(e)
    ||| field == "output_schema"@ && t.output_schema is Some && tool_schema(
        name,
        t.name@,
        field,
        t.output_schema->0,
    ) == Err::<Seq<char>, ConfigErrorView>(e)
}

proof fn lemma_tools_are_named(
    name: Seq<char>,
    tools: Seq<ToolConfig>,
    from: int,
    providers: Seq<ProviderConfig>,
    refusals: Seq<ToolRefusal>,
)
    requires
        0 <= from,
    ensures
        tools_fault(name, tools, from, providers, refusals) matches Some(e) ==> exists|i: int|
            from <= i < tools.len() && #[trigger] is_fault_of_tool(
                name,
                tools,
                i,
                providers,
                refusals,
                e,
            ),
    decreases tools.len() - from,
{
    if from < tools.len() {
        if let Some(e) = tool_fault(name, tools, from, providers, refusals) {
            assert(is_fault_of_tool(name, tools, from, providers, refusals, e));
        } else {
            lemma_tools_are_named(name, tools, from + 1, providers, refusals);
        }
    }
}

/// Whether `e` is what is wrong with a profile.
pub open spec fn is_fault_of_profile(
    name: Seq<char>,
    p: ProfileConfig,
    providers: Seq<ProviderConfig>,
    refusals: Seq<ToolRefusal>,
    e: ConfigErrorView,
) -> bool {
    let named = "profile "@ + quoted(name);
    ||| is_blank(name) && e == ConfigErrorView::Invalid("profile names must not be empty"@)
    ||| is_blank(p.model.model@) && e == ConfigErrorView::Invalid(
        named + " model.model must not be empty"@,
    )
    ||| p.model.timeout_ms == 0 && e == ConfigErrorView::Invalid(
        named + " model.timeout_ms must be greater than zero"@,
    )
    ||| p.model.max_output_tokens == Some(0u32) && e == ConfigErrorView::Invalid(
        named + " model.max_output_tokens must be greater than zero"@,
    )
    ||| p.max_automatic_tool_attempts == 0 && e == ConfigErrorView::Invalid(
        named + " max_automatic_tool_attempts must be greater than zero"@,
    )
    ||| (forall|j: int|
        0 <= j < providers.len() ==> (#[trigger] providers[j]).id@ != p.model.provider@) && e == (
    ConfigErrorView::UnknownProviderReference { profile: name, provider: p.model.provider@ })
    ||| exists|i: int|
        0 <= i < p.tools@.len() && #[trigger] is_fault_of_tool(
            name,
            p.tools@,
            i,
            providers,
            refusals,
            e,
        )
}

proof fn lemma_profiles_are_named(
    profiles: Seq<(String, ProfileConfig)>,
    from: int,
    providers: Seq<ProviderConfig>,
    refusals: Seq<ToolRefusal>,
)
    requires
        0 <= from,
    ensures
        profiles_fault(profiles, from, providers, refusals) matches Some(e) ==> exists|i: int|
            from <= i < profiles.len() && is_fault_of_profile(
                (#[trigger] profiles[i]).0@,
                profiles[i].1,
                providers,
                refusals,
                e,
            ),
    decreases profiles.len() - from,
{
    if from < profiles.len() {
        let name = profiles[from].0@;
        let p = profiles[from].1;
        if let Some(e) = profile_fault(name, p, providers, refusals) {
            lemma_tools_are_named(name, p.tools@, 0, providers, refusals);
            assert(is_fault_of_profile(name, p, providers, refusals, e));
        } else {
            lemma_profiles_are_named(profiles, from + 1, providers, refusals);
        }
    }
}

/// Whether `e` is what is wrong with the provider at `i`.
pub open spec fn is_fault_of_provider(
    providers: Seq<ProviderConfig>,
    i: int,
    e: ConfigErrorView,
) -> bool {
    let p = providers[i];
    let named = "provider "@ + quoted(p.id@);
    ||| is_blank(p.id@) && e == ConfigErrorView::Invalid("provider id must not be empty"@)
    ||| is_blank(p.program.text@) && e == ConfigErrorView::Invalid(
        named + " program must not be empty"@,
    )
    ||| (p.request_timeout_ms == 0 || p.shutdown_timeout_ms == 0) && e == ConfigErrorView::Invalid(
        named + " request/shutdown timeouts must be greater than zero"@,
    )
    ||| (p.max_stdout_line_bytes == 0 || p.stderr_history_lines == 0) && e
        == ConfigErrorView::Invalid(named + " stdout/stderr limits must be greater than zero"@)
    ||| (exists|j: int| 0 <= j < i && (#[trigger] providers[j]).id@ == p.id@) && e
        == ConfigErrorView::DuplicateProvider(p.id@)
    ||| (exists|k: int| 0 <= k < p.env@.len() && is_blank((#[trigger] p.env@[k]).0@)) && e
        == ConfigErrorView::Invalid(named + " contains an empty env key"@)
}

proof fn lemma_providers_are_named(providers: Seq<ProviderConfig>, from: int)
    requires
        0 <= from,
    ensures
        providers_fault(providers, from) matches Some(e) ==> exists|i: int|
            from <= i < providers.len() && #[trigger] is_fault_of_provider(providers, i, e),
    decreases providers.len() - from,
{
    if from < providers.len() {
        if let Some(e) = provider_fault(providers, from) {
            assert(is_fault_of_provider(providers, from, e));
        } else {
            lemma_providers_are_named(providers, from + 1);
        }
    }
}

/// What is reported of a configuration is what is wrong with it: its version, its runtime, one
/// of its providers, one of its profiles, or its default profile.
pub proof fn law_configuration_faults_are_named(
    config: HarnessConfig,
    base: Seq<char>,
    refusals: Seq<ToolRefusal>,
    e: ConfigErrorView,
)
    requires
        compiled(config, base, refusals) == Err::<PlanView, ConfigErrorView>(e),
    ensures
        ({
            ||| config.schema_version != 1 && e == ConfigErrorView::Invalid(
                "unsupported config schema_version "@ + decimal(config.schema_version as nat)
                    + "; expected "@ + decimal(1),
            )
            ||| is_blank(config.runtime.name@) && e == ConfigErrorView::Invalid(
                "runtime.name must not be empty"@,
            )
            ||| config.runtime.data_dir.text@.len() == 0 && e == ConfigErrorView::Invalid(
                "runtime.data_dir must not be empty"@,
            )
            ||| exists|i: int|
                0 <= i < config.providers@.len() && #[trigger] is_fault_of_provider(
                    config.providers@,
                    i,
                    e,
                )
            ||| exists|i: int|
                0 <= i < config.profiles@.len() && is_fault_of_profile(
                    (#[trigger] config.profiles@[i]).0@,
                    config.profiles@[i].1,
                    config.providers@,
                    refusals,
                    e,
                )
            ||| config.runtime.default_profile is Some && (forall|i: int|
                0 <= i < config.profiles@.len() ==> (#[trigger] config.profiles@[i]).0@
                    != config.runtime.default_profile->0@) && e == ConfigErrorView::Invalid(
                "runtime.default_profile "@ + quoted(config.runtime.default_profile->0@)
                    + " is not defined in profiles"@,
            )
        }),
{
    lemma_providers_are_named(config.providers@, 0);
    lemma_profiles_are_named(config.profiles@, 0, config.providers@, refusals);
}

} // verus!
