//! What a configuration file says.
//!
//! Tables are rows of named entries in ascending order of their names, each
//! name once.

use vstd::prelude::*;

use crate::rows::{ascending, names_of};
use crate::types::SideEffectClass;

verus! {

pub const HARNESS_CONFIG_SCHEMA_VERSION: u16 = 1;

pub const DEFAULT_MODEL_TIMEOUT_MS: u64 = 120_000;

pub const DEFAULT_MAX_AUTOMATIC_TOOL_ATTEMPTS: u32 = 2;

/// How a path is to be taken. Which texts are which depends on the platform.
#[derive(Clone, Copy, Debug, PartialEq, Eq, Structural)]
pub enum PathForm {
    Absolute,
    /// Relative, of one component or none.
    Plain,
    /// Relative, of several components.
    Nested,
}

#[derive(Debug, PartialEq, Eq)]
pub struct ConfigPath {
    pub text: String,
    pub form: PathForm,
}

#[derive(Debug)]
pub struct HarnessConfig {
    pub schema_version: u16,
    pub runtime: RuntimeConfig,
    pub observability: ObservabilityConfig,
    pub credentials: Vec<(String, CredentialConfig)>,
    pub providers: Vec<ProviderConfig>,
    pub profiles: Vec<(String, ProfileConfig)>,
}

impl HarnessConfig {
    /// Whether the entries of every table ascend by their names.
    pub open spec fn in_order(&self) -> bool {
        &&& ascending(names_of(self.credentials@))
        &&& ascending(names_of(self.profiles@))
        &&& forall|i: int|
            0 <= i < self.providers@.len() ==> ascending(
                names_of((#[trigger] self.providers@[i]).env@),
            ) && ascending(names_of(self.providers@[i].credentials@))
    }
}

#[derive(Debug)]
pub struct RuntimeConfig {
    pub name: String,
    pub data_dir: ConfigPath,
    pub default_profile: Option<String>,
}

impl Default for RuntimeConfig {
    fn default() -> (r: Self)
        ensures
            r.name@ == "harness-cli"@,
            r.data_dir.text@ == ".harness"@,
            r.data_dir.form == PathForm::Plain,
            r.default_profile is None,
    {
        RuntimeConfig {
            name: default_runtime_name(),
            data_dir: default_data_dir(),
            default_profile: None,
        }
    }
}

#[derive(Debug)]
pub struct ObservabilityConfig {
    pub runtime_events_jsonl: Option<ConfigPath>,
}

impl Default for ObservabilityConfig {
    fn default() -> (r: Self)
        ensures
            r.runtime_events_jsonl is None,
    {
        ObservabilityConfig { runtime_events_jsonl: None }
    }
}

/// Where a credential comes from.
#[derive(Debug, PartialEq, Eq)]
pub enum CredentialConfig {
    Env { variable: String },
}

#[derive(Debug)]
pub struct ProviderConfig {
    pub id: String,
    pub program: ConfigPath,
    pub args: Vec<String>,
    pub cwd: Option<ConfigPath>,
    pub env: Vec<(String, String)>,
    pub credentials: Vec<(String, String)>,
    pub request_timeout_ms: u64,
    pub shutdown_timeout_ms: u64,
    pub max_stdout_line_bytes: usize,
    pub stderr_history_lines: usize,
}

#[derive(Debug)]
pub struct ProfileConfig {
    pub model: ModelConfig,
    pub tools: Vec<ToolConfig>,
    pub policy: PolicyConfig,
    pub max_automatic_tool_attempts: u32,
}

#[derive(Debug)]
pub struct ModelConfig {
    pub provider: String,
    pub model: String,
    pub system: Option<String>,
    pub timeout_ms: u64,
    pub max_output_tokens: Option<u32>,
}

#[derive(Debug)]
pub struct ToolConfig {
    pub name: String,
    pub provider: String,
    pub version: String,
    pub description: String,
    pub input_schema: TomlValue,
    pub output_schema: Option<TomlValue>,
    pub parallel_safe: bool,
    pub side_effect: SideEffectClass,
    pub timeout_ms: u64,
}

#[derive(Clone, Copy, Debug, PartialEq, Eq, Structural)]
pub enum PolicyConfig {
    AllowAll,
}

/// A value of the configuration language.
#[derive(Debug)]
pub enum TomlValue {
    String(String),
    Integer(i64),
    /// A floating-point number: whether it is finite, and its JSON notation if
    /// it is.
    Float { finite: bool, text: String },
    Boolean(bool),
    Datetime,
    Array(Vec<TomlValue>),
    Table(Vec<(String, TomlValue)>),
}

pub fn default_runtime_name() -> (r: String)
    ensures
        r@ == "harness-cli"@,
{
    "harness-cli".to_owned()
}

pub fn default_data_dir() -> (r: ConfigPath)
    ensures
        r.text@ == ".harness"@,
        r.form == PathForm::Plain,
{
    ConfigPath { text: ".harness".to_owned(), form: PathForm::Plain }
}

pub fn default_provider_request_timeout_ms() -> (r: u64)
    ensures
        r == 30_000,
{
    30_000
}

pub fn default_provider_shutdown_timeout_ms() -> (r: u64)
    ensures
        r == 5_000,
{
    5_000
}

pub fn default_max_stdout_line_bytes() -> (r: usize)
    ensures
        r == 1024 * 1024,
{
    1024 * 1024
}

pub fn default_stderr_history_lines() -> (r: usize)
    ensures
        r == 128,
{
    128
}

pub fn default_max_automatic_tool_attempts() -> (r: u32)
    ensures
        r == DEFAULT_MAX_AUTOMATIC_TOOL_ATTEMPTS,
{
    DEFAULT_MAX_AUTOMATIC_TOOL_ATTEMPTS
}

pub fn default_model_timeout_ms() -> (r: u64)
    ensures
        r == DEFAULT_MODEL_TIMEOUT_MS,
{
    DEFAULT_MODEL_TIMEOUT_MS
}

pub fn default_tool_timeout_ms() -> (r: u64)
    ensures
        r == 30_000,
{
    30_000
}

/// The schema of a tool that takes any object.
pub fn default_input_schema() -> (r: TomlValue)
    ensures
        r matches TomlValue::Table(entries) && entries@.len() == 1 && entries@[0].0@ == "type"@
            && (entries@[0].1 matches TomlValue::String(s) && s@ == "object"@),
{
    let mut entries: Vec<(String, TomlValue)> = Vec::new();
    entries.push(("type".to_owned(), TomlValue::String("object".to_owned())));
    TomlValue::Table(entries)
}

} // verus!
