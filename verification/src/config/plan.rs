//! What a configuration compiles to.

use vstd::prelude::*;

use crate::config::model::PolicyConfig;
use crate::llm::request::ModelOptions;
use crate::text::{opt_text, same_text, texts};
use crate::tools::ToolDefinition;
use crate::types::{ProviderId, SideEffectClass};

verus! {

/// A path as it is to be used: as it was given, or below a directory.
#[derive(Debug, PartialEq, Eq)]
pub enum ResolvedPath {
    AsGiven(String),
    Under { base: String, path: String },
}

#[verifier::ext_equal]
pub enum PathView {
    AsGiven(Seq<char>),
    Under { base: Seq<char>, path: Seq<char> },
}

impl View for ResolvedPath {
    type V = PathView;

    open spec fn view(&self) -> PathView {
        match self {
            ResolvedPath::AsGiven(path) => PathView::AsGiven(path@),
            ResolvedPath::Under { base, path } => PathView::Under { base: base@, path: path@ },
        }
    }
}

/// How a provider process is started and limited.
#[derive(Debug)]
pub struct ProviderProcessSpec {
    pub id: ProviderId,
    pub program: ResolvedPath,
    pub args: Vec<String>,
    pub cwd: ResolvedPath,
    pub env: Vec<(String, String)>,
    pub request_timeout_ms: u64,
    pub shutdown_timeout_ms: u64,
    pub max_stdout_line_bytes: usize,
    pub stderr_history_lines: usize,
}

#[verifier::ext_equal]
pub struct ProviderSpecView {
    pub id: Seq<char>,
    pub program: PathView,
    pub args: Seq<Seq<char>>,
    pub cwd: PathView,
    pub env: Seq<(Seq<char>, Seq<char>)>,
    pub request_timeout_ms: u64,
    pub shutdown_timeout_ms: u64,
    pub max_stdout_line_bytes: usize,
    pub stderr_history_lines: usize,
}

/// The model of named texts.
pub open spec fn pairs(s: Seq<(String, String)>) -> Seq<(Seq<char>, Seq<char>)> {
    s.map_values(|p: (String, String)| (p.0@, p.1@))
}

/// A copy of named texts.
pub fn clone_pairs(v: &Vec<(String, String)>) -> (r: Vec<(String, String)>)
    ensures
        r@ == v@,
{
    let mut r: Vec<(String, String)> = Vec::new();
    let mut i: usize = 0;
    while i < v.len()
        invariant
            i <= v@.len(),
            r@ == v@.take(i as int),
        decreases v@.len() - i,
    {
        r.push((v[i].0.clone(), v[i].1.clone()));
        i = i + 1;
    }
    assert(r@ =~= v@);
    r
}

impl View for ProviderProcessSpec {
    type V = ProviderSpecView;

    open spec fn view(&self) -> ProviderSpecView {
        ProviderSpecView {
            id: self.id@,
            program: self.program@,
            args: texts(self.args@),
            cwd: self.cwd@,
            env: pairs(self.env@),
            request_timeout_ms: self.request_timeout_ms,
            shutdown_timeout_ms: self.shutdown_timeout_ms,
            max_stdout_line_bytes: self.max_stdout_line_bytes,
            stderr_history_lines: self.stderr_history_lines,
        }
    }
}

/// The model of a profile.
#[derive(Debug)]
pub struct ModelBinding {
    pub provider: ProviderId,
    pub model: String,
    pub options: ModelOptions,
    pub timeout_ms: u64,
    pub system: Option<String>,
}

#[verifier::ext_equal]
pub struct ModelBindingView {
    pub provider: Seq<char>,
    pub model: Seq<char>,
    pub options: ModelOptions,
    pub timeout_ms: u64,
    pub system: Option<Seq<char>>,
}

impl View for ModelBinding {
    type V = ModelBindingView;

    open spec fn view(&self) -> ModelBindingView {
        ModelBindingView {
            provider: self.provider@,
            model: self.model@,
            options: self.options,
            timeout_ms: self.timeout_ms,
            system: opt_text(self.system),
        }
    }
}

/// A tool of a profile and the provider that carries it out.
#[derive(Debug)]
pub struct RuntimeToolBinding {
    pub definition: ToolDefinition,
    pub provider: ProviderId,
}

#[verifier::ext_equal]
pub struct ToolBindingView {
    pub name: Seq<char>,
    pub version: Seq<char>,
    pub description: Seq<char>,
    pub input_schema: Seq<char>,
    pub output_schema: Option<Seq<char>>,
    pub parallel_safe: bool,
    pub side_effect: SideEffectClass,
    pub timeout_ms: u64,
    pub provider: Seq<char>,
}

impl View for RuntimeToolBinding {
    type V = ToolBindingView;

    open spec fn view(&self) -> ToolBindingView {
        ToolBindingView {
            name: self.definition.name@,
            version: self.definition.version@,
            description: self.definition.description@,
            input_schema: self.definition.input_schema@,
            output_schema: match self.definition.output_schema {
                Some(schema) => Some(schema@),
                None => None,
            },
            parallel_safe: self.definition.parallel_safe,
            side_effect: self.definition.side_effect,
            timeout_ms: self.definition.default_timeout_ms,
            provider: self.provider@,
        }
    }
}

impl Clone for RuntimeToolBinding {
    fn clone(&self) -> (r: Self)
        ensures
            r == *self,
    {
        RuntimeToolBinding { definition: self.definition.clone(), provider: self.provider.clone() }
    }
}

/// The model of a row of tools.
pub open spec fn bindings(s: Seq<RuntimeToolBinding>) -> Seq<ToolBindingView> {
    s.map_values(|b: RuntimeToolBinding| b@)
}

#[derive(Debug)]
pub struct AgentProfile {
    pub model: ModelBinding,
    pub policy: PolicyConfig,
    pub max_automatic_tool_attempts: u32,
    pub tools: Vec<RuntimeToolBinding>,
}

#[verifier::ext_equal]
pub struct AgentProfileView {
    pub model: ModelBindingView,
    pub policy: PolicyConfig,
    pub max_automatic_tool_attempts: u32,
    pub tools: Seq<ToolBindingView>,
}

impl View for AgentProfile {
    type V = AgentProfileView;

    open spec fn view(&self) -> AgentProfileView {
        AgentProfileView {
            model: self.model@,
            policy: self.policy,
            max_automatic_tool_attempts: self.max_automatic_tool_attempts,
            tools: bindings(self.tools@),
        }
    }
}

/// Everything that a runtime is put together from.
#[derive(Debug)]
pub struct RuntimePlan {
    pub runtime_name: String,
    pub data_dir: ResolvedPath,
    pub providers: Vec<ProviderProcessSpec>,
    pub profiles: Vec<(String, AgentProfile)>,
    pub default_profile: Option<String>,
}

#[verifier::ext_equal]
pub struct PlanView {
    pub runtime_name: Seq<char>,
    pub data_dir: PathView,
    pub providers: Seq<ProviderSpecView>,
    pub profiles: Seq<(Seq<char>, AgentProfileView)>,
    pub default_profile: Option<Seq<char>>,
}

impl View for RuntimePlan {
    type V = PlanView;

    open spec fn view(&self) -> PlanView {
        PlanView {
            runtime_name: self.runtime_name@,
            data_dir: self.data_dir@,
            providers: self.providers@.map_values(|p: ProviderProcessSpec| p@),
            profiles: self.profiles@.map_values(|p: (String, AgentProfile)| (p.0@, p.1@)),
            default_profile: opt_text(self.default_profile),
        }
    }
}

impl RuntimePlan {
    pub fn data_dir(&self) -> (r: &ResolvedPath)
        ensures
            *r == self.data_dir,
    {
        &self.data_dir
    }

    pub fn provider_count(&self) -> (r: usize)
        ensures
            r == self@.providers.len(),
    {
        self.providers.len()
    }

    pub fn profile_count(&self) -> (r: usize)
        ensures
            r == self@.profiles.len(),
    {
        self.profiles.len()
    }

    pub fn profile_names(&self) -> (r: Vec<String>)
        ensures
            texts(r@) == self@.profiles.map_values(|p: (Seq<char>, AgentProfileView)| p.0),
    {
        let mut names: Vec<String> = Vec::new();
        let mut i: usize = 0;
        while i < self.profiles.len()
            invariant
                i <= self.profiles@.len(),
                names@.len() == i,
                forall|j: int| 0 <= j < i ==> (#[trigger] names@[j])@ == self.profiles@[j].0@,
            decreases self.profiles@.len() - i,
        {
            names.push(self.profiles[i].0.clone());
            i = i + 1;
        }
        assert(texts(names@) =~= self@.profiles.map_values(
            |p: (Seq<char>, AgentProfileView)| p.0,
        ));
        names
    }

    pub fn contains_profile(&self, name: &str) -> (r: bool)
        ensures
            r == exists|i: int|
                0 <= i < self@.profiles.len() && (#[trigger] self@.profiles[i]).0 == name@,
    {
        let mut i: usize = 0;
        while i < self.profiles.len()
            invariant
                i <= self.profiles@.len(),
                forall|j: int| 0 <= j < i ==> (#[trigger] self@.profiles[j]).0 != name@,
            decreases self.profiles@.len() - i,
        {
            assert(self@.profiles[i as int].0 == self.profiles@[i as int].0@);
            if same_text(self.profiles[i].0.as_str(), name) {
                return true;
            }
            i = i + 1;
        }
        false
    }

    pub fn default_profile(&self) -> (r: &Option<String>)
        ensures
            *r == self.default_profile,
    {
        &self.default_profile
    }
}

} // verus!
