//! Layered scopes: global settings, a workspace, a profile and a session, each
//! overriding the ones before it.

use vstd::prelude::*;

use crate::config::error::{ConfigErrorView, HarnessConfigError};
use crate::config::loader::invalid;
use crate::config::model::{
    PolicyConfig, DEFAULT_MAX_AUTOMATIC_TOOL_ATTEMPTS, DEFAULT_MODEL_TIMEOUT_MS,
};
use crate::config::plan::{
    bindings, AgentProfile, AgentProfileView, ModelBinding, ModelBindingView, RuntimeToolBinding,
    ToolBindingView,
};
use crate::llm::request::ModelOptions;
use crate::message::opt_id;
use crate::rows::{ascending, names_of, text_before};
use crate::text::{
    blank, concat2, concat3, concat4, is_blank, is_white_space, opt_text, quoted, quoted_text, same_opt_text,
    texts,
};
use crate::types::{ProviderId, SessionId};

verus! {

/// How a prompt joins those of the layers before it.
#[derive(Clone, Copy, Debug, PartialEq, Eq, Structural)]
pub enum PromptMode {
    Append,
    Replace,
}

/// The layers that are asked for.
#[derive(Debug, PartialEq, Eq)]
pub struct ScopeSelection {
    pub profile: String,
    pub workspace: Option<String>,
    pub session_id: Option<SessionId>,
}

impl ScopeSelection {
    pub fn new(profile: String) -> (r: ScopeSelection)
        ensures
            r == (ScopeSelection { profile, workspace: None, session_id: None }),
    {
        ScopeSelection { profile, workspace: None, session_id: None }
    }

    pub fn with_workspace(self, workspace: String) -> (r: ScopeSelection)
        ensures
            r == (ScopeSelection { workspace: Some(workspace), ..self }),
    {
        ScopeSelection {
            profile: self.profile,
            workspace: Some(workspace),
            session_id: self.session_id,
        }
    }

    pub fn with_session(self, session_id: SessionId) -> (r: ScopeSelection)
        ensures
            r == (ScopeSelection { session_id: Some(session_id), ..self }),
    {
        ScopeSelection {
            profile: self.profile,
            workspace: self.workspace,
            session_id: Some(session_id),
        }
    }

    pub fn profile(&self) -> (r: &str)
        ensures
            r@ == self.profile@,
    {
        self.profile.as_str()
    }

    pub fn workspace(&self) -> (r: &Option<String>)
        ensures
            *r == self.workspace,
    {
        &self.workspace
    }

    pub fn session_id(&self) -> (r: &Option<SessionId>)
        ensures
            *r == self.session_id,
    {
        &self.session_id
    }
}

#[derive(Debug)]
pub struct CompiledModelPatch {
    pub provider: Option<ProviderId>,
    pub model: Option<String>,
    pub timeout_ms: Option<u64>,
    pub max_output_tokens: Option<u32>,
}

#[derive(Debug)]
pub struct CompiledCapabilityPatch {
    pub enable: Vec<String>,
    pub disable: Vec<String>,
}

/// What a layer sets.
#[derive(Debug)]
pub struct CompiledScopePatch {
    pub system: Option<String>,
    pub system_mode: PromptMode,
    pub model: CompiledModelPatch,
    pub capabilities: CompiledCapabilityPatch,
    pub policy: Option<PolicyConfig>,
    pub max_automatic_tool_attempts: Option<u32>,
}

#[derive(Debug)]
pub struct CompiledProfileTool {
    pub binding: RuntimeToolBinding,
    pub enabled: Option<bool>,
}

#[derive(Debug)]
pub struct CompiledProfile {
    pub model_provider: ProviderId,
    pub model: String,
    pub system: Option<String>,
    pub timeout_ms: Option<u64>,
    pub max_output_tokens: Option<u32>,
    /// The tools in ascending order of their names, each name once.
    pub tools: Vec<(String, CompiledProfileTool)>,
    pub policy: Option<PolicyConfig>,
    pub max_automatic_tool_attempts: Option<u32>,
}

/// What is set for one session, and what the session is bound to.
#[derive(Debug)]
pub struct CompiledSessionScope {
    pub profile: Option<String>,
    pub workspace: Option<String>,
    pub patch: CompiledScopePatch,
}

/// All layers, by name.
#[derive(Debug)]
pub struct ScopeCatalog {
    pub global: CompiledScopePatch,
    pub workspaces: Vec<(String, CompiledScopePatch)>,
    pub profiles: Vec<(String, CompiledProfile)>,
    pub sessions: Vec<(SessionId, CompiledSessionScope)>,
}

/// Whether the layers of each kind, and the tools of every profile, ascend by
/// their names.
pub open spec fn layers_in_order(
    workspaces: Seq<(String, CompiledScopePatch)>,
    profiles: Seq<(String, CompiledProfile)>,
    sessions: Seq<(SessionId, CompiledSessionScope)>,
) -> bool {
    &&& ascending(names_of(workspaces))
    &&& ascending(names_of(profiles))
    &&& ascending(sessions.map_values(|s: (SessionId, CompiledSessionScope)| s.0@))
    &&& forall|i: int|
        0 <= i < profiles.len() ==> ascending(names_of((#[trigger] profiles[i]).1.tools@))
}

#[derive(Debug, PartialEq, Eq)]
pub struct PromptFragmentTrace {
    pub layer: String,
    pub mode: String,
    pub text: String,
}

#[verifier::ext_equal]
pub struct FragmentView {
    pub layer: Seq<char>,
    pub mode: Seq<char>,
    pub text: Seq<char>,
}

impl View for PromptFragmentTrace {
    type V = FragmentView;

    open spec fn view(&self) -> FragmentView {
        FragmentView { layer: self.layer@, mode: self.mode@, text: self.text@ }
    }
}

/// The model of a row of fragments.
pub open spec fn fragments_view(s: Seq<PromptFragmentTrace>) -> Seq<FragmentView> {
    s.map_values(|f: PromptFragmentTrace| f@)
}

#[derive(Debug, PartialEq, Eq)]
pub struct ResolvedModelTrace {
    pub provider: String,
    pub model: String,
    pub timeout_ms: u64,
    pub max_output_tokens: Option<u32>,
}

/// How a scope was resolved.
#[derive(Debug, PartialEq, Eq)]
pub struct ScopeResolutionTrace {
    pub profile: String,
    pub workspace: Option<String>,
    pub session_id: Option<String>,
    pub layers: Vec<String>,
    pub prompt_fragments: Vec<PromptFragmentTrace>,
    pub system_prompt: Option<String>,
    pub model: ResolvedModelTrace,
    pub enabled_tools: Vec<String>,
    pub disabled_tools: Vec<String>,
    pub ignored_capability_directives: Vec<String>,
    pub policy: String,
    pub max_automatic_tool_attempts: u32,
}

#[verifier::ext_equal]
pub struct TraceView {
    pub profile: Seq<char>,
    pub workspace: Option<Seq<char>>,
    pub session_id: Option<Seq<char>>,
    pub layers: Seq<Seq<char>>,
    pub prompt_fragments: Seq<FragmentView>,
    pub system_prompt: Option<Seq<char>>,
    pub provider: Seq<char>,
    pub model: Seq<char>,
    pub timeout_ms: u64,
    pub max_output_tokens: Option<u32>,
    pub enabled_tools: Seq<Seq<char>>,
    pub disabled_tools: Seq<Seq<char>>,
    pub ignored_capability_directives: Seq<Seq<char>>,
    pub policy: Seq<char>,
    pub max_automatic_tool_attempts: u32,
}

impl View for ScopeResolutionTrace {
    type V = TraceView;

    open spec fn view(&self) -> TraceView {
        TraceView {
            profile: self.profile@,
            workspace: opt_text(self.workspace),
            session_id: opt_text(self.session_id),
            layers: texts(self.layers@),
            prompt_fragments: fragments_view(self.prompt_fragments@),
            system_prompt: opt_text(self.system_prompt),
            provider: self.model.provider@,
            model: self.model.model@,
            timeout_ms: self.model.timeout_ms,
            max_output_tokens: self.model.max_output_tokens,
            enabled_tools: texts(self.enabled_tools@),
            disabled_tools: texts(self.disabled_tools@),
            ignored_capability_directives: texts(self.ignored_capability_directives@),
            policy: self.policy@,
            max_automatic_tool_attempts: self.max_automatic_tool_attempts,
        }
    }
}

/// A resolved scope: the profile that agents run with, and how it came about.
#[derive(Debug)]
pub struct ResolvedScope {
    pub selection: ScopeSelection,
    pub agent_profile: AgentProfile,
    pub trace: ScopeResolutionTrace,
}

/// The layers that a selection is made of.
pub struct Layers {
    pub global: CompiledScopePatch,
    pub workspace: Option<(Seq<char>, CompiledScopePatch)>,
    pub profile_name: Seq<char>,
    pub profile: CompiledProfile,
    pub session: Option<(Seq<char>, CompiledSessionScope)>,
}

pub open spec fn workspace_of(s: Seq<(String, CompiledScopePatch)>, name: Seq<char>) -> Option<
    CompiledScopePatch,
>
    decreases s.len(),
{
    if s.len() == 0 {
        None
    } else if s[0].0@ == name {
        Some(s[0].1)
    } else {
        workspace_of(s.drop_first(), name)
    }
}

pub open spec fn profile_of(s: Seq<(String, CompiledProfile)>, name: Seq<char>) -> Option<
    CompiledProfile,
>
    decreases s.len(),
{
    if s.len() == 0 {
        None
    } else if s[0].0@ == name {
        Some(s[0].1)
    } else {
        profile_of(s.drop_first(), name)
    }
}

pub open spec fn session_of(s: Seq<(SessionId, CompiledSessionScope)>, id: Seq<char>) -> Option<
    CompiledSessionScope,
>
    decreases s.len(),
{
    if s.len() == 0 {
        None
    } else if s[0].0@ == id {
        Some(s[0].1)
    } else {
        session_of(s.drop_first(), id)
    }
}

/// How an optional text is written in messages.
pub open spec fn quoted_option(o: Option<Seq<char>>) -> Seq<char> {
    match o {
        Some(s) => "Some("@ + quoted(s) + ")"@,
        None => "None"@,
    }
}

/// The layers of a selection, or why there are none: the profile and the
/// workspace must be configured, and a session must not be bound to others.
pub open spec fn layers_of(c: ScopeCatalog, s: ScopeSelection) -> Result<Layers, ConfigErrorView> {
    let workspace_name = opt_text(s.workspace);
    let session_name = opt_id(s.session_id);
    match profile_of(c.profiles@, s.profile@) {
        None => Err(
            invalid(
                "scope references profile "@ + quoted(s.profile@) + ", which is not configured"@,
            ),
        ),
        Some(profile) => {
            if workspace_name is Some && workspace_of(c.workspaces@, workspace_name->0) is None {
                Err(
                    invalid(
                        "scope references workspace "@ + quoted(workspace_name->0)
                            + ", which is not configured"@,
                    ),
                )
            } else {
                let workspace = match workspace_name {
                    Some(name) => Some((name, workspace_of(c.workspaces@, name)->0)),
                    None => None,
                };
                let scope = match session_name {
                    Some(id) => session_of(c.sessions@, id),
                    None => None,
                };
                match scope {
                    None => Ok(
                        Layers {
                            global: c.global,
                            workspace,
                            profile_name: s.profile@,
                            profile,
                            session: None,
                        },
                    ),
                    Some(bound) => if bound.profile is Some && bound.profile->0@ != s.profile@ {
                        Err(
                            invalid(
                                "session scope binds profile "@ + quoted(bound.profile->0@)
                                    + ", but resolution requested "@ + quoted(s.profile@),
                            ),
                        )
                    } else if bound.workspace is Some && opt_text(bound.workspace)
                        != workspace_name {
                        Err(
                            invalid(
                                "session scope binds workspace "@ + quoted(bound.workspace->0@)
                                    + ", but resolution requested "@ + quoted_option(
                                    workspace_name,
                                ),
                            ),
                        )
                    } else {
                        Ok(
                            Layers {
                                global: c.global,
                                workspace,
                                profile_name: s.profile@,
                                profile,
                                session: Some((session_name->0, bound)),
                            },
                        )
                    },
                }
            }
        },
    }
}

pub open spec fn workspace_label(name: Seq<char>) -> Seq<char> {
    "workspace:"@ + name
}

pub open spec fn profile_label(name: Seq<char>) -> Seq<char> {
    "profile:"@ + name
}

pub open spec fn session_label(id: Seq<char>) -> Seq<char> {
    "session:"@ + id
}

/// The names of the layers, in order.
pub open spec fn layer_names(l: Layers) -> Seq<Seq<char>> {
    let base = seq!["global"@];
    let outer = match l.workspace {
        Some((name, _)) => base.push(workspace_label(name)),
        None => base,
    };
    let inner = outer.push(profile_label(l.profile_name));
    match l.session {
        Some((id, _)) => inner.push(session_label(id)),
        None => inner,
    }
}

/// The fragments after a layer: a prompt that says something is added, and one
/// that replaces drops those before it.
pub open spec fn with_prompt(
    fragments: Seq<FragmentView>,
    layer: Seq<char>,
    system: Option<Seq<char>>,
    mode: PromptMode,
) -> Seq<FragmentView> {
    match system {
        None => fragments,
        Some(text) => if is_blank(text) {
            fragments
        } else if mode == PromptMode::Replace {
            seq![FragmentView { layer, mode: "replace"@, text }]
        } else {
            fragments.push(FragmentView { layer, mode: "append"@, text })
        },
    }
}

pub open spec fn with_patch_prompt(
    fragments: Seq<FragmentView>,
    layer: Seq<char>,
    patch: CompiledScopePatch,
) -> Seq<FragmentView> {
    with_prompt(fragments, layer, opt_text(patch.system), patch.system_mode)
}

/// The prompts that apply, in order.
pub open spec fn fragments_of(l: Layers) -> Seq<FragmentView> {
    let global = with_patch_prompt(Seq::empty(), "global"@, l.global);
    let outer = match l.workspace {
        Some((name, patch)) => with_patch_prompt(global, workspace_label(name), patch),
        None => global,
    };
    let inner = with_prompt(
        outer,
        profile_label(l.profile_name),
        opt_text(l.profile.system),
        PromptMode::Append,
    );
    match l.session {
        Some((id, scope)) => with_patch_prompt(inner, session_label(id), scope.patch),
        None => inner,
    }
}

/// The texts of fragments with a blank line between each two.
pub open spec fn joined_prompts(fragments: Seq<FragmentView>) -> Seq<char>
    decreases fragments.len(),
{
    if fragments.len() == 0 {
        Seq::empty()
    } else if fragments.len() == 1 {
        fragments[0].text
    } else {
        joined_prompts(fragments.drop_last()) + "\n\n"@ + fragments.last().text
    }
}

/// The system prompt; none without fragments.
pub open spec fn prompt_of(fragments: Seq<FragmentView>) -> Option<Seq<char>> {
    if fragments.len() == 0 {
        None
    } else {
        Some(joined_prompts(fragments))
    }
}

/// The value of the last layer that sets one.
pub open spec fn last_set<T>(
    global: Option<T>,
    workspace: Option<T>,
    profile: Option<T>,
    session: Option<T>,
) -> Option<T> {
    if session is Some {
        session
    } else if profile is Some {
        profile
    } else if workspace is Some {
        workspace
    } else {
        global
    }
}

/// What a layer that may be missing sets.
pub open spec fn of_workspace<T>(l: Layers, f: spec_fn(CompiledScopePatch) -> Option<T>) -> Option<
    T,
> {
    match l.workspace {
        Some((_, patch)) => f(patch),
        None => None,
    }
}

pub open spec fn of_session<T>(l: Layers, f: spec_fn(CompiledScopePatch) -> Option<T>) -> Option<
    T,
> {
    match l.session {
        Some((_, scope)) => f(scope.patch),
        None => None,
    }
}

/// The value of the last layer that sets one, where `f` is what a patch sets.
pub open spec fn resolved_value<T>(
    l: Layers,
    profile: Option<T>,
    f: spec_fn(CompiledScopePatch) -> Option<T>,
) -> Option<T> {
    last_set(f(l.global), of_workspace(l, f), profile, of_session(l, f))
}

pub open spec fn provider_of(l: Layers) -> Option<Seq<char>> {
    resolved_value(
        l,
        Some(l.profile.model_provider@),
        |p: CompiledScopePatch| opt_id(p.model.provider),
    )
}

pub open spec fn model_of(l: Layers) -> Option<Seq<char>> {
    resolved_value(l, Some(l.profile.model@), |p: CompiledScopePatch| opt_text(p.model.model))
}

pub open spec fn timeout_of(l: Layers) -> Option<u64> {
    resolved_value(l, l.profile.timeout_ms, |p: CompiledScopePatch| p.model.timeout_ms)
}

pub open spec fn max_tokens_of(l: Layers) -> Option<u32> {
    resolved_value(
        l,
        l.profile.max_output_tokens,
        |p: CompiledScopePatch| p.model.max_output_tokens,
    )
}

pub open spec fn policy_of(l: Layers) -> Option<PolicyConfig> {
    resolved_value(l, l.profile.policy, |p: CompiledScopePatch| p.policy)
}

pub open spec fn attempts_of(l: Layers) -> Option<u32> {
    resolved_value(
        l,
        l.profile.max_automatic_tool_attempts,
        |p: CompiledScopePatch| p.max_automatic_tool_attempts,
    )
}

pub open spec fn has_text(s: Seq<String>, t: Seq<char>) -> bool {
    exists|i: int| 0 <= i < s.len() && (#[trigger] s[i])@ == t
}

/// Whether a tool is enabled after a layer: a layer that both enables and
/// disables a tool disables it.
pub open spec fn patched_state(state: bool, name: Seq<char>, patch: CompiledCapabilityPatch) -> bool {
    if has_text(patch.disable@, name) {
        false
    } else if has_text(patch.enable@, name) {
        true
    } else {
        state
    }
}

/// Whether a tool of the profile is enabled.
pub open spec fn tool_enabled(l: Layers, tool: (String, CompiledProfileTool)) -> bool {
    let name = tool.0@;
    let global = patched_state(true, name, l.global.capabilities);
    let outer = match l.workspace {
        Some((_, patch)) => patched_state(global, name, patch.capabilities),
        None => global,
    };
    let inner = match tool.1.enabled {
        Some(enabled) => enabled,
        None => outer,
    };
    match l.session {
        Some((_, scope)) => patched_state(inner, name, scope.patch.capabilities),
        None => inner,
    }
}

pub open spec fn is_tool(tools: Seq<(String, CompiledProfileTool)>, name: Seq<char>) -> bool {
    exists|i: int| 0 <= i < tools.len() && (#[trigger] tools[i]).0@ == name
}

/// The directives of a list that name no tool of the profile.
pub open spec fn ignored_names(
    label: Seq<char>,
    names: Seq<String>,
    tools: Seq<(String, CompiledProfileTool)>,
) -> Seq<Seq<char>>
    decreases names.len(),
{
    if names.len() == 0 {
        Seq::empty()
    } else {
        let before = ignored_names(label, names.drop_last(), tools);
        if is_tool(tools, names.last()@) {
            before
        } else {
            before.push(label + names.last()@)
        }
    }
}

/// The directives of a layer that name no tool of the profile.
pub open spec fn ignored_in(
    layer: Seq<char>,
    patch: CompiledCapabilityPatch,
    tools: Seq<(String, CompiledProfileTool)>,
) -> Seq<Seq<char>> {
    ignored_names(layer + ":enable:"@, patch.enable@, tools) + ignored_names(
        layer + ":disable:"@,
        patch.disable@,
        tools,
    )
}

/// All directives that name no tool of the profile.
pub open spec fn ignored_of(l: Layers) -> Seq<Seq<char>> {
    let tools = l.profile.tools@;
    let global = ignored_in("global"@, l.global.capabilities, tools);
    let outer = match l.workspace {
        Some((name, patch)) => global + ignored_in(
            workspace_label(name),
            patch.capabilities,
            tools,
        ),
        None => global,
    };
    match l.session {
        Some((id, scope)) => outer + ignored_in(
            session_label(id),
            scope.patch.capabilities,
            tools,
        ),
        None => outer,
    }
}

/// The names of the tools whose state is `state`.
pub open spec fn tools_in_state(
    l: Layers,
    tools: Seq<(String, CompiledProfileTool)>,
    state: bool,
) -> Seq<Seq<char>>
    decreases tools.len(),
{
    if tools.len() == 0 {
        Seq::empty()
    } else {
        let before = tools_in_state(l, tools.drop_last(), state);
        if tool_enabled(l, tools.last()) == state {
            before.push(tools.last().0@)
        } else {
            before
        }
    }
}

/// The enabled tools.
pub open spec fn enabled_bindings(
    l: Layers,
    tools: Seq<(String, CompiledProfileTool)>,
) -> Seq<ToolBindingView>
    decreases tools.len(),
{
    if tools.len() == 0 {
        Seq::empty()
    } else {
        let before = enabled_bindings(l, tools.drop_last());
        if tool_enabled(l, tools.last()) {
            before.push(tools.last().1.binding@)
        } else {
            before
        }
    }
}

pub open spec fn policy_label(policy: PolicyConfig) -> Seq<char> {
    match policy {
        PolicyConfig::AllowAll => "allow-all"@,
    }
}

pub open spec fn or_default<T>(o: Option<T>, default_value: T) -> T {
    match o {
        Some(t) => t,
        None => default_value,
    }
}

/// The profile that layers add up to.
pub open spec fn layered_profile(l: Layers) -> AgentProfileView {
    AgentProfileView {
        model: ModelBindingView {
            provider: provider_of(l)->0,
            model: model_of(l)->0,
            options: ModelOptions { max_output_tokens: max_tokens_of(l) },
            timeout_ms: or_default(timeout_of(l), DEFAULT_MODEL_TIMEOUT_MS),
            system: prompt_of(fragments_of(l)),
        },
        policy: policy_of(l)->0,
        max_automatic_tool_attempts: or_default(
            attempts_of(l),
            DEFAULT_MAX_AUTOMATIC_TOOL_ATTEMPTS,
        ),
        tools: enabled_bindings(l, l.profile.tools@),
    }
}

/// How layers add up.
pub open spec fn layered_trace(l: Layers, s: ScopeSelection) -> TraceView {
    TraceView {
        profile: s.profile@,
        workspace: opt_text(s.workspace),
        session_id: opt_id(s.session_id),
        layers: layer_names(l),
        prompt_fragments: fragments_of(l),
        system_prompt: prompt_of(fragments_of(l)),
        provider: provider_of(l)->0,
        model: model_of(l)->0,
        timeout_ms: or_default(timeout_of(l), DEFAULT_MODEL_TIMEOUT_MS),
        max_output_tokens: max_tokens_of(l),
        enabled_tools: tools_in_state(l, l.profile.tools@, true),
        disabled_tools: tools_in_state(l, l.profile.tools@, false),
        ignored_capability_directives: ignored_of(l),
        policy: policy_label(policy_of(l)->0),
        max_automatic_tool_attempts: or_default(
            attempts_of(l),
            DEFAULT_MAX_AUTOMATIC_TOOL_ATTEMPTS,
        ),
    }
}

/// The refusal of a scope for which no layer sets a policy.
pub open spec fn no_policy(profile: Seq<char>) -> ConfigErrorView {
    invalid(
        "scope for profile "@ + quoted(profile) + " does not resolve a Tool policy"@,
    )
}

/// Whether `r` is what a selection resolves to.
pub open spec fn is_resolution(
    c: ScopeCatalog,
    s: ScopeSelection,
    r: Result<ResolvedScope, HarnessConfigError>,
) -> bool {
    match layers_of(c, s) {
        Err(e) => r matches Err(x) && x@ == e,
        Ok(l) => if policy_of(l) is None {
            r matches Err(x) && x@ == no_policy(s.profile@)
        } else {
            &&& r matches Ok(scope)
            &&& scope.selection == s
            &&& scope.agent_profile@ == layered_profile(l)
            &&& scope.trace@ == layered_trace(l, s)
        },
    }
}

pub fn policy_name(policy: PolicyConfig) -> (r: &'static str)
    ensures
        r@ == policy_label(policy),
{
    match policy {
        PolicyConfig::AllowAll => "allow-all",
    }
}

/// Joins the texts of fragments.
pub fn compose_prompt(fragments: &Vec<PromptFragmentTrace>) -> (r: Option<String>)
    ensures
        opt_text(r) == prompt_of(fragments_view(fragments@)),
{
    let ghost view = fragments_view(fragments@);
    if fragments.is_empty() {
        return None;
    }
    let mut text = fragments[0].text.clone();
    let mut i: usize = 1;
    assert(view.take(1).len() == 1);
    while i < fragments.len()
        invariant
            1 <= i <= fragments@.len(),
            view == fragments_view(fragments@),
            text@ == joined_prompts(view.take(i as int)),
        decreases fragments@.len() - i,
    {
        assert(view.take(i + 1).drop_last() =~= view.take(i as int));
        assert(view.take(i + 1).last() == view[i as int]);
        text.append("\n\n");
        text.append(fragments[i].text.as_str());
        i = i + 1;
    }
    assert(view.take(i as int) =~= view);
    Some(text)
}

fn apply_prompt(
    layer: &str,
    system: &Option<String>,
    mode: PromptMode,
    fragments: &mut Vec<PromptFragmentTrace>,
)
    ensures
        fragments_view(final(fragments)@) == with_prompt(
            fragments_view(old(fragments)@),
            layer@,
            opt_text(*system),
            mode,
        ),
{
    let text = match system {
        Some(text) => text,
        None => {
            return;
        },
    };
    if blank(text.as_str()) {
        return;
    }
    if mode == PromptMode::Replace {
        fragments.clear();
    }
    let word = match mode {
        PromptMode::Append => "append",
        PromptMode::Replace => "replace",
    };
    let ghost before = fragments@;
    fragments.push(
        PromptFragmentTrace {
            layer: layer.to_owned(),
            mode: word.to_owned(),
            text: text.clone(),
        },
    );
    assert(fragments_view(fragments@) =~= fragments_view(before).push(fragments@.last()@));
    assert(before.len() == 0 ==> fragments_view(fragments@) =~= seq![fragments@.last()@]);
}

fn holds_text(s: &Vec<String>, t: &String) -> (r: bool)
    ensures
        r == has_text(s@, t@),
{
    let mut i: usize = 0;
    while i < s.len()
        invariant
            i <= s@.len(),
            forall|j: int| 0 <= j < i ==> (#[trigger] s@[j])@ != t@,
        decreases s@.len() - i,
    {
        if s[i] == *t {
            return true;
        }
        i = i + 1;
    }
    false
}

fn names_tool(tools: &Vec<(String, CompiledProfileTool)>, name: &String) -> (r: bool)
    ensures
        r == is_tool(tools@, name@),
{
    let mut i: usize = 0;
    while i < tools.len()
        invariant
            i <= tools@.len(),
            forall|j: int| 0 <= j < i ==> (#[trigger] tools@[j]).0@ != name@,
        decreases tools@.len() - i,
    {
        if tools[i].0 == *name {
            return true;
        }
        i = i + 1;
    }
    false
}

fn push_ignored(
    label: &str,
    names: &Vec<String>,
    tools: &Vec<(String, CompiledProfileTool)>,
    ignored: &mut Vec<String>,
)
    ensures
        texts(final(ignored)@) == texts(old(ignored)@) + ignored_names(label@, names@, tools@),
{
    let ghost before = texts(ignored@);
    let mut i: usize = 0;
    assert(before + ignored_names(label@, names@.take(0), tools@) =~= before);
    while i < names.len()
        invariant
            i <= names@.len(),
            texts(ignored@) == before + ignored_names(label@, names@.take(i as int), tools@),
        decreases names@.len() - i,
    {
        let ghost prior = ignored_names(label@, names@.take(i as int), tools@);
        let ghost held = ignored@;
        assert(names@.take(i + 1).drop_last() =~= names@.take(i as int));
        assert(names@.take(i + 1).last() == names@[i as int]);
        if !names_tool(tools, &names[i]) {
            ignored.push(concat2(label, names[i].as_str()));
            proof {
                let one = label@ + names@[i as int]@;
                assert(texts(ignored@) =~= texts(held).push(one));
                assert((before + prior).push(one) =~= before + prior.push(one));
            }
        }
        i = i + 1;
    }
    assert(names@.take(i as int) =~= names@);
}

/// Takes up the capability directives of a layer: the states of the tools, and
/// the directives that name none of them.
fn apply_capability_patch(
    layer: &str,
    patch: &CompiledCapabilityPatch,
    tools: &Vec<(String, CompiledProfileTool)>,
    states: &mut Vec<bool>,
    ignored: &mut Vec<String>,
)
    requires
        old(states)@.len() == tools@.len(),
    ensures
        final(states)@.len() == tools@.len(),
        forall|i: int|
            0 <= i < tools@.len() ==> #[trigger] final(states)@[i] == patched_state(
                old(states)@[i],
                tools@[i].0@,
                *patch,
            ),
        texts(final(ignored)@) == texts(old(ignored)@) + ignored_in(layer@, *patch, tools@),
{
    let ghost before = states@;
    let ghost held = texts(ignored@);
    let mut i: usize = 0;
    while i < tools.len()
        invariant
            i <= tools@.len(),
            states@.len() == tools@.len(),
            before.len() == tools@.len(),
            forall|j: int|
                0 <= j < i ==> #[trigger] states@[j] == patched_state(
                    before[j],
                    tools@[j].0@,
                    *patch,
                ),
            forall|j: int| i <= j < tools@.len() ==> #[trigger] states@[j] == before[j],
        decreases tools@.len() - i,
    {
        if holds_text(&patch.disable, &tools[i].0) {
            states.set(i, false);
        } else if holds_text(&patch.enable, &tools[i].0) {
            states.set(i, true);
        }
        i = i + 1;
    }
    push_ignored(concat2(layer, ":enable:").as_str(), &patch.enable, tools, ignored);
    push_ignored(concat2(layer, ":disable:").as_str(), &patch.disable, tools, ignored);
    proof {
        let a = ignored_names(layer@ + ":enable:"@, patch.enable@, tools@);
        let b = ignored_names(layer@ + ":disable:"@, patch.disable@, tools@);
        assert((held + a) + b =~= held + (a + b));
    }
}

impl ScopeCatalog {
    /// Whether the catalogue's rows are in order.
    pub open spec fn in_order(&self) -> bool {
        layers_in_order(self.workspaces@, self.profiles@, self.sessions@)
    }

    pub fn new(
        global: CompiledScopePatch,
        workspaces: Vec<(String, CompiledScopePatch)>,
        profiles: Vec<(String, CompiledProfile)>,
        sessions: Vec<(SessionId, CompiledSessionScope)>,
    ) -> (r: ScopeCatalog)
        requires
            layers_in_order(workspaces@, profiles@, sessions@),
        ensures
            r == (ScopeCatalog { global, workspaces, profiles, sessions }),
            r.in_order(),
    {
        ScopeCatalog { global, workspaces, profiles, sessions }
    }

    pub fn workspace_count(&self) -> (r: usize)
        ensures
            r == self.workspaces@.len(),
    {
        self.workspaces.len()
    }

    pub fn session_scope_count(&self) -> (r: usize)
        ensures
            r == self.sessions@.len(),
    {
        self.sessions.len()
    }

    fn find_workspace(&self, name: &String) -> (r: Option<&CompiledScopePatch>)
        ensures
            match r {
                Some(p) => workspace_of(self.workspaces@, name@) == Some(*p),
                None => workspace_of(self.workspaces@, name@) is None,
            },
    {
        let rows = &self.workspaces;
        let mut i: usize = 0;
        assert(rows@.skip(0) =~= rows@);
        while i < rows.len()
            invariant
                rows == self.workspaces,
                i <= rows@.len(),
                workspace_of(rows@, name@) == workspace_of(rows@.skip(i as int), name@),
            decreases rows@.len() - i,
        {
            assert(rows@.skip(i as int)[0] == rows@[i as int]);
            assert(rows@.skip(i as int).drop_first() =~= rows@.skip(i + 1));
            if rows[i].0 == *name {
                return Some(&rows[i].1);
            }
            i = i + 1;
        }
        None
    }

    fn find_profile(&self, name: &String) -> (r: Option<&CompiledProfile>)
        ensures
            match r {
                Some(p) => profile_of(self.profiles@, name@) == Some(*p),
                None => profile_of(self.profiles@, name@) is None,
            },
    {
        let rows = &self.profiles;
        let mut i: usize = 0;
        assert(rows@.skip(0) =~= rows@);
        while i < rows.len()
            invariant
                rows == self.profiles,
                i <= rows@.len(),
                profile_of(rows@, name@) == profile_of(rows@.skip(i as int), name@),
            decreases rows@.len() - i,
        {
            assert(rows@.skip(i as int)[0] == rows@[i as int]);
            assert(rows@.skip(i as int).drop_first() =~= rows@.skip(i + 1));
            if rows[i].0 == *name {
                return Some(&rows[i].1);
            }
            i = i + 1;
        }
        None
    }

    fn find_session(&self, id: &SessionId) -> (r: Option<&CompiledSessionScope>)
        ensures
            match r {
                Some(s) => session_of(self.sessions@, id@) == Some(*s),
                None => session_of(self.sessions@, id@) is None,
            },
    {
        let rows = &self.sessions;
        let mut i: usize = 0;
        assert(rows@.skip(0) =~= rows@);
        while i < rows.len()
            invariant
                rows == self.sessions,
                i <= rows@.len(),
                session_of(rows@, id@) == session_of(rows@.skip(i as int), id@),
            decreases rows@.len() - i,
        {
            assert(rows@.skip(i as int)[0] == rows@[i as int]);
            assert(rows@.skip(i as int).drop_first() =~= rows@.skip(i + 1));
            if rows[i].0.same(id) {
                return Some(&rows[i].1);
            }
            i = i + 1;
        }
        None
    }

    pub fn contains_workspace(&self, name: &String) -> (r: bool)
        ensures
            r == (workspace_of(self.workspaces@, name@) is Some),
    {
        self.find_workspace(name).is_some()
    }

    pub fn contains_profile(&self, name: &String) -> (r: bool)
        ensures
            r == (profile_of(self.profiles@, name@) is Some),
    {
        self.find_profile(name).is_some()
    }

    /// The profile that a session is bound to.
    pub fn session_profile(&self, session_id: &SessionId) -> (r: Option<String>)
        ensures
            r == (match session_of(self.sessions@, session_id@) {
                Some(scope) => scope.profile,
                None => None,
            }),
    {
        match self.find_session(session_id) {
            Some(scope) => scope.profile.clone(),
            None => None,
        }
    }

    /// The workspace that a session is bound to.
    pub fn session_workspace(&self, session_id: &SessionId) -> (r: Option<String>)
        ensures
            r == (match session_of(self.sessions@, session_id@) {
                Some(scope) => scope.workspace,
                None => None,
            }),
    {
        match self.find_session(session_id) {
            Some(scope) => scope.workspace.clone(),
            None => None,
        }
    }
}

/// The layers of a selection, as they were found.
struct Found<'a> {
    profile: &'a CompiledProfile,
    workspace: Option<&'a CompiledScopePatch>,
    session: Option<&'a CompiledSessionScope>,
}

/// The layers that were found for a selection.
spec fn found_layers(c: ScopeCatalog, s: ScopeSelection, f: Found) -> Layers {
    Layers {
        global: c.global,
        workspace: match f.workspace {
            Some(patch) => Some((opt_text(s.workspace)->0, *patch)),
            None => None,
        },
        profile_name: s.profile@,
        profile: *f.profile,
        session: match f.session {
            Some(scope) => Some((opt_id(s.session_id)->0, *scope)),
            None => None,
        },
    }
}

/// Whether what was found goes with the selection.
spec fn found_for(s: ScopeSelection, f: Found) -> bool {
    &&& s.workspace is Some <==> f.workspace is Some
    &&& f.session is Some ==> s.session_id is Some
}

/// Of four values that may be missing, the last that is there.
fn latest<T>(
    global: Option<T>,
    workspace: Option<T>,
    profile: Option<T>,
    session: Option<T>,
) -> (r: Option<T>)
    ensures
        r == last_set(global, workspace, profile, session),
{
    if session.is_some() {
        session
    } else if profile.is_some() {
        profile
    } else if workspace.is_some() {
        workspace
    } else {
        global
    }
}

fn quoted_opt_text(o: &Option<String>) -> (r: String)
    ensures
        r@ == quoted_option(opt_text(*o)),
{
    match o {
        Some(s) => concat3("Some(", quoted_text(s.as_str()).as_str(), ")"),
        None => "None".to_owned(),
    }
}

impl ScopeCatalog {
    fn find_layers(&self, selection: &ScopeSelection) -> (r: Result<Found<'_>, HarnessConfigError>)
        ensures
            match r {
                Ok(f) => found_for(*selection, f) && layers_of(*self, *selection) == Ok::<
                    Layers,
                    ConfigErrorView,
                >(found_layers(*self, *selection, f)),
                Err(e) => layers_of(*self, *selection) == Err::<Layers, ConfigErrorView>(e@),
            },
    {
        let profile = match self.find_profile(&selection.profile) {
            Some(profile) => profile,
            None => {
                return Err(
                    HarnessConfigError::Invalid(
                        concat3(
                            "scope references profile ",
                            quoted_text(selection.profile.as_str()).as_str(),
                            ", which is not configured",
                        ),
                    ),
                );
            },
        };
        let workspace = match &selection.workspace {
            None => None,
            Some(name) => match self.find_workspace(name) {
                Some(patch) => Some(patch),
                None => {
                    return Err(
                        HarnessConfigError::Invalid(
                            concat3(
                                "scope references workspace ",
                                quoted_text(name.as_str()).as_str(),
                                ", which is not configured",
                            ),
                        ),
                    );
                },
            },
        };
        let session = match &selection.session_id {
            None => None,
            Some(id) => self.find_session(id),
        };
        if let Some(scope) = session {
            if let Some(bound) = &scope.profile {
                if *bound != selection.profile {
                    return Err(
                        HarnessConfigError::Invalid(
                            concat4(
                                "session scope binds profile ",
                                quoted_text(bound.as_str()).as_str(),
                                ", but resolution requested ",
                                quoted_text(selection.profile.as_str()).as_str(),
                            ),
                        ),
                    );
                }
            }
            if let Some(bound) = &scope.workspace {
                if !same_opt_text(&scope.workspace, &selection.workspace) {
                    return Err(
                        HarnessConfigError::Invalid(
                            concat4(
                                "session scope binds workspace ",
                                quoted_text(bound.as_str()).as_str(),
                                ", but resolution requested ",
                                quoted_opt_text(&selection.workspace).as_str(),
                            ),
                        ),
                    );
                }
            }
        }
        Ok(Found { profile, workspace, session })
    }

    fn resolve_layers(&self, selection: &ScopeSelection, found: &Found<'_>) -> (r: Vec<String>)
        requires
            found_for(*selection, *found),
        ensures
            texts(r@) == layer_names(found_layers(*self, *selection, *found)),
    {
        let mut layers: Vec<String> = Vec::new();
        layers.push("global".to_owned());
        if let Some(name) = &selection.workspace {
            layers.push(concat2("workspace:", name.as_str()));
        }
        layers.push(concat2("profile:", selection.profile.as_str()));
        if found.session.is_some() {
            if let Some(id) = &selection.session_id {
                layers.push(concat2("session:", id.as_str()));
            }
        }
        assert(texts(layers@) =~= layer_names(found_layers(*self, *selection, *found)));
        layers
    }

    fn resolve_prompts(&self, selection: &ScopeSelection, found: &Found<'_>) -> (r: Vec<
        PromptFragmentTrace,
    >)
        requires
            found_for(*selection, *found),
        ensures
            fragments_view(r@) == fragments_of(found_layers(*self, *selection, *found)),
    {
        let mut fragments: Vec<PromptFragmentTrace> = Vec::new();
        assert(fragments_view(fragments@) =~= Seq::empty());
        apply_prompt("global", &self.global.system, self.global.system_mode, &mut fragments);
        if let Some(patch) = found.workspace {
            if let Some(name) = &selection.workspace {
                let label = concat2("workspace:", name.as_str());
                apply_prompt(label.as_str(), &patch.system, patch.system_mode, &mut fragments);
            }
        }
        let label = concat2("profile:", selection.profile.as_str());
        apply_prompt(
            label.as_str(),
            &found.profile.system,
            PromptMode::Append,
            &mut fragments,
        );
        if let Some(scope) = found.session {
            if let Some(id) = &selection.session_id {
                let label = concat2("session:", id.as_str());
                apply_prompt(
                    label.as_str(),
                    &scope.patch.system,
                    scope.patch.system_mode,
                    &mut fragments,
                );
            }
        }
        fragments
    }

    fn resolve_tools(&self, selection: &ScopeSelection, found: &Found<'_>) -> (r: (
        Vec<bool>,
        Vec<String>,
    ))
        requires
            found_for(*selection, *found),
        ensures
            r.0@.len() == found.profile.tools@.len(),
            forall|i: int|
                0 <= i < r.0@.len() ==> #[trigger] r.0@[i] == tool_enabled(
                    found_layers(*self, *selection, *found),
                    found.profile.tools@[i],
                ),
            texts(r.1@) == ignored_of(found_layers(*self, *selection, *found)),
    {
        let ghost l = found_layers(*self, *selection, *found);
        let tools = &found.profile.tools;
        let mut states: Vec<bool> = Vec::new();
        let mut ignored: Vec<String> = Vec::new();
        let mut i: usize = 0;
        while i < tools.len()
            invariant
                i <= tools@.len(),
                states@.len() == i,
                forall|j: int| 0 <= j < i ==> #[trigger] states@[j],
            decreases tools@.len() - i,
        {
            states.push(true);
            i = i + 1;
        }
        assert(texts(ignored@) =~= Seq::empty());
        apply_capability_patch(
            "global",
            &self.global.capabilities,
            tools,
            &mut states,
            &mut ignored,
        );
        let ghost first = ignored_in("global"@, self.global.capabilities, tools@);
        assert(texts(ignored@) =~= first);
        let ghost after_global = states@;
        if let Some(patch) = found.workspace {
            if let Some(name) = &selection.workspace {
                let label = concat2("workspace:", name.as_str());
                apply_capability_patch(
                    label.as_str(),
                    &patch.capabilities,
                    tools,
                    &mut states,
                    &mut ignored,
                );
            }
        }
        let ghost outer = states@;
        let mut k: usize = 0;
        while k < tools.len()
            invariant
                k <= tools@.len(),
                states@.len() == tools@.len(),
                outer.len() == tools@.len(),
                forall|j: int|
                    0 <= j < k ==> #[trigger] states@[j] == (match tools@[j].1.enabled {
                        Some(enabled) => enabled,
                        None => outer[j],
                    }),
                forall|j: int| k <= j < tools@.len() ==> #[trigger] states@[j] == outer[j],
            decreases tools@.len() - k,
        {
            if let Some(enabled) = tools[k].1.enabled {
                states.set(k, enabled);
            }
            k = k + 1;
        }
        let ghost inner = states@;
        if let Some(scope) = found.session {
            if let Some(id) = &selection.session_id {
                let label = concat2("session:", id.as_str());
                apply_capability_patch(
                    label.as_str(),
                    &scope.patch.capabilities,
                    tools,
                    &mut states,
                    &mut ignored,
                );
            }
        }
        assert forall|i: int| 0 <= i < states@.len() implies #[trigger] states@[i] == tool_enabled(
            l,
            tools@[i],
        ) by {
            assert(after_global[i] == patched_state(
                true,
                tools@[i].0@,
                self.global.capabilities,
            ));
            let o = outer[i];
            let n = inner[i];
        }
        (states, ignored)
    }

    /// Resolves a selection.
    pub fn resolve(&self, selection: ScopeSelection) -> (r: Result<
        ResolvedScope,
        HarnessConfigError,
    >)
        ensures
            is_resolution(*self, selection, r),
    {
        let found = match self.find_layers(&selection) {
            Ok(found) => found,
            Err(error) => {
                return Err(error);
            },
        };
        let ghost l = found_layers(*self, selection, found);
        let layers = self.resolve_layers(&selection, &found);
        let prompt_fragments = self.resolve_prompts(&selection, &found);
        let system_prompt = compose_prompt(&prompt_fragments);
        let profile = found.profile;
        let global = &self.global;
        let workspace_model = match found.workspace {
            Some(patch) => (
                patch.model.provider.clone(),
                patch.model.model.clone(),
                patch.model.timeout_ms,
                patch.model.max_output_tokens,
                patch.policy,
                patch.max_automatic_tool_attempts,
            ),
            None => (None, None, None, None, None, None),
        };
        let session_model = match found.session {
            Some(scope) => (
                scope.patch.model.provider.clone(),
                scope.patch.model.model.clone(),
                scope.patch.model.timeout_ms,
                scope.patch.model.max_output_tokens,
                scope.patch.policy,
                scope.patch.max_automatic_tool_attempts,
            ),
            None => (None, None, None, None, None, None),
        };
        let provider = match latest(
            global.model.provider.clone(),
            workspace_model.0,
            Some(profile.model_provider.clone()),
            session_model.0,
        ) {
            Some(provider) => provider,
            None => profile.model_provider.clone(),
        };
        let model_name = match latest(
            global.model.model.clone(),
            workspace_model.1,
            Some(profile.model.clone()),
            session_model.1,
        ) {
            Some(model) => model,
            None => profile.model.clone(),
        };
        let timeout_ms: u64 = match latest(
            global.model.timeout_ms,
            workspace_model.2,
            profile.timeout_ms,
            session_model.2,
        ) {
            Some(timeout_ms) => timeout_ms,
            None => DEFAULT_MODEL_TIMEOUT_MS,
        };
        let max_output_tokens: Option<u32> = latest(
            global.model.max_output_tokens,
            workspace_model.3,
            profile.max_output_tokens,
            session_model.3,
        );
        let max_automatic_tool_attempts: u32 = match latest(
            global.max_automatic_tool_attempts,
            workspace_model.5,
            profile.max_automatic_tool_attempts,
            session_model.5,
        ) {
            Some(attempts) => attempts,
            None => DEFAULT_MAX_AUTOMATIC_TOOL_ATTEMPTS,
        };
        let policy = match latest(
            global.policy,
            workspace_model.4,
            profile.policy,
            session_model.4,
        ) {
            Some(policy) => policy,
            None => {
                return Err(
                    HarnessConfigError::Invalid(
                        concat3(
                            "scope for profile ",
                            quoted_text(selection.profile.as_str()).as_str(),
                            " does not resolve a Tool policy",
                        ),
                    ),
                );
            },
        };
        let (states, ignored) = self.resolve_tools(&selection, &found);
        let tools = &profile.tools;
        let mut enabled_tools: Vec<String> = Vec::new();
        let mut disabled_tools: Vec<String> = Vec::new();
        let mut enabled: Vec<RuntimeToolBinding> = Vec::new();
        let mut i: usize = 0;
        assert(texts(enabled_tools@) =~= tools_in_state(l, tools@.take(0), true));
        assert(texts(disabled_tools@) =~= tools_in_state(l, tools@.take(0), false));
        assert(bindings(enabled@) =~= enabled_bindings(l, tools@.take(0)));
        while i < tools.len()
            invariant
                i <= tools@.len(),
                states@.len() == tools@.len(),
                forall|j: int|
                    0 <= j < states@.len() ==> #[trigger] states@[j] == tool_enabled(l, tools@[j]),
                texts(enabled_tools@) == tools_in_state(l, tools@.take(i as int), true),
                texts(disabled_tools@) == tools_in_state(l, tools@.take(i as int), false),
                bindings(enabled@) == enabled_bindings(l, tools@.take(i as int)),
            decreases tools@.len() - i,
        {
            let ghost on = enabled_tools@;
            let ghost off = disabled_tools@;
            let ghost bound = enabled@;
            assert(tools@.take(i + 1).drop_last() =~= tools@.take(i as int));
            assert(tools@.take(i + 1).last() == tools@[i as int]);
            assert(states@[i as int] == tool_enabled(l, tools@[i as int]));
            if states[i] {
                enabled_tools.push(tools[i].0.clone());
                enabled.push(tools[i].1.binding.clone());
                assert(texts(enabled_tools@) =~= texts(on).push(tools@[i as int].0@));
                assert(bindings(enabled@) =~= bindings(bound).push(tools@[i as int].1.binding@));
            } else {
                disabled_tools.push(tools[i].0.clone());
                assert(texts(disabled_tools@) =~= texts(off).push(tools@[i as int].0@));
            }
            i = i + 1;
        }
        assert(tools@.take(i as int) =~= tools@);
        let agent_profile = AgentProfile {
            model: ModelBinding {
                provider: provider.clone(),
                model: model_name.clone(),
                options: ModelOptions { max_output_tokens },
                timeout_ms,
                system: system_prompt.clone(),
            },
            policy,
            max_automatic_tool_attempts,
            tools: enabled,
        };
        let session_id = match &selection.session_id {
            Some(id) => Some(id.as_str().to_owned()),
            None => None,
        };
        let trace = ScopeResolutionTrace {
            profile: selection.profile.clone(),
            workspace: selection.workspace.clone(),
            session_id,
            layers,
            prompt_fragments,
            system_prompt,
            model: ResolvedModelTrace {
                provider: provider.into_string(),
                model: model_name,
                timeout_ms,
                max_output_tokens,
            },
            enabled_tools,
            disabled_tools,
            ignored_capability_directives: ignored,
            policy: policy_name(policy).to_owned(),
            max_automatic_tool_attempts,
        };
        assert(agent_profile@.model.provider == provider_of(l)->0);
        assert(agent_profile@.model.model == model_of(l)->0);
        assert(agent_profile@ == layered_profile(l));
        assert(trace@ == layered_trace(l, selection));
        Ok(ResolvedScope { selection, agent_profile, trace })
    }
}

impl ResolvedScope {
    pub fn selection(&self) -> (r: &ScopeSelection)
        ensures
            *r == self.selection,
    {
        &self.selection
    }

    pub fn profile_name(&self) -> (r: &str)
        ensures
            r@ == self.selection.profile@,
    {
        self.selection.profile()
    }

    pub fn workspace(&self) -> (r: &Option<String>)
        ensures
            *r == self.selection.workspace,
    {
        &self.selection.workspace
    }

    pub fn session_id(&self) -> (r: &Option<SessionId>)
        ensures
            *r == self.selection.session_id,
    {
        &self.selection.session_id
    }

    pub fn trace(&self) -> (r: &ScopeResolutionTrace)
        ensures
            *r == self.trace,
    {
        &self.trace
    }

    pub fn agent_profile(&self) -> (r: &AgentProfile)
        ensures
            *r == self.agent_profile,
    {
        &self.agent_profile
    }
}

/// Every tool of the profile is either enabled or disabled, in the profile's
/// order; directives never add a tool.
pub proof fn law_tools_are_partitioned(l: Layers, tools: Seq<(String, CompiledProfileTool)>)
    ensures
        tools_in_state(l, tools, true).len() + tools_in_state(l, tools, false).len()
            == tools.len(),
        enabled_bindings(l, tools).len() == tools_in_state(l, tools, true).len(),
        forall|b: bool, i: int|
            0 <= i < tools_in_state(l, tools, b).len() ==> is_tool(
                tools,
                #[trigger] tools_in_state(l, tools, b)[i],
            ),
    decreases tools.len(),
{
    if tools.len() > 0 {
        let rest = tools.drop_last();
        law_tools_are_partitioned(l, rest);
        assert forall|b: bool, i: int| 0 <= i < tools_in_state(l, tools, b).len() implies is_tool(
            tools,
            #[trigger] tools_in_state(l, tools, b)[i],
        ) by {
            let name = tools_in_state(l, tools, b)[i];
            if i < tools_in_state(l, rest, b).len() {
                assert(tools_in_state(l, rest, b)[i] == name);
                assert(is_tool(rest, name));
                let k = choose|k: int| 0 <= k < rest.len() && (#[trigger] rest[k]).0@ == name;
                assert(tools[k].0@ == name);
            } else {
                assert(tools[tools.len() - 1].0@ == name);
            }
        }
    }
}

proof fn lemma_profile_is_a_row(s: Seq<(String, CompiledProfile)>, name: Seq<char>) -> (i: int)
    requires
        profile_of(s, name) is Some,
    ensures
        0 <= i < s.len(),
        profile_of(s, name) == Some(s[i].1),
    decreases s.len(),
{
    if s[0].0@ == name {
        0
    } else {
        1 + lemma_profile_is_a_row(s.drop_first(), name)
    }
}

proof fn lemma_names_in_state_ascend(
    l: Layers,
    tools: Seq<(String, CompiledProfileTool)>,
    state: bool,
)
    requires
        ascending(names_of(tools)),
    ensures
        ascending(tools_in_state(l, tools, state)),
    decreases tools.len(),
{
    if tools.len() > 0 {
        let rest = tools.drop_last();
        let names = names_of(tools);
        assert forall|i: int, j: int| 0 <= i < j < rest.len() implies text_before(
            #[trigger] names_of(rest)[i],
            #[trigger] names_of(rest)[j],
        ) by {
            assert(names_of(rest)[i] == names[i]);
            assert(names_of(rest)[j] == names[j]);
        }
        lemma_names_in_state_ascend(l, rest, state);
        law_tools_are_partitioned(l, rest);
        let before = tools_in_state(l, rest, state);
        assert forall|i: int| 0 <= i < before.len() implies text_before(
            #[trigger] before[i],
            tools.last().0@,
        ) by {
            assert(is_tool(rest, tools_in_state(l, rest, state)[i]));
            let k = choose|k: int| 0 <= k < rest.len() && (#[trigger] rest[k]).0@ == before[i];
            assert(names[k] == before[i]);
            assert(names[tools.len() - 1] == tools.last().0@);
        }
    }
}

/// The enabled and the disabled tools of a scope ascend by their names.
pub proof fn law_tool_names_ascend(c: ScopeCatalog, s: ScopeSelection, l: Layers)
    requires
        c.in_order(),
        layers_of(c, s) == Ok::<Layers, ConfigErrorView>(l),
    ensures
        ascending(layered_trace(l, s).enabled_tools),
        ascending(layered_trace(l, s).disabled_tools),
{
    let i = lemma_profile_is_a_row(c.profiles@, s.profile@);
    assert(l.profile == c.profiles@[i].1);
    lemma_names_in_state_ascend(l, l.profile.tools@, true);
    lemma_names_in_state_ascend(l, l.profile.tools@, false);
}

/// What a session sets wins over everything else, and what a profile sets over
/// the workspace and the global settings.
pub proof fn law_inner_layers_win<T>(
    global: Option<T>,
    workspace: Option<T>,
    profile: Option<T>,
    session: Option<T>,
)
    ensures
        session is Some ==> last_set(global, workspace, profile, session) == session,
        session is None && profile is Some ==> last_set(global, workspace, profile, session)
            == profile,
        session is None && profile is None && workspace is Some ==> last_set(
            global,
            workspace,
            profile,
            session,
        ) == workspace,
{
}

/// A session directive decides over a tool whatever the other layers say, and
/// disabling wins within one layer.
pub proof fn law_session_directives_decide(
    l: Layers,
    tool: (String, CompiledProfileTool),
    id: Seq<char>,
    scope: CompiledSessionScope,
)
    requires
        l.session == Some((id, scope)),
    ensures
        has_text(scope.patch.capabilities.disable@, tool.0@) ==> !tool_enabled(l, tool),
        has_text(scope.patch.capabilities.enable@, tool.0@) && !has_text(
            scope.patch.capabilities.disable@,
            tool.0@,
        ) ==> tool_enabled(l, tool),
{
}

/// A workspace is found by its name, and none is found under a name that none has.
pub proof fn law_workspaces_are_found_by_name(s: Seq<(String, CompiledScopePatch)>, name: Seq<char>)
    ensures
        match workspace_of(s, name) {
            Some(found) => exists|i: int|
                0 <= i < s.len() && (#[trigger] s[i]).0@ == name && s[i].1 == found,
            None => forall|i: int| 0 <= i < s.len() ==> (#[trigger] s[i]).0@ != name,
        },
    decreases s.len(),
{
    if s.len() > 0 {
        let rest = s.drop_first();
        law_workspaces_are_found_by_name(rest, name);
        if s[0].0@ == name {
        } else if let Some(found) = workspace_of(rest, name) {
            let i = choose|i: int|
                0 <= i < rest.len() && (#[trigger] rest[i]).0@ == name && rest[i].1 == found;
            assert(s[i + 1].0@ == name);
        } else {
            assert forall|i: int| 0 <= i < s.len() implies (#[trigger] s[i]).0@ != name by {
                if i > 0 {
                    assert(rest[i - 1] == s[i]);
                }
            }
        }
    }
}

/// A profile is found by its name, and none is found under a name that none has.
pub proof fn law_profiles_are_found_by_name(s: Seq<(String, CompiledProfile)>, name: Seq<char>)
    ensures
        match profile_of(s, name) {
            Some(found) => exists|i: int|
                0 <= i < s.len() && (#[trigger] s[i]).0@ == name && s[i].1 == found,
            None => forall|i: int| 0 <= i < s.len() ==> (#[trigger] s[i]).0@ != name,
        },
    decreases s.len(),
{
    if s.len() > 0 {
        let rest = s.drop_first();
        law_profiles_are_found_by_name(rest, name);
        if s[0].0@ == name {
        } else if let Some(found) = profile_of(rest, name) {
            let i = choose|i: int|
                0 <= i < rest.len() && (#[trigger] rest[i]).0@ == name && rest[i].1 == found;
            assert(s[i + 1].0@ == name);
        } else {
            assert forall|i: int| 0 <= i < s.len() implies (#[trigger] s[i]).0@ != name by {
                if i > 0 {
                    assert(rest[i - 1] == s[i]);
                }
            }
        }
    }
}

/// A session is found by its identifier, and none is found under one that none has.
pub proof fn law_sessions_are_found_by_id(s: Seq<(SessionId, CompiledSessionScope)>, name: Seq<char>)
    ensures
        match session_of(s, name) {
            Some(found) => exists|i: int|
                0 <= i < s.len() && (#[trigger] s[i]).0@ == name && s[i].1 == found,
            None => forall|i: int| 0 <= i < s.len() ==> (#[trigger] s[i]).0@ != name,
        },
    decreases s.len(),
{
    if s.len() > 0 {
        let rest = s.drop_first();
        law_sessions_are_found_by_id(rest, name);
        if s[0].0@ == name {
        } else if let Some(found) = session_of(rest, name) {
            let i = choose|i: int|
                0 <= i < rest.len() && (#[trigger] rest[i]).0@ == name && rest[i].1 == found;
            assert(s[i + 1].0@ == name);
        } else {
            assert forall|i: int| 0 <= i < s.len() implies (#[trigger] s[i]).0@ != name by {
                if i > 0 {
                    assert(rest[i - 1] == s[i]);
                }
            }
        }
    }
}

/// The layers that a selection names are configured: the workspace and the session where
/// they are asked for, and always the profile.
pub open spec fn selects(
    c: ScopeCatalog,
    s: ScopeSelection,
    workspace: Option<CompiledScopePatch>,
    profile: CompiledProfile,
    session: Option<CompiledSessionScope>,
) -> bool {
    &&& profile_of(c.profiles@, s.profile@) == Some(profile)
    &&& match s.workspace {
        Some(name) => workspace is Some && workspace_of(c.workspaces@, name@) == workspace,
        None => workspace is None,
    }
    &&& match s.session_id {
        Some(id) => session_of(c.sessions@, id@) == session,
        None => session is None,
    }
}

/// A selection resolves if and only if its profile and its workspace are configured, its
/// session is bound to no other profile or workspace, and a layer sets a policy. A session
/// for which nothing is configured is no obstacle.
pub proof fn law_selections_resolve(
    c: ScopeCatalog,
    s: ScopeSelection,
    r: Result<ResolvedScope, HarnessConfigError>,
)
    requires
        is_resolution(c, s, r),
    ensures
        r is Ok <==> {
            &&& profile_of(c.profiles@, s.profile@) matches Some(profile)
            &&& s.workspace matches Some(name) ==> workspace_of(c.workspaces@, name@) is Some
            &&& s.session_id matches Some(id) ==> (session_of(c.sessions@, id@) matches Some(bound)
                ==> {
                &&& bound.profile matches Some(p) ==> p@ == s.profile@
                &&& bound.workspace matches Some(w) ==> (s.workspace matches Some(name) && name@
                    == w@)
            })
            &&& c.global.policy is Some || profile.policy is Some || (s.workspace matches Some(name)
                && workspace_of(c.workspaces@, name@)->0.policy is Some) || (
            s.session_id matches Some(id) && (session_of(c.sessions@, id@) matches Some(bound)
                && bound.patch.policy is Some))
        },
        r is Err ==> r->Err_0@ is Invalid,
{
}

/// What was selected is what was resolved, and the layers are named from the outermost to
/// the innermost.
pub proof fn law_layers_are_named_in_order(
    c: ScopeCatalog,
    s: ScopeSelection,
    scope: ResolvedScope,
    workspace: Option<CompiledScopePatch>,
    profile: CompiledProfile,
    session: Option<CompiledSessionScope>,
)
    requires
        is_resolution(c, s, Ok(scope)),
        selects(c, s, workspace, profile, session),
    ensures
        ({
            let names = scope.trace@.layers;
            let middle: int = if s.workspace is Some {
                2
            } else {
                1
            };
            &&& scope.selection == s
            &&& scope.trace@.profile == s.profile@
            &&& scope.trace@.workspace == opt_text(s.workspace)
            &&& scope.trace@.session_id == opt_id(s.session_id)
            &&& names.len() == middle + 1 + (if session is Some {
                1int
            } else {
                0
            })
            &&& names[0] == "global"@
            &&& s.workspace matches Some(name) ==> names[1] == "workspace:"@ + name@
            &&& names[middle] == "profile:"@ + s.profile@
            &&& session is Some ==> names.last() == "session:"@ + s.session_id->0@
        }),
{
}

/// Whether a layer says something.
pub open spec fn says(system: Option<String>) -> bool {
    system matches Some(text) && exists|i: int|
        0 <= i < text@.len() && !is_white_space(#[trigger] text@[i])
}

/// Whether a layer that may be missing says something in place of the layers before it.
pub open spec fn replaces(patch: Option<CompiledScopePatch>) -> bool {
    patch matches Some(p) && says(p.system) && p.system_mode == PromptMode::Replace
}

/// What a layer adds to the prompt.
pub open spec fn is_said_by(
    f: FragmentView,
    layer: Seq<char>,
    system: Option<String>,
    mode: PromptMode,
) -> bool {
    &&& f.layer == layer
    &&& system matches Some(text) && f.text == text@
    &&& mode == PromptMode::Replace ==> f.mode == "replace"@
    &&& mode == PromptMode::Append ==> f.mode == "append"@
}

/// What every layer says is part of the prompt, in the order of the layers, unless an inner
/// layer replaces it; and nothing else is. The result gives the places of what the global
/// settings, the workspace, the profile and the session say.
#[verifier::rlimit(40)]
pub proof fn law_layers_are_heard(
    c: ScopeCatalog,
    s: ScopeSelection,
    scope: ResolvedScope,
    workspace: Option<CompiledScopePatch>,
    profile: CompiledProfile,
    session: Option<CompiledSessionScope>,
) -> (at: (int, int, int, int))
    requires
        is_resolution(c, s, Ok(scope)),
        selects(c, s, workspace, profile, session),
    ensures
        ({
            let said = scope.trace@.prompt_fragments;
            let patch = match session {
                Some(bound) => Some(bound.patch),
                None => None,
            };
            let first = says(c.global.system) && !replaces(workspace) && !replaces(patch);
            let second = workspace matches Some(w) && says(w.system) && !replaces(patch);
            let third = says(profile.system) && !replaces(patch);
            let fourth = patch matches Some(p) && says(p.system);
            &&& 0 <= at.0 <= at.1 <= at.2 <= at.3 <= said.len()
            &&& at.1 == at.0 + count(first) && at.2 == at.1 + count(second) && at.3 == at.2 + count(
                third,
            ) && said.len() == at.3 + count(fourth) && at.0 == 0
            &&& first ==> is_said_by(
                said[at.0],
                "global"@,
                c.global.system,
                c.global.system_mode,
            )
            &&& second ==> is_said_by(
                said[at.1],
                "workspace:"@ + s.workspace->0@,
                workspace->0.system,
                workspace->0.system_mode,
            )
            &&& third ==> is_said_by(
                said[at.2],
                "profile:"@ + s.profile@,
                profile.system,
                PromptMode::Append,
            )
            &&& fourth ==> is_said_by(
                said[at.3],
                "session:"@ + s.session_id->0@,
                patch->0.system,
                patch->0.system_mode,
            )
        }),
{
    let patch = match session {
        Some(bound) => Some(bound.patch),
        None => None,
    };
    lemma_says(c.global.system);
    lemma_says(profile.system);
    if workspace is Some {
        lemma_says(workspace->0.system);
    }
    if session is Some {
        lemma_says(session->0.patch.system);
    }
    let first = says(c.global.system) && !replaces(workspace) && !replaces(patch);
    let second = workspace matches Some(w) && says(w.system) && !replaces(patch);
    let third = says(profile.system) && !replaces(patch);
    (0, count(first), count(first) + count(second), count(first) + count(second) + count(third))
}

/// One if `b` holds.
pub open spec fn count(b: bool) -> int {
    if b {
        1
    } else {
        0
    }
}

proof fn lemma_says(system: Option<String>)
    ensures
        says(system) == (system matches Some(text) && !is_blank(text@)),
{
    if let Some(text) = system {
        if !is_blank(text@) {
            let i = choose|i: int| 0 <= i < text@.len() && !is_white_space(#[trigger] text@[i]);
            assert(!is_white_space(text@[i]));
        }
    }
}

/// What a session says comes last: its text ends the prompt, and where it replaces what the
/// other layers say it is the whole prompt.
pub proof fn law_session_has_the_last_word(
    c: ScopeCatalog,
    s: ScopeSelection,
    scope: ResolvedScope,
    id: SessionId,
    bound: CompiledSessionScope,
    text: String,
)
    requires
        is_resolution(c, s, Ok(scope)),
        s.session_id == Some(id),
        session_of(c.sessions@, id@) == Some(bound),
        bound.patch.system == Some(text),
        says(bound.patch.system),
    ensures
        ({
            let said = scope.trace@.prompt_fragments;
            &&& said.len() > 0
            &&& said.last().layer == "session:"@ + id@
            &&& said.last().text == text@
            &&& bound.patch.system_mode == PromptMode::Replace ==> said.len() == 1
            &&& scope.trace@.system_prompt matches Some(prompt)
            &&& text@.len() <= prompt.len()
            &&& prompt.skip(prompt.len() - text@.len()) == text@
            &&& bound.patch.system_mode == PromptMode::Replace ==> prompt == text@
            &&& scope.agent_profile@.model.system == Some(prompt)
        }),
{
    lemma_says(bound.patch.system);
    let said = scope.trace@.prompt_fragments;
    let prompt = joined_prompts(said);
    assert(prompt.skip(prompt.len() - text@.len()) =~= text@);
}

/// A session that appends to the prompt leaves what the other layers say as it is without
/// the session.
pub proof fn law_session_appends(
    c: ScopeCatalog,
    s: ScopeSelection,
    t: ScopeSelection,
    scope: ResolvedScope,
    without: ResolvedScope,
    id: SessionId,
    bound: CompiledSessionScope,
)
    requires
        is_resolution(c, s, Ok(scope)),
        is_resolution(c, t, Ok(without)),
        s.session_id == Some(id),
        session_of(c.sessions@, id@) == Some(bound),
        t.session_id is None,
        t.profile@ == s.profile@,
        opt_text(t.workspace) == opt_text(s.workspace),
    ensures
        says(bound.patch.system) && bound.patch.system_mode == PromptMode::Append
            ==> scope.trace@.prompt_fragments.drop_last() == without.trace@.prompt_fragments,
        !says(bound.patch.system) ==> scope.trace@.prompt_fragments
            == without.trace@.prompt_fragments,
{
    lemma_says(bound.patch.system);
    assert(without.trace@.prompt_fragments.push(scope.trace@.prompt_fragments.last()).drop_last()
        =~= without.trace@.prompt_fragments);
}

/// The prompt is what the layers say, with a blank line between each two; there is none
/// where no layer says anything.
pub proof fn law_prompt_joins_what_is_said(said: Seq<FragmentView>, next: FragmentView)
    ensures
        prompt_of(Seq::empty()) is None,
        prompt_of(seq![next]) == Some(next.text),
        said.len() > 0 ==> prompt_of(said.push(next)) == Some(
            prompt_of(said)->0 + "\n\n"@ + next.text,
        ),
{
    assert(said.push(next).drop_last() =~= said);
}

/// The prompt of the resolved profile and of its trace is what the fragments add up to.
pub proof fn law_prompt_is_that_of_the_trace(
    c: ScopeCatalog,
    s: ScopeSelection,
    scope: ResolvedScope,
)
    requires
        is_resolution(c, s, Ok(scope)),
    ensures
        scope.trace@.system_prompt == prompt_of(scope.trace@.prompt_fragments),
        scope.agent_profile@.model.system == scope.trace@.system_prompt,
{
}

/// What the innermost layer that sets a value sets; `fallback` where none does.
pub open spec fn innermost<T>(
    session: Option<T>,
    profile: Option<T>,
    workspace: Option<T>,
    global: Option<T>,
    fallback: T,
) -> T {
    match (session, profile, workspace, global) {
        (Some(t), _, _, _) => t,
        (None, Some(t), _, _) => t,
        (None, None, Some(t), _) => t,
        (None, None, None, Some(t)) => t,
        (None, None, None, None) => fallback,
    }
}

/// A limit that is set, as a setting that may also be the absence of a limit.
pub open spec fn opt_opt(o: Option<u32>) -> Option<Option<u32>> {
    match o {
        Some(n) => Some(Some(n)),
        None => None,
    }
}

/// Every setting comes from the innermost layer that makes it: the session, then the
/// profile, then the workspace, then the global settings, then the default. The trace says
/// what the profile has.
pub proof fn law_settings_come_from_the_innermost_layer(
    c: ScopeCatalog,
    s: ScopeSelection,
    scope: ResolvedScope,
    workspace: Option<CompiledScopePatch>,
    profile: CompiledProfile,
    session: Option<CompiledSessionScope>,
)
    requires
        is_resolution(c, s, Ok(scope)),
        selects(c, s, workspace, profile, session),
    ensures
        ({
            let got = scope.agent_profile@;
            let said = scope.trace@;
            &&& got.model.provider == (match session {
                Some(bound) if bound.patch.model.provider is Some => {
                    bound.patch.model.provider->0@
                },
                _ => profile.model_provider@,
            })
            &&& got.model.model == (match session {
                Some(bound) if bound.patch.model.model is Some => bound.patch.model.model->0@,
                _ => profile.model@,
            })
            &&& got.model.timeout_ms == innermost(
                match session {
                    Some(bound) => bound.patch.model.timeout_ms,
                    None => None,
                },
                profile.timeout_ms,
                match workspace {
                    Some(patch) => patch.model.timeout_ms,
                    None => None,
                },
                c.global.model.timeout_ms,
                120_000,
            )
            &&& got.model.options.max_output_tokens == innermost(
                match session {
                    Some(bound) => opt_opt(bound.patch.model.max_output_tokens),
                    None => None,
                },
                opt_opt(profile.max_output_tokens),
                match workspace {
                    Some(patch) => opt_opt(patch.model.max_output_tokens),
                    None => None,
                },
                opt_opt(c.global.model.max_output_tokens),
                None,
            )
            &&& got.max_automatic_tool_attempts == innermost(
                match session {
                    Some(bound) => bound.patch.max_automatic_tool_attempts,
                    None => None,
                },
                profile.max_automatic_tool_attempts,
                match workspace {
                    Some(patch) => patch.max_automatic_tool_attempts,
                    None => None,
                },
                c.global.max_automatic_tool_attempts,
                2,
            )
            &&& said.provider == got.model.provider
            &&& said.model == got.model.model
            &&& said.timeout_ms == got.model.timeout_ms
            &&& said.max_output_tokens == got.model.options.max_output_tokens
            &&& said.max_automatic_tool_attempts == got.max_automatic_tool_attempts
            &&& got.policy == PolicyConfig::AllowAll && said.policy == "allow-all"@
        }),
{
}

/// What a layer says about a tool; disabling wins.
pub open spec fn directive(patch: CompiledCapabilityPatch, name: Seq<char>) -> Option<bool> {
    if exists|i: int| 0 <= i < patch.disable@.len() && (#[trigger] patch.disable@[i])@ == name {
        Some(false)
    } else if exists|i: int|
        0 <= i < patch.enable@.len() && (#[trigger] patch.enable@[i])@ == name {
        Some(true)
    } else {
        None
    }
}

/// A tool of the profile is enabled if the innermost layer that says anything about it says
/// so, or if none says anything. An enabled tool is bound and listed as enabled, any other
/// is listed as disabled.
pub proof fn law_tools_follow_the_innermost_directive(
    c: ScopeCatalog,
    s: ScopeSelection,
    scope: ResolvedScope,
    workspace: Option<CompiledScopePatch>,
    profile: CompiledProfile,
    session: Option<CompiledSessionScope>,
    k: int,
) -> (at: int)
    requires
        is_resolution(c, s, Ok(scope)),
        selects(c, s, workspace, profile, session),
        0 <= k < profile.tools@.len(),
    ensures
        ({
            let tool = profile.tools@[k];
            let on = innermost(
                match session {
                    Some(bound) => directive(bound.patch.capabilities, tool.0@),
                    None => None,
                },
                tool.1.enabled,
                match workspace {
                    Some(patch) => directive(patch.capabilities, tool.0@),
                    None => None,
                },
                directive(c.global.capabilities, tool.0@),
                true,
            );
            let enabled = scope.trace@.enabled_tools;
            let disabled = scope.trace@.disabled_tools;
            &&& enabled.len() + disabled.len() == profile.tools@.len()
            &&& scope.agent_profile@.tools.len() == enabled.len()
            &&& on ==> 0 <= at < enabled.len() && enabled[at] == tool.0@
                && scope.agent_profile@.tools[at] == tool.1.binding@
            &&& !on ==> 0 <= at < disabled.len() && disabled[at] == tool.0@
        }),
{
    let l = layers_of(c, s)->Ok_0;
    law_tools_are_partitioned(l, profile.tools@);
    let at = lemma_tool_is_listed(l, profile.tools@, k);
    at
}

proof fn lemma_tool_is_listed(l: Layers, tools: Seq<(String, CompiledProfileTool)>, k: int) -> (at:
    int)
    requires
        0 <= k < tools.len(),
    ensures
        enabled_bindings(l, tools).len() == tools_in_state(l, tools, true).len(),
        0 <= at < tools_in_state(l, tools, tool_enabled(l, tools[k])).len(),
        tools_in_state(l, tools, tool_enabled(l, tools[k]))[at] == tools[k].0@,
        tool_enabled(l, tools[k]) ==> enabled_bindings(l, tools)[at] == tools[k].1.binding@,
    decreases tools.len(),
{
    law_tools_are_partitioned(l, tools);
    let rest = tools.drop_last();
    law_tools_are_partitioned(l, rest);
    if k == tools.len() - 1 {
        tools_in_state(l, rest, tool_enabled(l, tools[k])).len() as int
    } else {
        assert(rest[k] == tools[k]);
        let at = lemma_tool_is_listed(l, rest, k);
        at
    }
}

/// The directives of a list that name no tool are listed, and no others are.
proof fn lemma_ignored_names(
    label: Seq<char>,
    names: Seq<String>,
    tools: Seq<(String, CompiledProfileTool)>,
)
    ensures
        forall|k: int|
            0 <= k < names.len() && !is_tool(tools, (#[trigger] names[k])@) ==> ignored_names(
                label,
                names,
                tools,
            ).contains(label + names[k]@),
        (forall|k: int| 0 <= k < names.len() ==> is_tool(tools, (#[trigger] names[k])@))
            ==> ignored_names(label, names, tools).len() == 0,
    decreases names.len(),
{
    if names.len() > 0 {
        let rest = names.drop_last();
        lemma_ignored_names(label, rest, tools);
        let before = ignored_names(label, rest, tools);
        let all = ignored_names(label, names, tools);
        assert forall|k: int|
            0 <= k < names.len() && !is_tool(tools, (#[trigger] names[k])@) implies all.contains(
            label + names[k]@,
        ) by {
            if k < rest.len() {
                assert(rest[k] == names[k]);
                let i = choose|i: int| 0 <= i < before.len() && before[i] == label + names[k]@;
                assert(all[i] == label + names[k]@);
            } else {
                assert(all[before.len() as int] == label + names[k]@);
            }
        }
        if forall|k: int| 0 <= k < names.len() ==> is_tool(tools, (#[trigger] names[k])@) {
            assert forall|k: int| 0 <= k < rest.len() implies is_tool(tools, (#[trigger] rest[k])@) by {
                assert(is_tool(tools, names[k]@));
            }
            assert(is_tool(tools, names[names.len() - 1]@));
        }
    }
}

/// A directive for a tool that the profile does not have is listed as ignored, under its
/// layer and what it asked for.
pub proof fn law_idle_directives_are_reported(
    c: ScopeCatalog,
    s: ScopeSelection,
    scope: ResolvedScope,
    workspace: Option<CompiledScopePatch>,
    profile: CompiledProfile,
    session: Option<CompiledSessionScope>,
    layer: Seq<char>,
    patch: CompiledScopePatch,
    name: String,
)
    requires
        is_resolution(c, s, Ok(scope)),
        selects(c, s, workspace, profile, session),
        ({
            ||| layer == "global"@ && patch == c.global
            ||| workspace == Some(patch) && layer == "workspace:"@ + s.workspace->0@
            ||| session is Some && patch == session->0.patch && layer == "session:"@
                + s.session_id->0@
        }),
        forall|i: int|
            0 <= i < profile.tools@.len() ==> (#[trigger] profile.tools@[i]).0@ != name@,
    ensures
        patch.capabilities.enable@.contains(name)
            ==> scope.trace@.ignored_capability_directives.contains(
            layer + ":enable:"@ + name@,
        ),
        patch.capabilities.disable@.contains(name)
            ==> scope.trace@.ignored_capability_directives.contains(
            layer + ":disable:"@ + name@,
        ),
{
    let tools = profile.tools@;
    let enable = patch.capabilities.enable@;
    let disable = patch.capabilities.disable@;
    let all = scope.trace@.ignored_capability_directives;
    let part = ignored_in(layer, patch.capabilities, tools);
    assert(!is_tool(tools, name@));
    lemma_ignored_names(layer + ":enable:"@, enable, tools);
    lemma_ignored_names(layer + ":disable:"@, disable, tools);
    let g = ignored_in("global"@, c.global.capabilities, tools);
    let w = match workspace {
        Some(p) => ignored_in("workspace:"@ + s.workspace->0@, p.capabilities, tools),
        None => Seq::empty(),
    };
    let e = match session {
        Some(bound) => ignored_in(
            "session:"@ + s.session_id->0@,
            bound.patch.capabilities,
            tools,
        ),
        None => Seq::empty(),
    };
    assert(all =~= g + w + e);
    assert forall|t: Seq<char>| part.contains(t) implies #[trigger] all.contains(t) by {
        let i = choose|i: int| 0 <= i < part.len() && part[i] == t;
        if part == g {
            assert(all[i] == t);
        } else if part == w {
            assert(all[g.len() + i] == t);
        } else {
            assert(all[g.len() + w.len() + i] == t);
        }
    }
    let a = ignored_names(layer + ":enable:"@, enable, tools);
    let b = ignored_names(layer + ":disable:"@, disable, tools);
    if enable.contains(name) {
        let k = choose|k: int| 0 <= k < enable.len() && enable[k] == name;
        assert(!is_tool(tools, enable[k]@));
        let t = layer + ":enable:"@ + name@;
        let i = choose|i: int| 0 <= i < a.len() && a[i] == t;
        assert(part[i] == t);
        assert(part.contains(t));
    }
    if disable.contains(name) {
        let k = choose|k: int| 0 <= k < disable.len() && disable[k] == name;
        assert(!is_tool(tools, disable[k]@));
        let t = layer + ":disable:"@ + name@;
        let i = choose|i: int| 0 <= i < b.len() && b[i] == t;
        assert(part[a.len() + i] == t);
        assert(part.contains(t));
    }
}

/// Where every directive of a layer names a tool of the profile, nothing of the layer is
/// listed as ignored.
pub proof fn law_effective_directives_are_not_reported(
    layer: Seq<char>,
    patch: CompiledCapabilityPatch,
    tools: Seq<(String, CompiledProfileTool)>,
)
    requires
        forall|k: int| 0 <= k < patch.enable@.len() ==> is_tool(tools, (#[trigger] patch.enable@[k])@),
        forall|k: int|
            0 <= k < patch.disable@.len() ==> is_tool(tools, (#[trigger] patch.disable@[k])@),
    ensures
        ignored_in(layer, patch, tools).len() == 0,
{
    lemma_ignored_names(layer + ":enable:"@, patch.enable@, tools);
    lemma_ignored_names(layer + ":disable:"@, patch.disable@, tools);
}

/// Why a selection does not resolve is told by what is missing or at odds: the profile or the
/// workspace is not configured, the session is bound to others, or no layer sets a policy.
pub proof fn law_refusals_are_named(
    c: ScopeCatalog,
    s: ScopeSelection,
    r: Result<ResolvedScope, HarnessConfigError>,
)
    requires
        is_resolution(c, s, r),
        r is Err,
    ensures
        match r->Err_0@ {
            ConfigErrorView::Invalid(text) => {
                ||| profile_of(c.profiles@, s.profile@) is None && text
                    == "scope references profile "@ + quoted(s.profile@)
                    + ", which is not configured"@
                ||| s.workspace is Some && workspace_of(c.workspaces@, s.workspace->0@) is None
                    && text == "scope references workspace "@ + quoted(s.workspace->0@)
                    + ", which is not configured"@
                ||| is_bound_elsewhere(c, s, text)
                ||| text == "scope for profile "@ + quoted(s.profile@)
                    + " does not resolve a Tool policy"@
            },
            _ => false,
        },
{
}

/// Whether `text` tells to which other profile or workspace the session of a selection is
/// bound.
pub open spec fn is_bound_elsewhere(c: ScopeCatalog, s: ScopeSelection, text: Seq<char>) -> bool {
    &&& s.session_id is Some
    &&& session_of(c.sessions@, s.session_id->0@) matches Some(bound)
    &&& {
        ||| bound.profile is Some && bound.profile->0@ != s.profile@ && text
            == "session scope binds profile "@ + quoted(bound.profile->0@)
            + ", but resolution requested "@ + quoted(s.profile@)
        ||| bound.workspace is Some && !(s.workspace is Some && s.workspace->0@
            == bound.workspace->0@) && text == "session scope binds workspace "@ + quoted(
            bound.workspace->0@,
        ) + ", but resolution requested "@ + quoted_option(opt_text(s.workspace))
    }
}

} // verus!
