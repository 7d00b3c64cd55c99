//! What a provider declares of itself.

use vstd::prelude::*;

use crate::text::{blank, concat2, concat3, is_blank, same_text, texts};
use crate::types::SideEffectClass;

verus! {

pub const PROTOCOL_VERSION: &'static str = "1.0";

#[derive(Clone, Copy, Debug, PartialEq, Eq, Structural)]
pub enum WireSideEffectClass {
    ReadOnly,
    IdempotentWrite,
    NonIdempotentWrite,
}

/// The class that a wire class stands for.
pub open spec fn side_effect_of(class: WireSideEffectClass) -> SideEffectClass {
    match class {
        WireSideEffectClass::ReadOnly => SideEffectClass::ReadOnly,
        WireSideEffectClass::IdempotentWrite => SideEffectClass::IdempotentWrite,
        WireSideEffectClass::NonIdempotentWrite => SideEffectClass::NonIdempotentWrite,
    }
}

/// One thing that a provider can do.
#[derive(Debug, PartialEq)]
pub enum CapabilityDescriptor {
    Tool {
        name: String,
        version: String,
        parallel_safe: bool,
        side_effect: WireSideEffectClass,
        supports_idempotency_key: bool,
    },
    Llm { models: Vec<String> },
}

#[verifier::ext_equal]
pub enum CapabilityView {
    Tool {
        name: Seq<char>,
        version: Seq<char>,
        parallel_safe: bool,
        side_effect: WireSideEffectClass,
        supports_idempotency_key: bool,
    },
    Llm { models: Seq<Seq<char>> },
}

impl View for CapabilityDescriptor {
    type V = CapabilityView;

    open spec fn view(&self) -> CapabilityView {
        match self {
            CapabilityDescriptor::Tool {
                name,
                version,
                parallel_safe,
                side_effect,
                supports_idempotency_key,
            } => CapabilityView::Tool {
                name: name@,
                version: version@,
                parallel_safe: *parallel_safe,
                side_effect: *side_effect,
                supports_idempotency_key: *supports_idempotency_key,
            },
            CapabilityDescriptor::Llm { models } => CapabilityView::Llm { models: texts(models@) },
        }
    }
}

impl Clone for CapabilityDescriptor {
    fn clone(&self) -> (r: Self)
        ensures
            r@ == self@,
    {
        match self {
            CapabilityDescriptor::Tool {
                name,
                version,
                parallel_safe,
                side_effect,
                supports_idempotency_key,
            } => CapabilityDescriptor::Tool {
                name: name.clone(),
                version: version.clone(),
                parallel_safe: *parallel_safe,
                side_effect: *side_effect,
                supports_idempotency_key: *supports_idempotency_key,
            },
            CapabilityDescriptor::Llm { models } => CapabilityDescriptor::Llm {
                models: crate::text::clone_texts(models),
            },
        }
    }
}

/// The model of a row of capabilities.
pub open spec fn capabilities_view(s: Seq<CapabilityDescriptor>) -> Seq<CapabilityView> {
    s.map_values(|c: CapabilityDescriptor| c@)
}

#[derive(Debug, PartialEq)]
pub struct ProviderManifest {
    pub provider_id: String,
    pub provider_version: String,
    pub protocol_version: String,
    pub capabilities: Vec<CapabilityDescriptor>,
}

#[verifier::ext_equal]
pub struct ManifestView {
    pub provider_id: Seq<char>,
    pub provider_version: Seq<char>,
    pub protocol_version: Seq<char>,
    pub capabilities: Seq<CapabilityView>,
}

impl View for ProviderManifest {
    type V = ManifestView;

    open spec fn view(&self) -> ManifestView {
        ManifestView {
            provider_id: self.provider_id@,
            provider_version: self.provider_version@,
            protocol_version: self.protocol_version@,
            capabilities: capabilities_view(self.capabilities@),
        }
    }
}

impl Clone for ProviderManifest {
    fn clone(&self) -> (r: Self)
        ensures
            r@ == self@,
    {
        let capabilities = self.capabilities.clone();
        assert(capabilities_view(capabilities@) =~= capabilities_view(self.capabilities@));
        ProviderManifest {
            provider_id: self.provider_id.clone(),
            provider_version: self.provider_version.clone(),
            protocol_version: self.protocol_version.clone(),
            capabilities,
        }
    }
}

/// Why a manifest is refused.
#[derive(Debug, PartialEq, Eq)]
#[non_exhaustive]
pub enum ManifestValidationError {
    EmptyProviderId,
    EmptyProviderVersion,
    UnsupportedProtocolVersion(String),
    EmptyToolName,
    EmptyToolVersion(String),
    DuplicateTool(String),
    IdempotentWriteWithoutKeySupport(String),
    EmptyModelSet,
    EmptyModelName,
    DuplicateModel(String),
}

#[verifier::ext_equal]
pub enum ManifestErrorView {
    EmptyProviderId,
    EmptyProviderVersion,
    UnsupportedProtocolVersion(Seq<char>),
    EmptyToolName,
    EmptyToolVersion(Seq<char>),
    DuplicateTool(Seq<char>),
    IdempotentWriteWithoutKeySupport(Seq<char>),
    EmptyModelSet,
    EmptyModelName,
    DuplicateModel(Seq<char>),
}

impl View for ManifestValidationError {
    type V = ManifestErrorView;

    open spec fn view(&self) -> ManifestErrorView {
        match self {
            ManifestValidationError::EmptyProviderId => ManifestErrorView::EmptyProviderId,
            ManifestValidationError::EmptyProviderVersion => {
                ManifestErrorView::EmptyProviderVersion
            },
            ManifestValidationError::UnsupportedProtocolVersion(version) => {
                ManifestErrorView::UnsupportedProtocolVersion(version@)
            },
            ManifestValidationError::EmptyToolName => ManifestErrorView::EmptyToolName,
            ManifestValidationError::EmptyToolVersion(name) => ManifestErrorView::EmptyToolVersion(
                name@,
            ),
            ManifestValidationError::DuplicateTool(name) => ManifestErrorView::DuplicateTool(name@),
            ManifestValidationError::IdempotentWriteWithoutKeySupport(name) => {
                ManifestErrorView::IdempotentWriteWithoutKeySupport(name@)
            },
            ManifestValidationError::EmptyModelSet => ManifestErrorView::EmptyModelSet,
            ManifestValidationError::EmptyModelName => ManifestErrorView::EmptyModelName,
            ManifestValidationError::DuplicateModel(name) => ManifestErrorView::DuplicateModel(
                name@,
            ),
        }
    }
}

pub open spec fn manifest_error_text(e: ManifestErrorView) -> Seq<char> {
    match e {
        ManifestErrorView::EmptyProviderId => "providerId must not be empty"@,
        ManifestErrorView::EmptyProviderVersion => "providerVersion must not be empty"@,
        ManifestErrorView::UnsupportedProtocolVersion(version) => {
            "unsupported provider protocol version "@ + version
        },
        ManifestErrorView::EmptyToolName => "tool capability name must not be empty"@,
        ManifestErrorView::EmptyToolVersion(name) => {
            "tool capability "@ + name + " has an empty version"@
        },
        ManifestErrorView::DuplicateTool(name) => {
            "tool capability "@ + name + " is declared more than once"@
        },
        ManifestErrorView::IdempotentWriteWithoutKeySupport(name) => {
            "idempotent-write tool capability "@ + name + " must support idempotency keys"@
        },
        ManifestErrorView::EmptyModelSet => "LLM capability must declare at least one model"@,
        ManifestErrorView::EmptyModelName => "LLM model name must not be empty"@,
        ManifestErrorView::DuplicateModel(name) => {
            "LLM model "@ + name + " is declared more than once"@
        },
    }
}

impl ManifestValidationError {
    pub fn message(&self) -> (r: String)
        ensures
            r@ == manifest_error_text(self@),
    {
        match self {
            ManifestValidationError::EmptyProviderId => "providerId must not be empty".to_owned(),
            ManifestValidationError::EmptyProviderVersion => {
                "providerVersion must not be empty".to_owned()
            },
            ManifestValidationError::UnsupportedProtocolVersion(version) => {
                concat2("unsupported provider protocol version ", version.as_str())
            },
            ManifestValidationError::EmptyToolName => {
                "tool capability name must not be empty".to_owned()
            },
            ManifestValidationError::EmptyToolVersion(name) => {
                concat3("tool capability ", name.as_str(), " has an empty version")
            },
            ManifestValidationError::DuplicateTool(name) => {
                concat3("tool capability ", name.as_str(), " is declared more than once")
            },
            ManifestValidationError::IdempotentWriteWithoutKeySupport(name) => concat3(
                "idempotent-write tool capability ",
                name.as_str(),
                " must support idempotency keys",
            ),
            ManifestValidationError::EmptyModelSet => {
                "LLM capability must declare at least one model".to_owned()
            },
            ManifestValidationError::EmptyModelName => {
                "LLM model name must not be empty".to_owned()
            },
            ManifestValidationError::DuplicateModel(name) => {
                concat3("LLM model ", name.as_str(), " is declared more than once")
            },
        }
    }
}

/// Whether a capability is the tool `name`.
pub open spec fn is_tool_named(c: CapabilityView, name: Seq<char>) -> bool {
    c is Tool && c->name == name
}

/// Whether a capability offers the model `name`.
pub open spec fn offers_model(c: CapabilityView, name: Seq<char>) -> bool {
    c is Llm && c->models.contains(name)
}

/// Whether one of the first `n` capabilities is the tool `name`.
pub open spec fn tool_before(s: Seq<CapabilityView>, n: int, name: Seq<char>) -> bool {
    exists|i: int| 0 <= i < n && is_tool_named(#[trigger] s[i], name)
}

/// Whether one of the first `n` capabilities offers the model `name`.
pub open spec fn model_before(s: Seq<CapabilityView>, n: int, name: Seq<char>) -> bool {
    exists|i: int| 0 <= i < n && offers_model(#[trigger] s[i], name)
}

/// The fault of the first faulty model of `models` from `k` on, where the
/// capabilities before the `n`th come first.
pub open spec fn models_fault(
    s: Seq<CapabilityView>,
    n: int,
    models: Seq<Seq<char>>,
    k: int,
) -> Option<ManifestErrorView>
    decreases models.len() - k,
{
    if k >= models.len() {
        None
    } else if is_blank(models[k]) {
        Some(ManifestErrorView::EmptyModelName)
    } else if model_before(s, n, models[k]) || models.take(k).contains(models[k]) {
        Some(ManifestErrorView::DuplicateModel(models[k]))
    } else {
        models_fault(s, n, models, k + 1)
    }
}

/// What is wrong with the capability at `n`, after those before it.
pub open spec fn capability_fault(s: Seq<CapabilityView>, n: int) -> Option<ManifestErrorView> {
    match s[n] {
        CapabilityView::Tool { name, version, side_effect, supports_idempotency_key, .. } => {
            if is_blank(name) {
                Some(ManifestErrorView::EmptyToolName)
            } else if is_blank(version) {
                Some(ManifestErrorView::EmptyToolVersion(name))
            } else if side_effect == WireSideEffectClass::IdempotentWrite
                && !supports_idempotency_key {
                Some(ManifestErrorView::IdempotentWriteWithoutKeySupport(name))
            } else if tool_before(s, n, name) {
                Some(ManifestErrorView::DuplicateTool(name))
            } else {
                None
            }
        },
        CapabilityView::Llm { models } => {
            if models.len() == 0 {
                Some(ManifestErrorView::EmptyModelSet)
            } else {
                models_fault(s, n, models, 0)
            }
        },
    }
}

/// The fault of the first faulty capability from `n` on.
pub open spec fn capabilities_fault(s: Seq<CapabilityView>, n: int) -> Option<ManifestErrorView>
    decreases s.len() - n,
{
    if n >= s.len() {
        None
    } else if let Some(fault) = capability_fault(s, n) {
        Some(fault)
    } else {
        capabilities_fault(s, n + 1)
    }
}

/// What is wrong with a manifest.
pub open spec fn manifest_fault(m: ManifestView) -> Option<ManifestErrorView> {
    if is_blank(m.provider_id) {
        Some(ManifestErrorView::EmptyProviderId)
    } else if is_blank(m.provider_version) {
        Some(ManifestErrorView::EmptyProviderVersion)
    } else if m.protocol_version != PROTOCOL_VERSION@ {
        Some(ManifestErrorView::UnsupportedProtocolVersion(m.protocol_version))
    } else {
        capabilities_fault(m.capabilities, 0)
    }
}

/// The view of a check.
pub open spec fn manifest_check(r: Result<(), ManifestValidationError>) -> Option<
    ManifestErrorView,
> {
    match r {
        Ok(_) => None,
        Err(e) => Some(e@),
    }
}

/// Whether one of the first `n` texts is `name`.
pub(crate) fn text_among(v: &Vec<String>, n: usize, name: &String) -> (r: bool)
    requires
        n <= v@.len(),
    ensures
        r == texts(v@).take(n as int).contains(name@),
{
    let ghost all = texts(v@).take(n as int);
    let mut i: usize = 0;
    while i < n
        invariant
            i <= n <= v@.len(),
            all == texts(v@).take(n as int),
            forall|j: int| 0 <= j < i ==> #[trigger] all[j] != name@,
        decreases n - i,
    {
        if v[i] == *name {
            assert(all[i as int] == name@);
            return true;
        }
        i = i + 1;
    }
    false
}

fn declares_tool(s: &Vec<CapabilityDescriptor>, n: usize, name: &String) -> (r: bool)
    requires
        n <= s@.len(),
    ensures
        r == tool_before(capabilities_view(s@), n as int, name@),
{
    let ghost all = capabilities_view(s@);
    let mut i: usize = 0;
    while i < n
        invariant
            i <= n <= s@.len(),
            all == capabilities_view(s@),
            forall|j: int| 0 <= j < i ==> !is_tool_named(#[trigger] all[j], name@),
        decreases n - i,
    {
        if let CapabilityDescriptor::Tool { name: other, .. } = &s[i] {
            if *other == *name {
                assert(is_tool_named(all[i as int], name@));
                return true;
            }
        }
        i = i + 1;
    }
    false
}

fn declares_model(s: &Vec<CapabilityDescriptor>, n: usize, name: &String) -> (r: bool)
    requires
        n <= s@.len(),
    ensures
        r == model_before(capabilities_view(s@), n as int, name@),
{
    let ghost all = capabilities_view(s@);
    let mut i: usize = 0;
    while i < n
        invariant
            i <= n <= s@.len(),
            all == capabilities_view(s@),
            forall|j: int| 0 <= j < i ==> !offers_model(#[trigger] all[j], name@),
        decreases n - i,
    {
        if let CapabilityDescriptor::Llm { models } = &s[i] {
            assert(texts(models@).take(models@.len() as int) =~= texts(models@));
            if text_among(models, models.len(), name) {
                assert(offers_model(all[i as int], name@));
                return true;
            }
        }
        i = i + 1;
    }
    false
}

fn check_models(s: &Vec<CapabilityDescriptor>, n: usize, models: &Vec<String>) -> (r: Result<
    (),
    ManifestValidationError,
>)
    requires
        n <= s@.len(),
    ensures
        manifest_check(r) == models_fault(capabilities_view(s@), n as int, texts(models@), 0),
{
    let ghost all = capabilities_view(s@);
    let ghost names = texts(models@);
    let mut k: usize = 0;
    while k < models.len()
        invariant
            k <= models@.len(),
            n <= s@.len(),
            all == capabilities_view(s@),
            names == texts(models@),
            models_fault(all, n as int, names, 0) == models_fault(all, n as int, names, k as int),
        decreases models@.len() - k,
    {
        let model = &models[k];
        if blank(model.as_str()) {
            return Err(ManifestValidationError::EmptyModelName);
        }
        if declares_model(s, n, model) || text_among(models, k, model) {
            return Err(ManifestValidationError::DuplicateModel(model.clone()));
        }
        k = k + 1;
    }
    Ok(())
}

fn check_capability(s: &Vec<CapabilityDescriptor>, n: usize) -> (r: Result<
    (),
    ManifestValidationError,
>)
    requires
        n < s@.len(),
    ensures
        manifest_check(r) == capability_fault(capabilities_view(s@), n as int),
{
    match &s[n] {
        CapabilityDescriptor::Tool {
            name,
            version,
            side_effect,
            supports_idempotency_key,
            ..
        } => {
            if blank(name.as_str()) {
                return Err(ManifestValidationError::EmptyToolName);
            }
            if blank(version.as_str()) {
                return Err(ManifestValidationError::EmptyToolVersion(name.clone()));
            }
            if *side_effect == WireSideEffectClass::IdempotentWrite && !*supports_idempotency_key {
                return Err(
                    ManifestValidationError::IdempotentWriteWithoutKeySupport(name.clone()),
                );
            }
            if declares_tool(s, n, name) {
                return Err(ManifestValidationError::DuplicateTool(name.clone()));
            }
            Ok(())
        },
        CapabilityDescriptor::Llm { models } => {
            if models.len() == 0 {
                return Err(ManifestValidationError::EmptyModelSet);
            }
            check_models(s, n, models)
        },
    }
}

impl ProviderManifest {
    pub fn validate(&self) -> (r: Result<(), ManifestValidationError>)
        ensures
            manifest_check(r) == manifest_fault(self@),
    {
        if blank(self.provider_id.as_str()) {
            return Err(ManifestValidationError::EmptyProviderId);
        }
        if blank(self.provider_version.as_str()) {
            return Err(ManifestValidationError::EmptyProviderVersion);
        }
        if !same_text(self.protocol_version.as_str(), PROTOCOL_VERSION) {
            return Err(
                ManifestValidationError::UnsupportedProtocolVersion(self.protocol_version.clone()),
            );
        }
        let ghost all = capabilities_view(self.capabilities@);
        let mut n: usize = 0;
        while n < self.capabilities.len()
            invariant
                n <= self.capabilities@.len(),
                all == capabilities_view(self.capabilities@),
                manifest_fault(self@) == capabilities_fault(all, n as int),
            decreases self.capabilities@.len() - n,
        {
            match check_capability(&self.capabilities, n) {
                Ok(()) => {},
                Err(error) => {
                    return Err(error);
                },
            }
            n = n + 1;
        }
        Ok(())
    }

    /// Whether the tool `name` is declared.
    pub fn declares_tool(&self, name: &String) -> (r: bool)
        ensures
            r == tool_before(
                self@.capabilities,
                self@.capabilities.len() as int,
                name@,
            ),
    {
        declares_tool(&self.capabilities, self.capabilities.len(), name)
    }

    /// Whether the model `name` is declared.
    pub fn declares_model(&self, name: &String) -> (r: bool)
        ensures
            r == model_before(
                self@.capabilities,
                self@.capabilities.len() as int,
                name@,
            ),
    {
        declares_model(&self.capabilities, self.capabilities.len(), name)
    }
}

proof fn lemma_no_fault(s: Seq<CapabilityView>, n: int, i: int)
    requires
        capabilities_fault(s, n) is None,
        0 <= n <= i < s.len(),
    ensures
        capability_fault(s, i) is None,
    decreases i - n,
{
    if n < i {
        lemma_no_fault(s, n + 1, i);
    }
}

/// In a manifest that passes, a tool name belongs to one capability, and every
/// tool that repeats its effect harmlessly takes an idempotency key.
pub proof fn law_valid_manifests_name_tools_once(m: ManifestView, i: int, j: int)
    requires
        manifest_fault(m) is None,
        0 <= i < j < m.capabilities.len(),
        m.capabilities[i] is Tool,
        m.capabilities[j] is Tool,
    ensures
        m.capabilities[i]->name != m.capabilities[j]->name,
        m.capabilities[i]->side_effect == WireSideEffectClass::IdempotentWrite
            ==> m.capabilities[i]->supports_idempotency_key,
{
    lemma_no_fault(m.capabilities, 0, i);
    lemma_no_fault(m.capabilities, 0, j);
    if m.capabilities[i]->name == m.capabilities[j]->name {
        assert(is_tool_named(m.capabilities[i], m.capabilities[j]->name));
    }
}

/// The class that a wire class stands for is the one of the same name.
pub proof fn law_wire_classes_keep_their_meaning()
    ensures
        side_effect_of(WireSideEffectClass::ReadOnly) == SideEffectClass::ReadOnly,
        side_effect_of(WireSideEffectClass::IdempotentWrite) == SideEffectClass::IdempotentWrite,
        side_effect_of(WireSideEffectClass::NonIdempotentWrite)
            == SideEffectClass::NonIdempotentWrite,
{
}

proof fn lemma_capabilities_fault(s: Seq<CapabilityView>, n: int)
    requires
        0 <= n,
        forall|i: int| n <= i < s.len() ==> #[trigger] capability_fault(s, i) is None,
    ensures
        capabilities_fault(s, n) is None,
    decreases s.len() - n,
{
    if n < s.len() {
        assert(capability_fault(s, n) is None);
        lemma_capabilities_fault(s, n + 1);
    }
}

proof fn lemma_models_fault(s: Seq<CapabilityView>, n: int, models: Seq<Seq<char>>, k: int)
    requires
        0 <= k,
    ensures
        models_fault(s, n, models, k) is None <==> forall|i: int|
            k <= i < models.len() ==> !is_blank(#[trigger] models[i]) && !model_before(
                s,
                n,
                models[i],
            ) && !models.take(i).contains(models[i]),
    decreases models.len() - k,
{
    if k < models.len() {
        lemma_models_fault(s, n, models, k + 1);
        if forall|i: int|
            k <= i < models.len() ==> !is_blank(#[trigger] models[i]) && !model_before(
                s,
                n,
                models[i],
            ) && !models.take(i).contains(models[i]) {
            assert(!is_blank(models[k]));
        }
    }
}

/// Whether the capability at `i` is complete by itself: a tool has a name and a version, and
/// takes a key if it repeats its effect harmlessly; a model capability has models, all named
/// and none twice.
pub open spec fn is_complete(c: CapabilityView) -> bool {
    match c {
        CapabilityView::Tool { name, version, side_effect, supports_idempotency_key, .. } => {
            &&& !is_blank(name)
            &&& !is_blank(version)
            &&& side_effect == WireSideEffectClass::IdempotentWrite ==> supports_idempotency_key
        },
        CapabilityView::Llm { models } => {
            &&& models.len() > 0
            &&& forall|i: int| 0 <= i < models.len() ==> !is_blank(#[trigger] models[i])
            &&& models.no_duplicates()
        },
    }
}

/// Whether two capabilities do not declare the same tool or model.
pub open spec fn are_apart(a: CapabilityView, b: CapabilityView) -> bool {
    match (a, b) {
        (CapabilityView::Tool { name: m, .. }, CapabilityView::Tool { name: n, .. }) => m != n,
        (CapabilityView::Llm { models: m }, CapabilityView::Llm { models: n }) => {
            forall|x: Seq<char>| !(#[trigger] m.contains(x) && n.contains(x))
        },
        _ => true,
    }
}

/// A manifest passes if and only if its provider has an identifier and a version, it speaks
/// this protocol, each of its capabilities is complete, and no two declare the same tool or
/// model.
pub proof fn law_manifests_pass_when_complete(m: ManifestView)
    ensures
        manifest_fault(m) is None <==> {
            &&& !is_blank(m.provider_id)
            &&& !is_blank(m.provider_version)
            &&& m.protocol_version == "1.0"@
            &&& forall|i: int|
                0 <= i < m.capabilities.len() ==> is_complete(#[trigger] m.capabilities[i])
            &&& forall|i: int, j: int|
                0 <= i < j < m.capabilities.len() ==> are_apart(
                    #[trigger] m.capabilities[i],
                    #[trigger] m.capabilities[j],
                )
        },
{
    let s = m.capabilities;
    if capabilities_fault(s, 0) is None {
        assert forall|i: int| 0 <= i < s.len() implies is_complete(#[trigger] s[i]) by {
            lemma_no_fault(s, 0, i);
            lemma_capability(s, i);
        }
        assert forall|i: int, j: int| 0 <= i < j < s.len() implies are_apart(
            #[trigger] s[i],
            #[trigger] s[j],
        ) by {
            lemma_no_fault(s, 0, j);
            lemma_capability(s, j);
        }
    }
    if (forall|i: int| 0 <= i < s.len() ==> is_complete(#[trigger] s[i])) && (forall|
        i: int,
        j: int,
    |
        0 <= i < j < s.len() ==> are_apart(#[trigger] s[i], #[trigger] s[j])) {
        assert forall|i: int| 0 <= i < s.len() implies #[trigger] capability_fault(
            s,
            i,
        ) is None by {
            assert(is_complete(s[i]));
            lemma_capability(s, i);
        }
        lemma_capabilities_fault(s, 0);
    }
}

proof fn lemma_capability(s: Seq<CapabilityView>, n: int)
    requires
        0 <= n < s.len(),
    ensures
        capability_fault(s, n) is None <==> is_complete(s[n]) && forall|i: int|
            0 <= i < n ==> are_apart(#[trigger] s[i], s[n]),
{
    match s[n] {
        CapabilityView::Tool { name, .. } => {
            if tool_before(s, n, name) {
                let i = choose|i: int| 0 <= i < n && is_tool_named(#[trigger] s[i], name);
                assert(!are_apart(s[i], s[n]));
            } else {
                assert forall|i: int| 0 <= i < n implies are_apart(#[trigger] s[i], s[n]) by {
                    assert(!is_tool_named(s[i], name));
                }
            }
        },
        CapabilityView::Llm { models } => {
            lemma_models_fault(s, n, models, 0);
            if models_fault(s, n, models, 0) is None {
                assert forall|i: int, j: int| 0 <= i < j < models.len() implies models[i]
                    != models[j] by {
                    assert(!models.take(j).contains(models[j]));
                    assert(models.take(j)[i] == models[i]);
                }
                assert forall|i: int| 0 <= i < n implies are_apart(#[trigger] s[i], s[n]) by {
                    if let CapabilityView::Llm { models: other } = s[i] {
                        assert forall|x: Seq<char>| !(#[trigger] other.contains(x)
                            && models.contains(x)) by {
                            if other.contains(x) && models.contains(x) {
                                let k = choose|k: int| 0 <= k < models.len() && models[k] == x;
                                assert(offers_model(s[i], x));
                                assert(model_before(s, n, models[k]));
                            }
                        }
                    }
                }
            }
            if is_complete(s[n]) && (forall|i: int|
                0 <= i < n ==> are_apart(#[trigger] s[i], s[n])) {
                assert forall|k: int| 0 <= k < models.len() implies !is_blank(
                    #[trigger] models[k],
                ) && !model_before(s, n, models[k]) && !models.take(k).contains(models[k]) by {
                    if model_before(s, n, models[k]) {
                        let i = choose|i: int|
                            0 <= i < n && offers_model(#[trigger] s[i], models[k]);
                        assert(are_apart(s[i], s[n]));
                        assert(s[i]->models.contains(models[k]));
                        assert(models.contains(models[k]));
                    }
                    if models.take(k).contains(models[k]) {
                        let i = choose|i: int|
                            0 <= i < models.take(k).len() && models.take(k)[i] == models[k];
                        assert(models[i] == models[k]);
                    }
                }
            }
        },
    }
}

/// Whether `fault` is what is wrong with the capability at `i`, after those before it.
pub open spec fn is_fault_of_capability(
    s: Seq<CapabilityView>,
    i: int,
    fault: ManifestErrorView,
) -> bool {
    match (s[i], fault) {
        (CapabilityView::Tool { name, .. }, ManifestErrorView::EmptyToolName) => is_blank(name),
        (
            CapabilityView::Tool { name, version, .. },
            ManifestErrorView::EmptyToolVersion(n),
        ) => n == name && is_blank(version),
        (
            CapabilityView::Tool { name, side_effect, supports_idempotency_key, .. },
            ManifestErrorView::IdempotentWriteWithoutKeySupport(n),
        ) => n == name && side_effect == WireSideEffectClass::IdempotentWrite
            && !supports_idempotency_key,
        (CapabilityView::Tool { name, .. }, ManifestErrorView::DuplicateTool(n)) => n == name
            && exists|j: int| 0 <= j < i && (#[trigger] s[j]) is Tool && s[j]->name == name,
        (CapabilityView::Llm { models }, ManifestErrorView::EmptyModelSet) => models.len() == 0,
        (CapabilityView::Llm { models }, ManifestErrorView::EmptyModelName) => exists|k: int|
            0 <= k < models.len() && is_blank(#[trigger] models[k]),
        (CapabilityView::Llm { models }, ManifestErrorView::DuplicateModel(n)) => models.contains(n)
            && (!models.no_duplicates() || exists|j: int|
            0 <= j < i && (#[trigger] s[j]) is Llm && s[j]->models.contains(n)),
        _ => false,
    }
}

proof fn lemma_models_are_named(
    s: Seq<CapabilityView>,
    n: int,
    models: Seq<Seq<char>>,
    k: int,
)
    requires
        0 <= k,
        0 <= n < s.len(),
        s[n] == (CapabilityView::Llm { models }),
    ensures
        models_fault(s, n, models, k) matches Some(fault) ==> is_fault_of_capability(s, n, fault),
    decreases models.len() - k,
{
    if k < models.len() {
        let name = models[k];
        assert(models.contains(name));
        if is_blank(name) {
        } else if model_before(s, n, name) {
            let j = choose|j: int| 0 <= j < n && offers_model(#[trigger] s[j], name);
            assert(s[j] is Llm && s[j]->models.contains(name));
        } else if models.take(k).contains(name) {
            let j = choose|j: int| 0 <= j < k && models.take(k)[j] == name;
            assert(models[j] == models[k]);
        } else {
            lemma_models_are_named(s, n, models, k + 1);
        }
    }
}

proof fn lemma_capability_is_named(s: Seq<CapabilityView>, n: int)
    requires
        0 <= n < s.len(),
    ensures
        capability_fault(s, n) matches Some(fault) ==> is_fault_of_capability(s, n, fault),
{
    match s[n] {
        CapabilityView::Tool { name, .. } => {
            if tool_before(s, n, name) {
                let j = choose|j: int| 0 <= j < n && is_tool_named(#[trigger] s[j], name);
                assert(s[j] is Tool && s[j]->name == name);
            }
        },
        CapabilityView::Llm { models } => {
            lemma_models_are_named(s, n, models, 0);
        },
    }
}

proof fn lemma_capabilities_are_named(s: Seq<CapabilityView>, n: int)
    requires
        0 <= n,
    ensures
        capabilities_fault(s, n) matches Some(fault) ==> exists|i: int|
            n <= i < s.len() && #[trigger] is_fault_of_capability(s, i, fault),
    decreases s.len() - n,
{
    if n < s.len() {
        lemma_capability_is_named(s, n);
        lemma_capabilities_are_named(s, n + 1);
    }
}

/// What is reported of a manifest is what is wrong with it: its provider, the protocol that it
/// speaks, or one of its capabilities.
pub proof fn law_manifest_faults_are_named(m: ManifestView)
    ensures
        match manifest_fault(m) {
            None => true,
            Some(ManifestErrorView::EmptyProviderId) => is_blank(m.provider_id),
            Some(ManifestErrorView::EmptyProviderVersion) => is_blank(m.provider_version),
            Some(ManifestErrorView::UnsupportedProtocolVersion(v)) => v == m.protocol_version && v
                != "1.0"@,
            Some(fault) => exists|i: int|
                0 <= i < m.capabilities.len() && #[trigger] is_fault_of_capability(
                    m.capabilities,
                    i,
                    fault,
                ),
        },
{
    lemma_capabilities_are_named(m.capabilities, 0);
}

} // verus!
