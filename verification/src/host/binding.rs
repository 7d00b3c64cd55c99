//! Domain seams bound to what a provider's manifest declares.

use vstd::prelude::*;

use crate::host::adapter::domain_side_effect;
use crate::host::error::{AdapterErrorView, ProviderAdapterError};
use crate::message::{plain_failure, PortableError};
use crate::protocol::manifest::{
    capabilities_view, is_tool_named, side_effect_of, CapabilityDescriptor, CapabilityView,
    ManifestView, ProviderManifest,
};
use crate::protocol::tool::ToolInvokeParams;
use crate::text::concat4;
use crate::tools::{IdempotencySupport, ToolDefinition, ToolInvocation};
use crate::types::{ErrorCode, ProviderId, SideEffectClass};

verus! {

/// The name of the provider behind a manifest, or why it has none.
pub open spec fn provider_name(m: Option<ManifestView>) -> Result<Seq<char>, AdapterErrorView> {
    match m {
        None => Err(AdapterErrorView::ManifestUnavailable),
        Some(m) => {
            if m.provider_id.len() == 0 {
                Err(
                    AdapterErrorView::InvalidProviderId {
                        value: m.provider_id,
                        message: "identifier must not be empty"@,
                    },
                )
            } else {
                Ok(m.provider_id)
            }
        },
    }
}

pub open spec fn opt_manifest(m: Option<&ProviderManifest>) -> Option<ManifestView> {
    match m {
        Some(m) => Some(m@),
        None => None,
    }
}

fn take_provider_id(manifest: &ProviderManifest) -> (r: Result<ProviderId, ProviderAdapterError>)
    ensures
        match r {
            Ok(id) => provider_name(Some(manifest@)) == Ok::<Seq<char>, AdapterErrorView>(id@),
            Err(e) => provider_name(Some(manifest@)) == Err::<Seq<char>, AdapterErrorView>(e@),
        },
{
    match ProviderId::new(manifest.provider_id.as_str()) {
        Ok(id) => Ok(id),
        Err(error) => Err(
            ProviderAdapterError::InvalidProviderId {
                value: manifest.provider_id.clone(),
                message: error.message(),
            },
        ),
    }
}

/// The model seam of one provider.
#[derive(Debug, PartialEq, Eq)]
pub struct ProviderHostLlmAdapter {
    pub provider_id: ProviderId,
}

impl ProviderHostLlmAdapter {
    pub fn new(manifest: Option<&ProviderManifest>) -> (r: Result<Self, ProviderAdapterError>)
        ensures
            match r {
                Ok(adapter) => provider_name(opt_manifest(manifest)) == Ok::<
                    Seq<char>,
                    AdapterErrorView,
                >(adapter.provider_id@),
                Err(e) => provider_name(opt_manifest(manifest)) == Err::<
                    Seq<char>,
                    AdapterErrorView,
                >(e@),
            },
    {
        match manifest {
            Some(manifest) => match take_provider_id(manifest) {
                Ok(provider_id) => Ok(ProviderHostLlmAdapter { provider_id }),
                Err(error) => Err(error),
            },
            None => Err(ProviderAdapterError::ManifestUnavailable),
        }
    }
}

/// The first tool of the name `name`.
pub open spec fn descriptor_of(s: Seq<CapabilityView>, name: Seq<char>) -> Option<CapabilityView>
    decreases s.len(),
{
    if s.len() == 0 {
        None
    } else if is_tool_named(s[0], name) {
        Some(s[0])
    } else {
        descriptor_of(s.skip(1), name)
    }
}

fn find_descriptor<'a>(
    capabilities: &'a Vec<CapabilityDescriptor>,
    name: &String,
) -> (r: Option<&'a CapabilityDescriptor>)
    ensures
        match r {
            Some(descriptor) => descriptor@ is Tool && descriptor_of(
                capabilities_view(capabilities@),
                name@,
            ) == Some(descriptor@),
            None => descriptor_of(capabilities_view(capabilities@), name@) is None,
        },
{
    let ghost all = capabilities_view(capabilities@);
    let mut i: usize = 0;
    assert(all.skip(0) =~= all);
    while i < capabilities.len()
        invariant
            i <= capabilities@.len(),
            all == capabilities_view(capabilities@),
            descriptor_of(all, name@) == descriptor_of(all.skip(i as int), name@),
        decreases capabilities@.len() - i,
    {
        assert(all.skip(i as int)[0] == capabilities@[i as int]@);
        if let CapabilityDescriptor::Tool { name: other, .. } = &capabilities[i] {
            if *other == *name {
                return Some(&capabilities[i]);
            }
        }
        assert(all.skip(i as int).skip(1) =~= all.skip(i + 1));
        i = i + 1;
    }
    None
}

/// The tool seam of one tool of one provider.
#[derive(Debug, PartialEq, Eq)]
pub struct ProviderHostToolAdapter {
    pub provider_id: ProviderId,
    pub tool_name: String,
    pub version: String,
    pub parallel_safe: bool,
    pub side_effect: SideEffectClass,
    pub idempotency_support: IdempotencySupport,
}

#[verifier::ext_equal]
pub struct ToolAdapterView {
    pub provider_id: Seq<char>,
    pub tool_name: Seq<char>,
    pub version: Seq<char>,
    pub parallel_safe: bool,
    pub side_effect: SideEffectClass,
    pub idempotency_support: IdempotencySupport,
}

impl View for ProviderHostToolAdapter {
    type V = ToolAdapterView;

    open spec fn view(&self) -> ToolAdapterView {
        ToolAdapterView {
            provider_id: self.provider_id@,
            tool_name: self.tool_name@,
            version: self.version@,
            parallel_safe: self.parallel_safe,
            side_effect: self.side_effect,
            idempotency_support: self.idempotency_support,
        }
    }
}

/// What a tool knows of repeated calls.
pub open spec fn key_support(supports_idempotency_key: bool) -> IdempotencySupport {
    if supports_idempotency_key {
        IdempotencySupport::Keyed
    } else {
        IdempotencySupport::Unsupported
    }
}

/// The seam of the tool `name`, or why there is none: the name comes first, then
/// the manifest, its provider and its tools.
pub open spec fn bound_tool(m: Option<ManifestView>, name: Seq<char>) -> Result<
    ToolAdapterView,
    AdapterErrorView,
> {
    if name.len() == 0 {
        Err(AdapterErrorView::EmptyToolName)
    } else {
        match provider_name(m) {
            Err(error) => Err(error),
            Ok(provider_id) => match descriptor_of(m->0.capabilities, name) {
                Some(
                    CapabilityView::Tool {
                        version,
                        parallel_safe,
                        side_effect,
                        supports_idempotency_key,
                        ..
                    },
                ) => Ok(
                    ToolAdapterView {
                        provider_id,
                        tool_name: name,
                        version,
                        parallel_safe,
                        side_effect: side_effect_of(side_effect),
                        idempotency_support: key_support(supports_idempotency_key),
                    },
                ),
                _ => Err(AdapterErrorView::ToolNotDeclared(name)),
            },
        }
    }
}

pub open spec fn bool_text(b: bool) -> Seq<char> {
    if b {
        "true"@
    } else {
        "false"@
    }
}

pub open spec fn side_effect_text(s: SideEffectClass) -> Seq<char> {
    match s {
        SideEffectClass::ReadOnly => "ReadOnly"@,
        SideEffectClass::IdempotentWrite => "IdempotentWrite"@,
        SideEffectClass::NonIdempotentWrite => "NonIdempotentWrite"@,
    }
}

fn bool_name(b: bool) -> (r: String)
    ensures
        r@ == bool_text(b),
{
    if b {
        "true".to_owned()
    } else {
        "false".to_owned()
    }
}

fn side_effect_name(s: SideEffectClass) -> (r: String)
    ensures
        r@ == side_effect_text(s),
{
    match s {
        SideEffectClass::ReadOnly => "ReadOnly".to_owned(),
        SideEffectClass::IdempotentWrite => "IdempotentWrite".to_owned(),
        SideEffectClass::NonIdempotentWrite => "NonIdempotentWrite".to_owned(),
    }
}

/// What an invocation of a tool must agree on, beside its name.
pub open spec fn terms_mismatch(
    definition: ToolDefinition,
    version: Seq<char>,
    parallel_safe: bool,
    side_effect: SideEffectClass,
) -> Option<AdapterErrorView> {
    let tool = definition.name@;
    if definition.version@ != version {
        Some(
            AdapterErrorView::DefinitionMismatch {
                tool,
                field: "version"@,
                core: definition.version@,
                provider: version,
            },
        )
    } else if definition.parallel_safe != parallel_safe {
        Some(
            AdapterErrorView::DefinitionMismatch {
                tool,
                field: "parallelSafe"@,
                core: bool_text(definition.parallel_safe),
                provider: bool_text(parallel_safe),
            },
        )
    } else if definition.side_effect != side_effect {
        Some(
            AdapterErrorView::DefinitionMismatch {
                tool,
                field: "sideEffect"@,
                core: side_effect_text(definition.side_effect),
                provider: side_effect_text(side_effect),
            },
        )
    } else {
        None
    }
}

/// Where a definition and the provider's tool disagree.
pub open spec fn definition_mismatch(a: ToolAdapterView, definition: ToolDefinition) -> Option<
    AdapterErrorView,
> {
    if definition.name@ != a.tool_name {
        Some(
            AdapterErrorView::DefinitionMismatch {
                tool: a.tool_name,
                field: "name"@,
                core: definition.name@,
                provider: a.tool_name,
            },
        )
    } else {
        terms_mismatch(definition, a.version, a.parallel_safe, a.side_effect)
    }
}

/// The view of a check.
pub open spec fn adapter_check(r: Result<(), ProviderAdapterError>) -> Option<AdapterErrorView> {
    match r {
        Ok(_) => None,
        Err(e) => Some(e@),
    }
}

fn check_terms(
    definition: &ToolDefinition,
    version: &String,
    parallel_safe: bool,
    side_effect: SideEffectClass,
) -> (r: Result<(), ProviderAdapterError>)
    ensures
        adapter_check(r) == terms_mismatch(*definition, version@, parallel_safe, side_effect),
{
    if definition.version != *version {
        return Err(
            ProviderAdapterError::DefinitionMismatch {
                tool: definition.name.clone(),
                field: "version",
                core: definition.version.clone(),
                provider: version.clone(),
            },
        );
    }
    if definition.parallel_safe != parallel_safe {
        return Err(
            ProviderAdapterError::DefinitionMismatch {
                tool: definition.name.clone(),
                field: "parallelSafe",
                core: bool_name(definition.parallel_safe),
                provider: bool_name(parallel_safe),
            },
        );
    }
    if definition.side_effect != side_effect {
        return Err(
            ProviderAdapterError::DefinitionMismatch {
                tool: definition.name.clone(),
                field: "sideEffect",
                core: side_effect_name(definition.side_effect),
                provider: side_effect_name(side_effect),
            },
        );
    }
    Ok(())
}

/// Whether parameters carry an invocation: the invocation's id names the
/// operation, and nothing is left out or put in.
pub open spec fn carries(p: ToolInvokeParams, i: ToolInvocation) -> bool {
    &&& p.operation_id@ == i.invocation_id@
    &&& p.invocation_id@ == i.invocation_id@
    &&& p.call_id@ == i.call_id@
    &&& p.session_id@ == i.session_id@
    &&& p.tool@ == i.tool_name@
    &&& p.arguments_json@ == i.arguments_json@
    &&& p.attempt == i.attempt
    &&& p.idempotency_key@ == i.idempotency_key@
    &&& p.deadline is None
}

impl ProviderHostToolAdapter {
    /// Binds the tool `tool_name` of the provider behind `manifest`.
    pub fn new(manifest: Option<&ProviderManifest>, tool_name: &String) -> (r: Result<
        Self,
        ProviderAdapterError,
    >)
        ensures
            match r {
                Ok(adapter) => bound_tool(opt_manifest(manifest), tool_name@) == Ok::<
                    ToolAdapterView,
                    AdapterErrorView,
                >(adapter@),
                Err(e) => bound_tool(opt_manifest(manifest), tool_name@) == Err::<
                    ToolAdapterView,
                    AdapterErrorView,
                >(e@),
            },
    {
        if tool_name.as_str().is_empty() {
            return Err(ProviderAdapterError::EmptyToolName);
        }
        let manifest = match manifest {
            Some(manifest) => manifest,
            None => {
                return Err(ProviderAdapterError::ManifestUnavailable);
            },
        };
        let provider_id = match take_provider_id(manifest) {
            Ok(id) => id,
            Err(error) => {
                return Err(error);
            },
        };
        match find_descriptor(&manifest.capabilities, tool_name) {
            Some(
                CapabilityDescriptor::Tool {
                    version,
                    parallel_safe,
                    side_effect,
                    supports_idempotency_key,
                    ..
                },
            ) => Ok(
                ProviderHostToolAdapter {
                    provider_id,
                    tool_name: tool_name.clone(),
                    version: version.clone(),
                    parallel_safe: *parallel_safe,
                    side_effect: domain_side_effect(*side_effect),
                    idempotency_support: if *supports_idempotency_key {
                        IdempotencySupport::Keyed
                    } else {
                        IdempotencySupport::Unsupported
                    },
                },
            ),
            _ => Err(ProviderAdapterError::ToolNotDeclared(tool_name.clone())),
        }
    }

    /// Binds the tool that `definition` names, where the two agree.
    pub fn from_definition(
        manifest: Option<&ProviderManifest>,
        definition: &ToolDefinition,
    ) -> (r: Result<Self, ProviderAdapterError>)
        ensures
            match r {
                Ok(adapter) => {
                    &&& bound_tool(opt_manifest(manifest), definition.name@) == Ok::<
                        ToolAdapterView,
                        AdapterErrorView,
                    >(adapter@)
                    &&& definition_mismatch(adapter@, *definition) is None
                },
                Err(e) => match bound_tool(opt_manifest(manifest), definition.name@) {
                    Err(error) => error == e@,
                    Ok(adapter) => definition_mismatch(adapter, *definition) == Some(e@),
                },
            },
    {
        match ProviderHostToolAdapter::new(manifest, &definition.name) {
            Ok(adapter) => match adapter.validate_definition(definition) {
                Ok(()) => Ok(adapter),
                Err(error) => Err(error),
            },
            Err(error) => Err(error),
        }
    }

    pub fn tool_name(&self) -> (r: &str)
        ensures
            r@ == self.tool_name@,
    {
        self.tool_name.as_str()
    }

    pub fn manifest_side_effect(&self) -> (r: SideEffectClass)
        ensures
            r == self.side_effect,
    {
        self.side_effect
    }

    /// Checks that a definition means what the provider declared.
    pub fn validate_definition(&self, definition: &ToolDefinition) -> (r: Result<
        (),
        ProviderAdapterError,
    >)
        ensures
            adapter_check(r) == definition_mismatch(self@, *definition),
    {
        if definition.name != self.tool_name {
            return Err(
                ProviderAdapterError::DefinitionMismatch {
                    tool: self.tool_name.clone(),
                    field: "name",
                    core: definition.name.clone(),
                    provider: self.tool_name.clone(),
                },
            );
        }
        check_terms(definition, &self.version, self.parallel_safe, self.side_effect)
    }

    /// What to send for an invocation, unless it is for another tool.
    pub fn invoke_params(&self, invocation: ToolInvocation) -> (r: Result<
        ToolInvokeParams,
        PortableError,
    >)
        ensures
            match r {
                Ok(params) => invocation.tool_name@ == self.tool_name@ && carries(
                    params,
                    invocation,
                ),
                Err(failure) => invocation.tool_name@ != self.tool_name@ && failure@
                    == plain_failure(
                    ErrorCode::InvalidArgument,
                    "ProviderHostToolAdapter is bound to "@ + self.tool_name@ + ", received "@
                        + invocation.tool_name@,
                ),
            },
    {
        if invocation.tool_name != self.tool_name {
            return Err(
                PortableError::new(
                    ErrorCode::InvalidArgument,
                    concat4(
                        "ProviderHostToolAdapter is bound to ",
                        self.tool_name.as_str(),
                        ", received ",
                        invocation.tool_name.as_str(),
                    ),
                ),
            );
        }
        Ok(
            ToolInvokeParams {
                operation_id: invocation.invocation_id.as_str().to_owned(),
                invocation_id: invocation.invocation_id.as_str().to_owned(),
                call_id: invocation.call_id.as_str().to_owned(),
                session_id: invocation.session_id.as_str().to_owned(),
                tool: invocation.tool_name,
                arguments_json: invocation.arguments_json.into_string(),
                attempt: invocation.attempt,
                idempotency_key: invocation.idempotency_key.into_string(),
                deadline: None,
            },
        )
    }
}

/// What a manifest says of repeated calls of a defined tool, or where the two
/// disagree.
pub open spec fn manifest_support(m: ManifestView, definition: ToolDefinition) -> Result<
    IdempotencySupport,
    AdapterErrorView,
> {
    match descriptor_of(m.capabilities, definition.name@) {
        Some(
            CapabilityView::Tool {
                version,
                parallel_safe,
                side_effect,
                supports_idempotency_key,
                ..
            },
        ) => match terms_mismatch(
            definition,
            version,
            parallel_safe,
            side_effect_of(side_effect),
        ) {
            Some(error) => Err(error),
            None => Ok(key_support(supports_idempotency_key)),
        },
        _ => Err(AdapterErrorView::ToolNotDeclared(definition.name@)),
    }
}

/// Checks a definition against a manifest.
pub fn validate_tool_manifest(manifest: &ProviderManifest, definition: &ToolDefinition) -> (r:
    Result<IdempotencySupport, ProviderAdapterError>)
    ensures
        match r {
            Ok(support) => manifest_support(manifest@, *definition) == Ok::<
                IdempotencySupport,
                AdapterErrorView,
            >(support),
            Err(e) => manifest_support(manifest@, *definition) == Err::<
                IdempotencySupport,
                AdapterErrorView,
            >(e@),
        },
{
    match find_descriptor(&manifest.capabilities, &definition.name) {
        Some(
            CapabilityDescriptor::Tool {
                version,
                parallel_safe,
                side_effect,
                supports_idempotency_key,
                ..
            },
        ) => match check_terms(
            definition,
            version,
            *parallel_safe,
            domain_side_effect(*side_effect),
        ) {
            Ok(()) => Ok(
                if *supports_idempotency_key {
                    IdempotencySupport::Keyed
                } else {
                    IdempotencySupport::Unsupported
                },
            ),
            Err(error) => Err(error),
        },
        _ => Err(ProviderAdapterError::ToolNotDeclared(definition.name.clone())),
    }
}

/// A definition that passes against a manifest can be bound to its provider, and
/// the other way round, with the same word on repeated calls.
pub proof fn law_checked_definitions_can_be_bound(m: ManifestView, definition: ToolDefinition)
    requires
        m.provider_id.len() > 0,
        definition.name@.len() > 0,
    ensures
        manifest_support(m, definition) is Ok <==> (bound_tool(Some(m), definition.name@) is Ok
            && definition_mismatch(
            bound_tool(Some(m), definition.name@)->Ok_0,
            definition,
        ) is None),
        manifest_support(m, definition) matches Ok(support) ==> bound_tool(
            Some(m),
            definition.name@,
        )->Ok_0.idempotency_support == support,
{
}

/// The tool of a name is the first that is declared under it, and none is found that is not
/// declared.
pub proof fn law_descriptors_are_found_by_name(s: Seq<CapabilityView>, name: Seq<char>)
    ensures
        match descriptor_of(s, name) {
            Some(found) => exists|i: int|
                0 <= i < s.len() && (#[trigger] s[i]) == found && (
                found matches CapabilityView::Tool { name: n, .. } && n == name) && forall|j: int|
                    0 <= j < i ==> !((#[trigger] s[j]) matches CapabilityView::Tool {
                        name: n,
                        ..
                    } && n == name),
            None => forall|i: int|
                0 <= i < s.len() ==> !((#[trigger] s[i]) matches CapabilityView::Tool {
                    name: n,
                    ..
                } && n == name),
        },
    decreases s.len(),
{
    if s.len() > 0 {
        let rest = s.skip(1);
        law_descriptors_are_found_by_name(rest, name);
        if is_tool_named(s[0], name) {
            assert(s[0] == s[0]);
        } else if let Some(found) = descriptor_of(rest, name) {
            let i = choose|i: int|
                0 <= i < rest.len() && (#[trigger] rest[i]) == found && (
                found matches CapabilityView::Tool { name: n, .. } && n == name) && forall|j: int|
                    0 <= j < i ==> !((#[trigger] rest[j]) matches CapabilityView::Tool {
                        name: n,
                        ..
                    } && n == name);
            assert forall|j: int| 0 <= j < i + 1 implies !((
            #[trigger] s[j]) matches CapabilityView::Tool { name: n, .. } && n == name) by {
                if j > 0 {
                    assert(rest[j - 1] == s[j]);
                }
            }
            assert(s[i + 1] == found);
        } else {
            assert forall|i: int| 0 <= i < s.len() implies !((
            #[trigger] s[i]) matches CapabilityView::Tool { name: n, .. } && n == name) by {
                if i > 0 {
                    assert(rest[i - 1] == s[i]);
                }
            }
        }
    }
}

/// A tool can be bound if and only if it has a name, its provider has one, and the manifest
/// declares it. What is bound is what the manifest says of the tool.
pub proof fn law_bound_tools_are_declared(m: Option<ManifestView>, name: Seq<char>)
    ensures
        match bound_tool(m, name) {
            Ok(adapter) => {
                &&& m matches Some(m)
                &&& m.provider_id.len() > 0 && name.len() > 0
                &&& adapter.provider_id == m.provider_id && adapter.tool_name == name
                &&& descriptor_of(m.capabilities, name) matches Some(
                    CapabilityView::Tool {
                        version,
                        parallel_safe,
                        side_effect,
                        supports_idempotency_key,
                        ..
                    },
                )
                &&& adapter.version == version && adapter.parallel_safe == parallel_safe
                &&& adapter.side_effect == side_effect_of(side_effect)
                &&& adapter.idempotency_support == IdempotencySupport::Keyed
                    <==> supports_idempotency_key
            },
            Err(e) => {
                ||| name.len() == 0 && e is EmptyToolName
                ||| name.len() > 0 && m is None && e is ManifestUnavailable
                ||| name.len() > 0 && m is Some && m->0.provider_id.len() == 0
                    && e is InvalidProviderId
                ||| name.len() > 0 && m is Some && m->0.provider_id.len() > 0 && descriptor_of(
                    m->0.capabilities,
                    name,
                ) is None && e == AdapterErrorView::ToolNotDeclared(name)
            },
        },
{
    if let Some(m) = m {
        law_descriptors_are_found_by_name(m.capabilities, name);
    }
}

/// A definition agrees with the provider's tool if and only if name, version, parallel use
/// and class are the same.
pub proof fn law_definitions_must_agree(a: ToolAdapterView, definition: ToolDefinition)
    ensures
        definition_mismatch(a, definition) is None <==> {
            &&& definition.name@ == a.tool_name
            &&& definition.version@ == a.version
            &&& definition.parallel_safe == a.parallel_safe
            &&& definition.side_effect == a.side_effect
        },
        definition_mismatch(a, definition) matches Some(e) ==> e is DefinitionMismatch,
{
}

/// The provider behind a manifest is the one that it names.
pub proof fn law_providers_are_named_by_their_manifest(m: Option<ManifestView>)
    ensures
        match provider_name(m) {
            Ok(name) => m matches Some(m) && name == m.provider_id && name.len() > 0,
            Err(e) => m is None && e is ManifestUnavailable || m is Some
                && m->0.provider_id.len() == 0 && e is InvalidProviderId,
        },
{
}

/// A mismatch is reported of the tool in question, by the field that differs and the two
/// values that it has.
pub proof fn law_mismatches_are_named(a: ToolAdapterView, definition: ToolDefinition)
    ensures
        match definition_mismatch(a, definition) {
            None => true,
            Some(AdapterErrorView::DefinitionMismatch { tool, field, core, provider }) => {
                &&& tool == a.tool_name
                &&& {
                    ||| field == "name"@ && core == definition.name@ && provider == a.tool_name
                        && core != provider
                    ||| field == "version"@ && core == definition.version@ && provider == a.version
                        && core != provider
                    ||| field == "parallelSafe"@ && definition.parallel_safe != a.parallel_safe
                        && core == (if definition.parallel_safe {
                        "true"@
                    } else {
                        "false"@
                    }) && provider == (if a.parallel_safe {
                        "true"@
                    } else {
                        "false"@
                    })
                    ||| field == "sideEffect"@ && definition.side_effect != a.side_effect
                        && is_name_of_class(core, definition.side_effect) && is_name_of_class(
                        provider,
                        a.side_effect,
                    )
                }
            },
            Some(_) => false,
        },
{
}

/// Whether `text` is what a class of effects is called.
pub open spec fn is_name_of_class(text: Seq<char>, class: SideEffectClass) -> bool {
    &&& class == SideEffectClass::ReadOnly ==> text == "ReadOnly"@
    &&& class == SideEffectClass::IdempotentWrite ==> text == "IdempotentWrite"@
    &&& class == SideEffectClass::NonIdempotentWrite ==> text == "NonIdempotentWrite"@
}

} // verus!
