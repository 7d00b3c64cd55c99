//! The life of one provider over several processes.

use vstd::prelude::*;

use crate::host::error::{
    generation_of, ProviderSlotError, ProviderSlotStatus, ProviderState, SlotErrorView,
};
use crate::protocol::manifest::{
    capabilities_view, is_tool_named, manifest_error_text, manifest_fault, model_before,
    offers_model, CapabilityDescriptor, CapabilityView, ManifestView, ProviderManifest,
    WireSideEffectClass,
};
use crate::text::texts;
use crate::types::ProviderId;

verus! {

/// What a manifest says of one tool.
#[derive(Debug, PartialEq, Eq)]
pub struct ToolManifestShape {
    pub version: String,
    pub parallel_safe: bool,
    pub side_effect: WireSideEffectClass,
    pub supports_idempotency_key: bool,
}

#[verifier::ext_equal]
pub struct ToolShapeView {
    pub version: Seq<char>,
    pub parallel_safe: bool,
    pub side_effect: WireSideEffectClass,
    pub supports_idempotency_key: bool,
}

impl View for ToolManifestShape {
    type V = ToolShapeView;

    open spec fn view(&self) -> ToolShapeView {
        ToolShapeView {
            version: self.version@,
            parallel_safe: self.parallel_safe,
            side_effect: self.side_effect,
            supports_idempotency_key: self.supports_idempotency_key,
        }
    }
}

impl ToolManifestShape {
    fn same(&self, other: &ToolManifestShape) -> (r: bool)
        ensures
            r == (self@ == other@),
    {
        self.version == other.version && self.parallel_safe == other.parallel_safe
            && self.side_effect == other.side_effect && self.supports_idempotency_key
            == other.supports_idempotency_key
    }
}

/// A manifest without the order in which it was written.
#[derive(Debug, PartialEq, Eq)]
pub struct ManifestShape {
    pub provider_id: String,
    pub provider_version: String,
    pub protocol_version: String,
    /// Each tool once.
    pub tools: Vec<(String, ToolManifestShape)>,
    pub models: Vec<String>,
}

#[verifier::ext_equal]
pub struct ShapeView {
    pub provider_id: Seq<char>,
    pub provider_version: Seq<char>,
    pub protocol_version: Seq<char>,
    pub tools: Map<Seq<char>, ToolShapeView>,
    pub models: Set<Seq<char>>,
}

/// The table that named rows make up. The last row of a name counts.
pub open spec fn tool_table(s: Seq<(String, ToolManifestShape)>) -> Map<Seq<char>, ToolShapeView>
    decreases s.len(),
{
    if s.len() == 0 {
        Map::empty()
    } else {
        tool_table(s.drop_last()).insert(s.last().0@, s.last().1@)
    }
}

/// The texts in a row, as a set.
pub open spec fn text_set(s: Seq<String>) -> Set<Seq<char>> {
    Set::new(|t: Seq<char>| texts(s).contains(t))
}

impl View for ManifestShape {
    type V = ShapeView;

    open spec fn view(&self) -> ShapeView {
        ShapeView {
            provider_id: self.provider_id@,
            provider_version: self.provider_version@,
            protocol_version: self.protocol_version@,
            tools: tool_table(self.tools@),
            models: text_set(self.models@),
        }
    }
}

/// What a tool capability says of its tool.
pub open spec fn tool_shape(c: CapabilityView) -> ToolShapeView {
    ToolShapeView {
        version: c->version,
        parallel_safe: c->parallel_safe,
        side_effect: c->side_effect,
        supports_idempotency_key: c->supports_idempotency_key,
    }
}

/// The tools that capabilities declare. The last declaration of a name counts.
pub open spec fn declared_tools(s: Seq<CapabilityView>) -> Map<Seq<char>, ToolShapeView>
    decreases s.len(),
{
    if s.len() == 0 {
        Map::empty()
    } else if s.last() is Tool {
        declared_tools(s.drop_last()).insert(s.last()->name, tool_shape(s.last()))
    } else {
        declared_tools(s.drop_last())
    }
}

/// The models that capabilities declare.
pub open spec fn declared_models(s: Seq<CapabilityView>) -> Set<Seq<char>> {
    Set::new(|name: Seq<char>| model_before(s, s.len() as int, name))
}

/// A manifest without the order in which it was written.
pub open spec fn shape_of(m: ManifestView) -> ShapeView {
    ShapeView {
        provider_id: m.provider_id,
        provider_version: m.provider_version,
        protocol_version: m.protocol_version,
        tools: declared_tools(m.capabilities),
        models: declared_models(m.capabilities),
    }
}

/// Whether rows have a name each at most once.
pub open spec fn names_once(s: Seq<(String, ToolManifestShape)>) -> bool {
    forall|i: int, j: int|
        0 <= i < j < s.len() ==> (#[trigger] s[i]).0@ != (#[trigger] s[j]).0@
}

/// In rows that have a name each at most once, every row is in the table and the
/// table holds nothing else.
proof fn lemma_table(s: Seq<(String, ToolManifestShape)>)
    requires
        names_once(s),
    ensures
        forall|i: int|
            0 <= i < s.len() ==> #[trigger] tool_table(s).contains_key(s[i].0@) && tool_table(
                s,
            )[s[i].0@] == s[i].1@,
        forall|name: Seq<char>|
            tool_table(s).contains_key(name) ==> exists|i: int|
                0 <= i < s.len() && (#[trigger] s[i]).0@ == name,
    decreases s.len(),
{
    if s.len() > 0 {
        let rest = s.drop_last();
        assert(names_once(rest));
        lemma_table(rest);
        assert forall|i: int| 0 <= i < s.len() implies #[trigger] tool_table(s).contains_key(
            s[i].0@,
        ) && tool_table(s)[s[i].0@] == s[i].1@ by {
            if i < s.len() - 1 {
                assert(rest[i] == s[i]);
                assert(tool_table(rest).contains_key(rest[i].0@));
                assert(s[i].0@ != s[s.len() - 1].0@);
            }
        }
        assert forall|name: Seq<char>| tool_table(s).contains_key(name) implies exists|i: int|
            0 <= i < s.len() && (#[trigger] s[i]).0@ == name by {
            if name == s.last().0@ {
                assert(s[s.len() - 1].0@ == name);
            } else {
                assert(tool_table(rest).contains_key(name));
                let i = choose|i: int| 0 <= i < rest.len() && (#[trigger] rest[i]).0@ == name;
                assert(s[i].0@ == name);
            }
        }
    }
}

/// Setting the row at `i` sets its name in the table.
proof fn lemma_table_update(s: Seq<(String, ToolManifestShape)>, i: int, row: (
    String,
    ToolManifestShape,
))
    requires
        names_once(s),
        0 <= i < s.len(),
        row.0@ == s[i].0@,
    ensures
        names_once(s.update(i, row)),
        tool_table(s.update(i, row)) == tool_table(s).insert(row.0@, row.1@),
{
    let t = s.update(i, row);
    assert(names_once(t)) by {
        assert forall|a: int, b: int| 0 <= a < b < t.len() implies (#[trigger] t[a]).0@ != (
        #[trigger] t[b]).0@ by {
            assert(s[a].0@ != s[b].0@);
        }
    }
    lemma_table(s);
    lemma_table(t);
    let left = tool_table(t);
    let right = tool_table(s).insert(row.0@, row.1@);
    assert forall|name: Seq<char>| left.contains_key(name) <==> right.contains_key(name) by {
        if left.contains_key(name) {
            let k = choose|k: int| 0 <= k < t.len() && (#[trigger] t[k]).0@ == name;
            assert(s[k].0@ == name);
            assert(tool_table(s).contains_key(s[k].0@));
        }
        if right.contains_key(name) {
            if name == row.0@ {
                assert(left.contains_key(t[i].0@));
            } else {
                let k = choose|k: int| 0 <= k < s.len() && (#[trigger] s[k]).0@ == name;
                assert(t[k] == s[k]);
                assert(left.contains_key(t[k].0@));
            }
        }
    }
    assert forall|name: Seq<char>| left.contains_key(name) implies left[name] == right[name] by {
        let k = choose|k: int| 0 <= k < t.len() && (#[trigger] t[k]).0@ == name;
        assert(left.contains_key(t[k].0@) && left[t[k].0@] == t[k].1@);
        if k != i {
            assert(t[k] == s[k]);
            assert(s[k].0@ != s[i].0@) by {
                if k < i {
                    assert(s[k].0@ != s[i].0@);
                } else {
                    assert(s[i].0@ != s[k].0@);
                }
            }
            assert(tool_table(s).contains_key(s[k].0@) && tool_table(s)[s[k].0@] == s[k].1@);
        }
    }
    assert(left =~= right);
}

fn position_of(tools: &Vec<(String, ToolManifestShape)>, name: &String) -> (r: Option<usize>)
    ensures
        match r {
            Some(i) => i < tools@.len() && tools@[i as int].0@ == name@,
            None => forall|i: int| 0 <= i < tools@.len() ==> (#[trigger] tools@[i]).0@ != name@,
        },
{
    let mut i: usize = 0;
    while i < tools.len()
        invariant
            i <= tools@.len(),
            forall|j: int| 0 <= j < i ==> (#[trigger] tools@[j]).0@ != name@,
        decreases tools@.len() - i,
    {
        if tools[i].0 == *name {
            return Some(i);
        }
        i = i + 1;
    }
    None
}

fn put_tool(tools: &mut Vec<(String, ToolManifestShape)>, name: &String, shape: ToolManifestShape)
    requires
        names_once(old(tools)@),
    ensures
        names_once(final(tools)@),
        tool_table(final(tools)@) == tool_table(old(tools)@).insert(name@, shape@),
{
    match position_of(tools, name) {
        Some(i) => {
            proof {
                lemma_table_update(tools@, i as int, (*name, shape));
            }
            tools.set(i, (name.clone(), shape));
        },
        None => {
            let ghost before = tools@;
            tools.push((name.clone(), shape));
            assert(tools@.drop_last() =~= before);
        },
    }
}

/// A manifest without the order in which it was written.
pub fn manifest_shape(manifest: &ProviderManifest) -> (r: ManifestShape)
    ensures
        r@ == shape_of(manifest@),
        names_once(r.tools@),
{
    let ghost all = capabilities_view(manifest.capabilities@);
    let mut tools: Vec<(String, ToolManifestShape)> = Vec::new();
    let mut models: Vec<String> = Vec::new();
    let mut i: usize = 0;
    while i < manifest.capabilities.len()
        invariant
            i <= manifest.capabilities@.len(),
            all == capabilities_view(manifest.capabilities@),
            names_once(tools@),
            tool_table(tools@) == declared_tools(all.take(i as int)),
            forall|name: Seq<char>|
                #[trigger] texts(models@).contains(name) <==> model_before(all, i as int, name),
        decreases manifest.capabilities@.len() - i,
    {
        assert(all.take(i + 1).drop_last() =~= all.take(i as int));
        assert(all.take(i + 1).last() == all[i as int]);
        match &manifest.capabilities[i] {
            CapabilityDescriptor::Tool {
                name,
                version,
                parallel_safe,
                side_effect,
                supports_idempotency_key,
            } => {
                put_tool(
                    &mut tools,
                    name,
                    ToolManifestShape {
                        version: version.clone(),
                        parallel_safe: *parallel_safe,
                        side_effect: *side_effect,
                        supports_idempotency_key: *supports_idempotency_key,
                    },
                );
                assert forall|name: Seq<char>| #[trigger]
                    texts(models@).contains(name) <==> model_before(all, i + 1, name) by {
                    lemma_model_step(all, i as int, name);
                }
            },
            CapabilityDescriptor::Llm { models: declared } => {
                let ghost before = texts(models@);
                let mut k: usize = 0;
                while k < declared.len()
                    invariant
                        k <= declared@.len(),
                        texts(models@) == before + texts(declared@).take(k as int),
                    decreases declared@.len() - k,
                {
                    let ghost prior = models@;
                    models.push(declared[k].clone());
                    assert(texts(models@) =~= texts(prior).push(declared@[k as int]@));
                    assert(texts(declared@).take(k + 1) =~= texts(declared@).take(k as int).push(
                        declared@[k as int]@,
                    ));
                    assert(texts(models@) =~= before + texts(declared@).take(k + 1));
                    k = k + 1;
                }
                assert(texts(declared@).take(k as int) =~= texts(declared@));
                assert forall|name: Seq<char>| #[trigger]
                    texts(models@).contains(name) <==> model_before(all, i + 1, name) by {
                    lemma_model_step(all, i as int, name);
                    lemma_contains_concat(before, texts(declared@), name);
                    assert(before.contains(name) <==> model_before(all, i as int, name));
                }
            },
        }
        i = i + 1;
    }
    assert(all.take(i as int) =~= all);
    assert(text_set(models@) =~= declared_models(all));
    ManifestShape {
        provider_id: manifest.provider_id.clone(),
        provider_version: manifest.provider_version.clone(),
        protocol_version: manifest.protocol_version.clone(),
        tools,
        models,
    }
}

/// A model is declared among the first `n + 1` capabilities exactly when it is
/// among the first `n` or the next offers it.
proof fn lemma_model_step(s: Seq<CapabilityView>, n: int, name: Seq<char>)
    requires
        0 <= n < s.len(),
    ensures
        model_before(s, n + 1, name) <==> model_before(s, n, name) || offers_model(s[n], name),
{
    if model_before(s, n + 1, name) && !model_before(s, n, name) {
        let i = choose|i: int| 0 <= i < n + 1 && offers_model(#[trigger] s[i], name);
        assert(i == n);
    }
}

proof fn lemma_contains_concat(a: Seq<Seq<char>>, b: Seq<Seq<char>>, x: Seq<char>)
    ensures
        (a + b).contains(x) <==> a.contains(x) || b.contains(x),
{
    if (a + b).contains(x) {
        let i = choose|i: int| 0 <= i < (a + b).len() && (a + b)[i] == x;
        if i < a.len() {
            assert(a[i] == x);
        } else {
            assert(b[i - a.len()] == x);
        }
    }
    if a.contains(x) {
        let i = choose|i: int| 0 <= i < a.len() && a[i] == x;
        assert((a + b)[i] == x);
    }
    if b.contains(x) {
        let i = choose|i: int| 0 <= i < b.len() && b[i] == x;
        assert((a + b)[a.len() + i] == x);
    }
}

/// Whether every row of `a` is, name and contents, a row of `b`.
fn tools_within(
    a: &Vec<(String, ToolManifestShape)>,
    b: &Vec<(String, ToolManifestShape)>,
) -> (r: bool)
    requires
        names_once(a@),
        names_once(b@),
    ensures
        r == (forall|name: Seq<char>| #[trigger]
            tool_table(a@).contains_key(name) ==> tool_table(b@).contains_key(name) && tool_table(
                a@,
            )[name] == tool_table(b@)[name]),
{
    proof {
        lemma_table(a@);
        lemma_table(b@);
    }
    let mut i: usize = 0;
    while i < a.len()
        invariant
            i <= a@.len(),
            forall|k: int|
                0 <= k < a@.len() ==> #[trigger] tool_table(a@).contains_key(a@[k].0@)
                    && tool_table(a@)[a@[k].0@] == a@[k].1@,
            forall|k: int|
                0 <= k < b@.len() ==> #[trigger] tool_table(b@).contains_key(b@[k].0@)
                    && tool_table(b@)[b@[k].0@] == b@[k].1@,
            forall|name: Seq<char>|
                tool_table(b@).contains_key(name) ==> exists|k: int|
                    0 <= k < b@.len() && (#[trigger] b@[k]).0@ == name,
            forall|j: int|
                0 <= j < i ==> tool_table(b@).contains_key((#[trigger] a@[j]).0@) && tool_table(
                    b@,
                )[a@[j].0@] == a@[j].1@,
        decreases a@.len() - i,
    {
        let ghost name = a@[i as int].0@;
        assert(tool_table(a@).contains_key(name) && tool_table(a@)[name] == a@[i as int].1@);
        match position_of(b, &a[i].0) {
            Some(k) => {
                assert(tool_table(b@).contains_key(b@[k as int].0@));
                if !a[i].1.same(&b[k].1) {
                    return false;
                }
            },
            None => {
                return false;
            },
        }
        i = i + 1;
    }
    assert forall|name: Seq<char>| #[trigger] tool_table(a@).contains_key(name) implies tool_table(
        b@,
    ).contains_key(name) && tool_table(a@)[name] == tool_table(b@)[name] by {
        let k = choose|k: int| 0 <= k < a@.len() && (#[trigger] a@[k]).0@ == name;
        assert(tool_table(a@).contains_key(a@[k].0@));
    }
    true
}

/// Whether every text of `a` is one of `b`.
fn texts_within(a: &Vec<String>, b: &Vec<String>) -> (r: bool)
    ensures
        r == text_set(a@).subset_of(text_set(b@)),
{
    let ghost left = texts(a@);
    let ghost right = texts(b@);
    let mut i: usize = 0;
    while i < a.len()
        invariant
            i <= a@.len(),
            left == texts(a@),
            right == texts(b@),
            forall|j: int| 0 <= j < i ==> right.contains(#[trigger] left[j]),
        decreases a@.len() - i,
    {
        assert(right.take(b@.len() as int) =~= right);
        if !crate::protocol::manifest::text_among(b, b.len(), &a[i]) {
            assert(left.contains(left[i as int]));
            assert(text_set(a@).contains(left[i as int]));
            assert(!text_set(b@).contains(left[i as int]));
            return false;
        }
        i = i + 1;
    }
    assert forall|t: Seq<char>| text_set(a@).contains(t) implies text_set(b@).contains(t) by {
        let j = choose|j: int| 0 <= j < left.len() && left[j] == t;
        assert(right.contains(left[j]));
    }
    true
}

/// Whether two manifests say the same, whatever the order in which they say it.
pub fn manifests_semantically_equal(left: &ProviderManifest, right: &ProviderManifest) -> (r: bool)
    ensures
        r == (shape_of(left@) == shape_of(right@)),
{
    let a = manifest_shape(left);
    let b = manifest_shape(right);
    if a.provider_id != b.provider_id || a.provider_version != b.provider_version
        || a.protocol_version != b.protocol_version {
        return false;
    }
    if !tools_within(&a.tools, &b.tools) || !tools_within(&b.tools, &a.tools) {
        return false;
    }
    assert(a@.tools =~= b@.tools);
    if !texts_within(&a.models, &b.models) || !texts_within(&b.models, &a.models) {
        return false;
    }
    assert(a@.models =~= b@.models);
    true
}

/// A provider process that is in use.
#[derive(Debug, PartialEq)]
pub struct ProviderGeneration<H> {
    pub generation: u32,
    pub host: H,
    pub manifest: ProviderManifest,
}

impl<H> ProviderGeneration<H> {
    pub fn generation(&self) -> (r: u32)
        ensures
            r == self.generation,
    {
        self.generation
    }

    pub fn host(&self) -> (r: &H)
        ensures
            *r == self.host,
    {
        &self.host
    }

    pub fn manifest(&self) -> (r: &ProviderManifest)
        ensures
            *r == self.manifest,
    {
        &self.manifest
    }
}

/// Where a slot stands, with the process where there is one.
#[derive(Debug, PartialEq)]
#[allow(inconsistent_fields)]
pub enum ProviderSlotState<H> {
    Ready(ProviderGeneration<H>),
    Unavailable { generation: u32, host: H },
    Quarantined { generation: u32 },
    Stopped { generation: u32 },
}

/// The status of a state.
pub open spec fn status_of_state<H>(state: ProviderSlotState<H>) -> ProviderSlotStatus {
    match state {
        ProviderSlotState::Ready(active) => ProviderSlotStatus::Ready {
            generation: active.generation,
        },
        ProviderSlotState::Unavailable { generation, .. } => ProviderSlotStatus::Unavailable {
            generation,
        },
        ProviderSlotState::Quarantined { generation } => ProviderSlotStatus::Quarantined {
            generation,
        },
        ProviderSlotState::Stopped { generation } => ProviderSlotStatus::Stopped { generation },
    }
}

fn status_of<H>(state: &ProviderSlotState<H>) -> (r: ProviderSlotStatus)
    ensures
        r == status_of_state(*state),
{
    match state {
        ProviderSlotState::Ready(active) => ProviderSlotStatus::Ready {
            generation: active.generation,
        },
        ProviderSlotState::Unavailable { generation, .. } => ProviderSlotStatus::Unavailable {
            generation: *generation,
        },
        ProviderSlotState::Quarantined { generation } => ProviderSlotStatus::Quarantined {
            generation: *generation,
        },
        ProviderSlotState::Stopped { generation } => ProviderSlotStatus::Stopped {
            generation: *generation,
        },
    }
}

/// The place of one provider. Processes come and go in it; what they may declare
/// was settled by the first.
#[derive(Debug, PartialEq)]
pub struct ProviderSlot<H> {
    pub provider_id: ProviderId,
    pub baseline_manifest: ProviderManifest,
    pub state: ProviderSlotState<H>,
}

/// What is wrong with a manifest for the slot of `expected`.
pub open spec fn slot_manifest_fault(expected: Seq<char>, m: ManifestView) -> Option<
    SlotErrorView,
> {
    if let Some(fault) = manifest_fault(m) {
        Some(SlotErrorView::InvalidManifest(manifest_error_text(fault)))
    } else if m.provider_id.len() == 0 {
        Some(
            SlotErrorView::InvalidManifestProviderId {
                value: m.provider_id,
                message: "identifier must not be empty"@,
            },
        )
    } else if m.provider_id != expected {
        Some(SlotErrorView::IdentityMismatch { expected, actual: m.provider_id })
    } else {
        None
    }
}

/// The view of a check.
pub open spec fn slot_check(r: Result<(), ProviderSlotError>) -> Option<SlotErrorView> {
    match r {
        Ok(_) => None,
        Err(e) => Some(e@),
    }
}

fn validate_slot_manifest(expected: &ProviderId, manifest: &ProviderManifest) -> (r: Result<
    (),
    ProviderSlotError,
>)
    ensures
        slot_check(r) == slot_manifest_fault(expected@, manifest@),
{
    if let Err(error) = manifest.validate() {
        return Err(ProviderSlotError::InvalidManifest(error.message()));
    }
    let actual = match ProviderId::new(manifest.provider_id.as_str()) {
        Ok(actual) => actual,
        Err(error) => {
            return Err(
                ProviderSlotError::InvalidManifestProviderId {
                    value: manifest.provider_id.clone(),
                    message: error.message(),
                },
            );
        },
    };
    if !actual.same(expected) {
        return Err(ProviderSlotError::IdentityMismatch { expected: expected.clone(), actual });
    }
    Ok(())
}

/// Why a slot does not take a new process: its manifest, then its generation, then
/// the slot's own state.
pub open spec fn replace_fault(
    provider_id: Seq<char>,
    baseline: ManifestView,
    status: ProviderSlotStatus,
    generation: u32,
    manifest: ManifestView,
) -> Option<SlotErrorView> {
    if let Some(fault) = slot_manifest_fault(provider_id, manifest) {
        Some(fault)
    } else if shape_of(baseline) != shape_of(manifest) {
        Some(SlotErrorView::ManifestDrift)
    } else if generation_of(status) == u32::MAX {
        Some(SlotErrorView::GenerationExhausted)
    } else if generation != generation_of(status) + 1 {
        Some(
            SlotErrorView::InvalidGeneration {
                expected: (generation_of(status) + 1) as u32,
                actual: generation,
            },
        )
    } else if !(status is Unavailable) {
        Some(SlotErrorView::InvalidTransition { from: status, to: "ready"@ })
    } else {
        None
    }
}

impl<H> ProviderSlot<H> {
    /// The status of the slot.
    pub open spec fn now(&self) -> ProviderSlotStatus {
        status_of_state(self.state)
    }

    /// Opens a slot with its first process.
    pub fn new(provider_id: ProviderId, host: H, manifest: ProviderManifest) -> (r: Result<
        Self,
        ProviderSlotError,
    >)
        ensures
            match r {
                Ok(slot) => {
                    &&& slot_manifest_fault(provider_id@, manifest@) is None
                    &&& slot.provider_id == provider_id
                    &&& slot.baseline_manifest@ == manifest@
                    &&& slot.state == ProviderSlotState::Ready(
                        ProviderGeneration { generation: 1, host, manifest },
                    )
                },
                Err(e) => slot_manifest_fault(provider_id@, manifest@) == Some(e@),
            },
    {
        match validate_slot_manifest(&provider_id, &manifest) {
            Ok(()) => {
                let baseline_manifest = manifest.clone();
                Ok(
                    ProviderSlot {
                        provider_id,
                        baseline_manifest,
                        state: ProviderSlotState::Ready(
                            ProviderGeneration { generation: 1, host, manifest },
                        ),
                    },
                )
            },
            Err(error) => Err(error),
        }
    }

    pub fn provider_id(&self) -> (r: &ProviderId)
        ensures
            *r == self.provider_id,
    {
        &self.provider_id
    }

    pub fn baseline_manifest(&self) -> (r: &ProviderManifest)
        ensures
            *r == self.baseline_manifest,
    {
        &self.baseline_manifest
    }

    /// Whether a process with the manifest `candidate` may take the slot over.
    pub fn manifest_compatible(&self, candidate: &ProviderManifest) -> (r: bool)
        ensures
            r == (manifest_fault(candidate@) is None && shape_of(self.baseline_manifest@)
                == shape_of(candidate@)),
    {
        match candidate.validate() {
            Ok(()) => manifests_semantically_equal(&self.baseline_manifest, candidate),
            Err(_) => false,
        }
    }

    pub fn status(&self) -> (r: ProviderSlotStatus)
        ensures
            r == self.now(),
    {
        status_of(&self.state)
    }

    /// The process in use, where there is one.
    pub fn current(&self) -> (r: Option<&ProviderGeneration<H>>)
        ensures
            match r {
                Some(active) => self.state == ProviderSlotState::Ready(*active),
                None => !(self.state is Ready),
            },
    {
        match &self.state {
            ProviderSlotState::Ready(active) => Some(active),
            _ => None,
        }
    }

    /// The process that has to be stopped, where there is one.
    pub fn host_for_shutdown(&self) -> (r: Option<&H>)
        ensures
            match self.state {
                ProviderSlotState::Ready(active) => r == Some(&active.host),
                ProviderSlotState::Unavailable { host, .. } => r == Some(&host),
                _ => r is None,
            },
    {
        match &self.state {
            ProviderSlotState::Ready(active) => Some(&active.host),
            ProviderSlotState::Unavailable { host, .. } => Some(host),
            _ => None,
        }
    }

    /// Takes the process of `generation` out of use, if it is the one in use.
    pub fn mark_unavailable(&mut self, generation: u32) -> (r: bool)
        ensures
            r == (old(self).now() == ProviderSlotStatus::Ready { generation }),
            final(self).provider_id == old(self).provider_id,
            final(self).baseline_manifest == old(self).baseline_manifest,
            match old(self).state {
                ProviderSlotState::Ready(active) if active.generation == generation => {
                    final(self).state == ProviderSlotState::Unavailable {
                        generation,
                        host: active.host,
                    }
                },
                _ => final(self).state == old(self).state,
            },
            slot_step(old(self).now(), final(self).now()),
    {
        let status = self.status();
        match status {
            ProviderSlotStatus::Ready { generation: current } => {
                if current != generation {
                    return false;
                }
            },
            _ => {
                return false;
            },
        }
        let mut state = ProviderSlotState::Stopped { generation };
        std::mem::swap(&mut state, &mut self.state);
        if let ProviderSlotState::Ready(active) = state {
            self.state = ProviderSlotState::Unavailable { generation, host: active.host };
        }
        true
    }

    /// Puts a new process into a slot whose last one is out of use.
    pub fn replace(&mut self, generation: u32, host: H, manifest: ProviderManifest) -> (r: Result<
        (),
        ProviderSlotError,
    >)
        ensures
            slot_check(r) == replace_fault(
                old(self).provider_id@,
                old(self).baseline_manifest@,
                old(self).now(),
                generation,
                manifest@,
            ),
            final(self).provider_id == old(self).provider_id,
            final(self).baseline_manifest == old(self).baseline_manifest,
            final(self).state == (if r is Ok {
                ProviderSlotState::Ready(ProviderGeneration { generation, host, manifest })
            } else {
                old(self).state
            }),
            slot_step(old(self).now(), final(self).now()),
    {
        if let Err(error) = validate_slot_manifest(&self.provider_id, &manifest) {
            return Err(error);
        }
        if !self.manifest_compatible(&manifest) {
            return Err(ProviderSlotError::ManifestDrift);
        }
        let status = self.status();
        let current: u32 = status.generation();
        if current == u32::MAX {
            return Err(ProviderSlotError::GenerationExhausted);
        }
        let expected: u32 = current + 1;
        if generation != expected {
            return Err(ProviderSlotError::InvalidGeneration { expected, actual: generation });
        }
        match status {
            ProviderSlotStatus::Unavailable { .. } => {},
            _ => {
                return Err(ProviderSlotError::InvalidTransition { from: status, to: "ready" });
            },
        }
        self.state = ProviderSlotState::Ready(ProviderGeneration { generation, host, manifest });
        Ok(())
    }

    /// Gives the slot up in `generation`, unless that is past or the slot stopped.
    pub fn quarantine(&mut self, generation: u32) -> (r: bool)
        ensures
            r == (generation_of(old(self).now()) == generation && !(old(self).now() is Stopped)),
            final(self).provider_id == old(self).provider_id,
            final(self).baseline_manifest == old(self).baseline_manifest,
            final(self).state == (if r {
                ProviderSlotState::Quarantined { generation }
            } else {
                old(self).state
            }),
            slot_step(old(self).now(), final(self).now()),
    {
        let status = self.status();
        if status.generation() != generation {
            return false;
        }
        if let ProviderSlotStatus::Stopped { .. } = status {
            return false;
        }
        self.state = ProviderSlotState::Quarantined { generation };
        true
    }

    /// Closes the slot for good.
    pub fn mark_stopped(&mut self)
        ensures
            final(self).provider_id == old(self).provider_id,
            final(self).baseline_manifest == old(self).baseline_manifest,
            final(self).state == (ProviderSlotState::<H>::Stopped {
                generation: generation_of(old(self).now()),
            }),
            slot_step(old(self).now(), final(self).now()),
    {
        let generation: u32 = self.status().generation();
        self.state = ProviderSlotState::Stopped { generation };
    }

    /// What one who waits for a process gets: the process, an error where none will
    /// come any more, or nothing yet.
    pub fn poll_ready(&self) -> (r: Result<Option<&ProviderGeneration<H>>, ProviderSlotError>)
        ensures
            match self.state {
                ProviderSlotState::Ready(active) => r matches Ok(Some(taken)) && *taken == active,
                ProviderSlotState::Unavailable { .. } => r matches Ok(None),
                ProviderSlotState::Quarantined { generation } => r matches Err(e) && e@
                    == (SlotErrorView::Quarantined { generation }),
                ProviderSlotState::Stopped { generation } => r matches Err(e) && e@
                    == (SlotErrorView::Stopped { generation }),
            },
    {
        match &self.state {
            ProviderSlotState::Ready(active) => Ok(Some(active)),
            ProviderSlotState::Unavailable { .. } => Ok(None),
            ProviderSlotState::Quarantined { generation } => Err(
                ProviderSlotError::Quarantined { generation: *generation },
            ),
            ProviderSlotState::Stopped { generation } => Err(
                ProviderSlotError::Stopped { generation: *generation },
            ),
        }
    }

    /// Takes note of how work in `generation` went: a failure of a process that is
    /// not ready any more takes it out of use.
    pub fn observe(&mut self, generation: u32, failed: bool, state: ProviderState) -> (r: bool)
        ensures
            r == (failed && state != ProviderState::Ready && old(self).now()
                == ProviderSlotStatus::Ready { generation }),
            final(self).provider_id == old(self).provider_id,
            final(self).baseline_manifest == old(self).baseline_manifest,
            match old(self).state {
                ProviderSlotState::Ready(active) if r => {
                    final(self).state == ProviderSlotState::Unavailable {
                        generation,
                        host: active.host,
                    }
                },
                _ => final(self).state == old(self).state,
            },
            slot_step(old(self).now(), final(self).now()),
    {
        if failed && state != ProviderState::Ready {
            self.mark_unavailable(generation)
        } else {
            false
        }
    }
}

/// What a step may do to the status of a slot.
pub open spec fn slot_step(before: ProviderSlotStatus, after: ProviderSlotStatus) -> bool {
    ||| after == before
    ||| after is Stopped && generation_of(after) == generation_of(before)
    ||| after is Quarantined && !(before is Stopped) && generation_of(after) == generation_of(
        before,
    )
    ||| before is Ready && after is Unavailable && generation_of(after) == generation_of(before)
    ||| before is Unavailable && after is Ready && generation_of(after) == generation_of(before)
        + 1
}

/// Over any number of steps generations only grow, and a stopped slot stays
/// stopped.
pub proof fn law_generations_only_grow(history: Seq<ProviderSlotStatus>, i: int, j: int)
    requires
        0 <= i <= j < history.len(),
        forall|k: int|
            0 <= k < history.len() - 1 ==> slot_step(#[trigger] history[k], history[k + 1]),
    ensures
        generation_of(history[i]) <= generation_of(history[j]),
        history[i] is Stopped ==> history[j] == history[i],
    decreases j - i,
{
    if i < j {
        law_generations_only_grow(history, i, j - 1);
        assert(slot_step(history[j - 1], history[j - 1 + 1]));
    }
}

/// A slot that takes a new process goes one generation on, and only from being
/// unavailable.
pub proof fn law_replacing_is_a_step(
    provider_id: Seq<char>,
    baseline: ManifestView,
    status: ProviderSlotStatus,
    generation: u32,
    manifest: ManifestView,
)
    requires
        replace_fault(provider_id, baseline, status, generation, manifest) is None,
    ensures
        slot_step(status, ProviderSlotStatus::Ready { generation }),
        manifest.provider_id == provider_id,
{
}

proof fn lemma_declared_tools(s: Seq<CapabilityView>)
    requires
        forall|i: int, j: int|
            0 <= i < j < s.len() && (#[trigger] s[i]) is Tool && (#[trigger] s[j]) is Tool
                ==> s[i]->name != s[j]->name,
    ensures
        forall|i: int|
            0 <= i < s.len() && (#[trigger] s[i]) is Tool ==> declared_tools(s).contains_key(
                s[i]->name,
            ) && declared_tools(s)[s[i]->name] == tool_shape(s[i]),
        forall|name: Seq<char>| #[trigger]
            declared_tools(s).contains_key(name) ==> exists|i: int|
                0 <= i < s.len() && is_tool_named(#[trigger] s[i], name),
    decreases s.len(),
{
    if s.len() > 0 {
        let rest = s.drop_last();
        assert forall|i: int, j: int|
            0 <= i < j < rest.len() && (#[trigger] rest[i]) is Tool && (
            #[trigger] rest[j]) is Tool implies rest[i]->name != rest[j]->name by {
            assert(s[i] == rest[i] && s[j] == rest[j]);
        }
        lemma_declared_tools(rest);
        assert forall|i: int|
            0 <= i < s.len() && (#[trigger] s[i]) is Tool implies declared_tools(s).contains_key(
            s[i]->name,
        ) && declared_tools(s)[s[i]->name] == tool_shape(s[i]) by {
            if i < s.len() - 1 {
                assert(rest[i] == s[i]);
                if s.last() is Tool {
                    assert(s[i]->name != s[s.len() - 1]->name);
                }
            }
        }
        assert forall|name: Seq<char>| #[trigger]
            declared_tools(s).contains_key(name) implies exists|i: int|
            0 <= i < s.len() && is_tool_named(#[trigger] s[i], name) by {
            if s.last() is Tool && name == s.last()->name {
                assert(is_tool_named(s[s.len() - 1], name));
            } else {
                assert(declared_tools(rest).contains_key(name));
                let i = choose|i: int| 0 <= i < rest.len() && is_tool_named(#[trigger] rest[i], name);
                assert(is_tool_named(s[i], name));
            }
        }
    }
}

/// Two manifests that pass and name the same provider say the same exactly when
/// they declare the same tools on the same terms and the same models: the order
/// of capabilities and models, and how models are grouped, do not count.
pub proof fn law_compatibility_is_about_declarations(a: ManifestView, b: ManifestView)
    requires
        manifest_fault(a) is None,
        manifest_fault(b) is None,
        a.provider_id == b.provider_id,
        a.provider_version == b.provider_version,
        a.protocol_version == b.protocol_version,
    ensures
        shape_of(a) == shape_of(b) <==> {
            &&& forall|c: CapabilityView|
                c is Tool ==> (#[trigger] a.capabilities.contains(c) <==> b.capabilities.contains(c))
            &&& forall|name: Seq<char>| #[trigger]
                model_before(a.capabilities, a.capabilities.len() as int, name) <==> model_before(
                    b.capabilities,
                    b.capabilities.len() as int,
                    name,
                )
        },
{
    let s = a.capabilities;
    let t = b.capabilities;
    lemma_tools_named_once(a);
    lemma_tools_named_once(b);
    lemma_declared_tools(s);
    lemma_declared_tools(t);
    let same_models = forall|name: Seq<char>| #[trigger]
        model_before(s, s.len() as int, name) <==> model_before(t, t.len() as int, name);
    assert(same_models ==> declared_models(s) =~= declared_models(t));
    if declared_models(s) == declared_models(t) {
        assert forall|name: Seq<char>| #[trigger]
            model_before(s, s.len() as int, name) <==> model_before(t, t.len() as int, name) by {
            assert(declared_models(s).contains(name) <==> declared_models(t).contains(name));
        }
    }
    if declared_tools(s) == declared_tools(t) {
        assert forall|c: CapabilityView|
            c is Tool implies (#[trigger] s.contains(c) <==> t.contains(c)) by {
            if s.contains(c) {
                lemma_tool_carried_over(s, t, c);
            }
            if t.contains(c) {
                lemma_tool_carried_over(t, s, c);
            }
        }
    }
    if forall|c: CapabilityView| c is Tool ==> (#[trigger] s.contains(c) <==> t.contains(c)) {
        assert forall|name: Seq<char>| #[trigger]
            declared_tools(s).contains_key(name) implies declared_tools(t).contains_key(name)
            && declared_tools(s)[name] == declared_tools(t)[name] by {
            let i = choose|i: int| 0 <= i < s.len() && is_tool_named(#[trigger] s[i], name);
            assert(s.contains(s[i]));
            let j = choose|j: int| 0 <= j < t.len() && t[j] == s[i];
            assert(t[j] is Tool);
        }
        assert forall|name: Seq<char>| #[trigger]
            declared_tools(t).contains_key(name) implies declared_tools(s).contains_key(name) by {
            let i = choose|i: int| 0 <= i < t.len() && is_tool_named(#[trigger] t[i], name);
            assert(t.contains(t[i]));
            assert(s.contains(t[i]));
            let j = choose|j: int| 0 <= j < s.len() && s[j] == t[i];
            assert(s[j] is Tool);
        }
        assert(declared_tools(s) =~= declared_tools(t));
    }
}

proof fn lemma_tools_named_once(m: ManifestView)
    requires
        manifest_fault(m) is None,
    ensures
        forall|i: int, j: int|
            0 <= i < j < m.capabilities.len() && (#[trigger] m.capabilities[i]) is Tool && (
            #[trigger] m.capabilities[j]) is Tool ==> m.capabilities[i]->name
                != m.capabilities[j]->name,
{
    assert forall|i: int, j: int|
        0 <= i < j < m.capabilities.len() && (#[trigger] m.capabilities[i]) is Tool && (
        #[trigger] m.capabilities[j]) is Tool implies m.capabilities[i]->name
        != m.capabilities[j]->name by {
        crate::protocol::manifest::law_valid_manifests_name_tools_once(m, i, j);
    }
}

proof fn lemma_tool_carried_over(
    s: Seq<CapabilityView>,
    t: Seq<CapabilityView>,
    c: CapabilityView,
)
    requires
        forall|i: int, j: int|
            0 <= i < j < s.len() && (#[trigger] s[i]) is Tool && (#[trigger] s[j]) is Tool
                ==> s[i]->name != s[j]->name,
        forall|i: int, j: int|
            0 <= i < j < t.len() && (#[trigger] t[i]) is Tool && (#[trigger] t[j]) is Tool
                ==> t[i]->name != t[j]->name,
        declared_tools(s) == declared_tools(t),
        c is Tool,
        s.contains(c),
    ensures
        t.contains(c),
{
    lemma_declared_tools(s);
    lemma_declared_tools(t);
    let i = choose|i: int| 0 <= i < s.len() && s[i] == c;
    assert(declared_tools(s).contains_key(s[i]->name));
    assert(declared_tools(t).contains_key(c->name));
    let j = choose|j: int| 0 <= j < t.len() && is_tool_named(#[trigger] t[j], c->name);
    assert(t[j] is Tool);
    assert(tool_shape(t[j]) == tool_shape(c));
    assert(t[j] == c);
}

/// A manifest fits a slot if and only if it passes the checks of the protocol and names the
/// provider of the slot.
pub proof fn law_slots_are_for_their_provider(expected: Seq<char>, m: ManifestView)
    ensures
        slot_manifest_fault(expected, m) is None <==> manifest_fault(m) is None
            && m.provider_id.len() > 0 && m.provider_id == expected,
        manifest_fault(m) is None && m.provider_id.len() > 0 && m.provider_id != expected
            ==> slot_manifest_fault(expected, m) == Some(
            SlotErrorView::IdentityMismatch { expected, actual: m.provider_id },
        ),
{
}

/// A slot takes a new process if and only if the process is of its provider, declares what
/// the first one declared, counts one generation on, and the last process is out of use.
pub proof fn law_slots_take_successors_only(
    provider_id: Seq<char>,
    baseline: ManifestView,
    status: ProviderSlotStatus,
    generation: u32,
    manifest: ManifestView,
)
    ensures
        replace_fault(provider_id, baseline, status, generation, manifest) is None <==> {
            &&& manifest_fault(manifest) is None
            &&& manifest.provider_id == provider_id && provider_id.len() > 0
            &&& shape_of(baseline) == shape_of(manifest)
            &&& status matches ProviderSlotStatus::Unavailable { generation: last } && generation
                == last + 1
        },
{
}

/// What a manifest says in substance: who the provider is and in which version, and which
/// tools and models it declares.
pub proof fn law_shapes_keep_the_substance(m: ManifestView, k: int)
    requires
        manifest_fault(m) is None,
        0 <= k < m.capabilities.len(),
    ensures
        shape_of(m).provider_id == m.provider_id,
        shape_of(m).provider_version == m.provider_version,
        shape_of(m).protocol_version == m.protocol_version,
        m.capabilities[k] matches CapabilityView::Tool {
            name,
            version,
            parallel_safe,
            side_effect,
            supports_idempotency_key,
        } ==> shape_of(m).tools.contains_key(name) && shape_of(m).tools[name] == (ToolShapeView {
            version,
            parallel_safe,
            side_effect,
            supports_idempotency_key,
        }),
        m.capabilities[k] matches CapabilityView::Llm { models } ==> forall|name: Seq<char>|
            models.contains(name) ==> #[trigger] shape_of(m).models.contains(name),
{
    lemma_tools_named_once(m);
    lemma_declared_tools(m.capabilities);
    if let CapabilityView::Llm { models } = m.capabilities[k] {
        assert forall|name: Seq<char>| models.contains(name) implies #[trigger] shape_of(
            m,
        ).models.contains(name) by {
            assert(offers_model(m.capabilities[k], name));
        }
    }
}

/// Why a slot does not take a process is told by what is wrong: with its manifest, with what
/// it declares, with its number, or with the slot itself.
pub proof fn law_slot_refusals_are_named(
    provider_id: Seq<char>,
    baseline: ManifestView,
    status: ProviderSlotStatus,
    generation: u32,
    manifest: ManifestView,
)
    ensures
        match replace_fault(provider_id, baseline, status, generation, manifest) {
            None => true,
            Some(SlotErrorView::InvalidManifest(text)) => manifest_fault(manifest) is Some && text
                == manifest_error_text(manifest_fault(manifest)->0),
            Some(SlotErrorView::InvalidManifestProviderId { value, message }) => value
                == manifest.provider_id && value.len() == 0 && message
                == "identifier must not be empty"@,
            Some(SlotErrorView::IdentityMismatch { expected, actual }) => expected == provider_id
                && actual == manifest.provider_id && expected != actual,
            Some(SlotErrorView::ManifestDrift) => shape_of(baseline) != shape_of(manifest),
            Some(SlotErrorView::GenerationExhausted) => generation_of(status) == u32::MAX,
            Some(SlotErrorView::InvalidGeneration { expected, actual }) => expected
                == generation_of(status) + 1 && actual == generation && expected != actual,
            Some(SlotErrorView::InvalidTransition { from, to }) => from == status && !(
            status is Unavailable) && to == "ready"@,
            Some(_) => false,
        },
{
}

} // verus!
