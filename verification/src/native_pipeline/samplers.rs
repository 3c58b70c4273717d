//! The samplers a draw binds.
use crate::native_pipeline::objects::ResourceId;
use crate::native_pipeline::reason::PreflightReason;
use crate::native_pipeline::tables::{
    holds, ObjectSlot, PipelineInputs, ReflectedSampler, ReflectedState, RenderBindings,
    FRAG_SAMPLED_RESOURCE_BINDING_OFFSET, SAMPLER_BINDING_BASE,
};
use vstd::prelude::*;

verus! {

/// Where a bound sampler's state comes from.
#[derive(Clone, Copy, Debug, PartialEq, Eq, Structural)]
pub enum SamplerSource {
    /// A guest sampler object.
    Guest { reference: u32 },
    /// The shader itself.
    Static,
    /// The normalized default, for a declared sampler nobody supplied.
    NormalizedDefault,
}

/// A sampler bound for a draw. Level-of-detail clamps are bit patterns, present
/// when the binding overrides the sampler's own.
#[derive(Clone, Copy, Debug)]
pub struct SamplerResource {
    pub binding: u32,
    pub source: SamplerSource,
    pub lod: Option<(u32, u32)>,
    pub unnormalized_coordinates: bool,
}

/// A guest sampler object this rail can load.
#[derive(Clone, Copy, Debug)]
pub struct LoadedSampler {
    pub reference: u32,
    pub unnormalized_coordinates: bool,
}

/// The bindings claimed so far and the samplers bound so far.
pub ghost struct SamplerState {
    pub seen: Seq<u32>,
    pub bound: Seq<SamplerResource>,
}

/// The first loaded sampler for a reference.
pub open spec fn loaded_of(loaded: Seq<LoadedSampler>, reference: u32) -> Option<LoadedSampler>
    decreases loaded.len(),
{
    if loaded.len() == 0 {
        None
    } else if loaded[0].reference == reference {
        Some(loaded[0])
    } else {
        loaded_of(loaded.skip(1), reference)
    }
}

/// What one bound sampler slot adds.
pub open spec fn after_guest_slot(
    slot: ObjectSlot,
    guest_bindings: Seq<u32>,
    loaded: Seq<LoadedSampler>,
    offset: u32,
    state: SamplerState,
) -> Result<SamplerState, PreflightReason> {
    match slot.object {
        None => Ok(state),
        Some(object) => if object.slot == 0 {
            Ok(state)
        } else if SAMPLER_BINDING_BASE + slot.index + offset > u32::MAX {
            Err(PreflightReason::BindingOverflow)
        } else {
            let binding = (SAMPLER_BINDING_BASE + slot.index + offset) as u32;
            if !guest_bindings.contains(binding) || state.seen.contains(binding) {
                Ok(state)
            } else {
                match loaded_of(loaded, object.slot) {
                    None => Err(PreflightReason::Sampler),
                    Some(sampler) => Ok(
                        SamplerState {
                            seen: state.seen.push(binding),
                            bound: state.bound.push(
                                SamplerResource {
                                    binding,
                                    source: SamplerSource::Guest { reference: object.slot },
                                    lod: slot.lod_clamps,
                                    unnormalized_coordinates: sampler.unnormalized_coordinates,
                                },
                            ),
                        },
                    ),
                }
            }
        },
    }
}

/// What the slots from `n` on add, up to the first refusal.
pub open spec fn after_guest_slots(
    slots: Seq<ObjectSlot>,
    n: int,
    guest_bindings: Seq<u32>,
    loaded: Seq<LoadedSampler>,
    offset: u32,
    state: SamplerState,
) -> Result<SamplerState, PreflightReason>
    decreases slots.len() - n,
{
    if n < 0 || n >= slots.len() {
        Ok(state)
    } else {
        match after_guest_slot(slots[n], guest_bindings, loaded, offset, state) {
            Ok(next) => after_guest_slots(slots, n + 1, guest_bindings, loaded, offset, next),
            Err(reason) => Err(reason),
        }
    }
}

/// What one declared sampler adds where no earlier one took its binding.
pub open spec fn after_reflected(reflected: ReflectedSampler, state: SamplerState) -> Result<
    SamplerState,
    PreflightReason,
> {
    if state.seen.contains(reflected.binding) {
        Ok(state)
    } else {
        match reflected.state {
            ReflectedState::Unrepresentable => Err(PreflightReason::StaticSampler),
            ReflectedState::Static { unnormalized } => Ok(
                SamplerState {
                    seen: state.seen.push(reflected.binding),
                    bound: state.bound.push(
                        SamplerResource {
                            binding: reflected.binding,
                            source: SamplerSource::Static,
                            lod: None,
                            unnormalized_coordinates: unnormalized,
                        },
                    ),
                },
            ),
            ReflectedState::Guest => Ok(
                SamplerState {
                    seen: state.seen.push(reflected.binding),
                    bound: state.bound.push(
                        SamplerResource {
                            binding: reflected.binding,
                            source: SamplerSource::NormalizedDefault,
                            lod: None,
                            unnormalized_coordinates: false,
                        },
                    ),
                },
            ),
        }
    }
}

/// What the declared samplers from `n` on add, up to the first refusal.
pub open spec fn after_reflected_all(
    samplers: Seq<ReflectedSampler>,
    n: int,
    state: SamplerState,
) -> Result<SamplerState, PreflightReason>
    decreases samplers.len() - n,
{
    if n < 0 || n >= samplers.len() {
        Ok(state)
    } else {
        match after_reflected(samplers[n], state) {
            Ok(next) => after_reflected_all(samplers, n + 1, next),
            Err(reason) => Err(reason),
        }
    }
}

/// How far a stage's sampler bindings have moved.
pub open spec fn fragment_sampler_offset(separate: bool) -> u32 {
    if separate {
        FRAG_SAMPLED_RESOURCE_BINDING_OFFSET
    } else {
        0
    }
}

/// Everything claimed and bound: the vertex stage's guest samplers, the
/// fragment stage's, then what the two shaders declare and nobody supplied.
pub open spec fn claimed(
    bindings: RenderBindings,
    inputs: PipelineInputs,
    loaded: Seq<LoadedSampler>,
) -> Result<SamplerState, PreflightReason> {
    let start = SamplerState { seen: Seq::empty(), bound: Seq::empty() };
    match after_guest_slots(
        bindings.vertex.samplers@,
        0,
        inputs.vertex.guest_bindings@,
        loaded,
        0,
        start,
    ) {
        Err(reason) => Err(reason),
        Ok(vertex) => match after_guest_slots(
            bindings.fragment.samplers@,
            0,
            inputs.fragment.guest_bindings@,
            loaded,
            fragment_sampler_offset(inputs.separate),
            vertex,
        ) {
            Err(reason) => Err(reason),
            Ok(fragment) => match after_reflected_all(inputs.vertex.samplers@, 0, fragment) {
                Err(reason) => Err(reason),
                Ok(declared) => after_reflected_all(inputs.fragment.samplers@, 0, declared),
            },
        },
    }
}

/// Some bound sampler addresses its texture in texels.
pub open spec fn any_unnormalized(bound: Seq<SamplerResource>) -> bool {
    exists|k: int| 0 <= k < bound.len() && (#[trigger] bound[k]).unnormalized_coordinates
}

/// The samplers a draw binds.
pub open spec fn samplers_of(
    bindings: RenderBindings,
    inputs: PipelineInputs,
    loaded: Seq<LoadedSampler>,
) -> Result<Seq<SamplerResource>, PreflightReason> {
    match claimed(bindings, inputs, loaded) {
        Err(reason) => Err(reason),
        Ok(state) => if any_unnormalized(state.bound) {
            Err(PreflightReason::UnnormalizedSampler)
        } else {
            Ok(state.bound)
        },
    }
}

fn find_loaded(loaded: &Vec<LoadedSampler>, reference: u32) -> (sampler: Option<LoadedSampler>)
    ensures
        sampler == loaded_of(loaded@, reference),
{
    let mut n: usize = 0;
    assert(loaded@.skip(0) =~= loaded@);
    while n < loaded.len()
        invariant
            0 <= n <= loaded@.len(),
            loaded_of(loaded@.skip(n as int), reference) == loaded_of(loaded@, reference),
        decreases loaded@.len() - n,
    {
        let sampler: LoadedSampler = loaded[n];
        if sampler.reference == reference {
            return Some(sampler);
        }
        assert(loaded@.skip(n as int).skip(1) =~= loaded@.skip(n + 1));
        n += 1;
    }
    None
}

fn bind_guest_slots(
    slots: &Vec<ObjectSlot>,
    guest_bindings: &Vec<u32>,
    loaded: &Vec<LoadedSampler>,
    offset: u32,
    seen: &mut Vec<u32>,
    bound: &mut Vec<SamplerResource>,
) -> (r: Result<(), PreflightReason>)
    ensures
        match after_guest_slots(
            slots@,
            0,
            guest_bindings@,
            loaded@,
            offset,
            SamplerState { seen: old(seen)@, bound: old(bound)@ },
        ) {
            Ok(state) => r is Ok && state == (SamplerState {
                seen: final(seen)@,
                bound: final(bound)@,
            }),
            Err(reason) => r == Err::<(), PreflightReason>(reason),
        },
{
    let ghost start = SamplerState { seen: seen@, bound: bound@ };
    let mut n: usize = 0;
    while n < slots.len()
        invariant
            0 <= n <= slots@.len(),
            start == (SamplerState { seen: old(seen)@, bound: old(bound)@ }),
            after_guest_slots(slots@, 0, guest_bindings@, loaded@, offset, start)
                == after_guest_slots(
                slots@,
                n as int,
                guest_bindings@,
                loaded@,
                offset,
                SamplerState { seen: seen@, bound: bound@ },
            ),
        decreases slots@.len() - n,
    {
        let slot: ObjectSlot = slots[n];
        n += 1;
        let object: ResourceId = match slot.object {
            Some(object) => object,
            None => {
                continue ;
            },
        };
        if object.slot == 0 {
            continue ;
        }
        let base: u64 = SAMPLER_BINDING_BASE as u64 + slot.index as u64 + offset as u64;
        if base > u32::MAX as u64 {
            return Err(PreflightReason::BindingOverflow);
        }
        let binding: u32 = base as u32;
        if !holds(guest_bindings, binding) || holds(seen, binding) {
            continue ;
        }
        let sampler: LoadedSampler = match find_loaded(loaded, object.slot) {
            Some(sampler) => sampler,
            None => {
                return Err(PreflightReason::Sampler);
            },
        };
        seen.push(binding);
        bound.push(
            SamplerResource {
                binding,
                source: SamplerSource::Guest { reference: object.slot },
                lod: slot.lod_clamps,
                unnormalized_coordinates: sampler.unnormalized_coordinates,
            },
        );
    }
    Ok(())
}

fn bind_declared(
    samplers: &Vec<ReflectedSampler>,
    seen: &mut Vec<u32>,
    bound: &mut Vec<SamplerResource>,
) -> (r: Result<(), PreflightReason>)
    ensures
        match after_reflected_all(
            samplers@,
            0,
            SamplerState { seen: old(seen)@, bound: old(bound)@ },
        ) {
            Ok(state) => r is Ok && state == (SamplerState {
                seen: final(seen)@,
                bound: final(bound)@,
            }),
            Err(reason) => r == Err::<(), PreflightReason>(reason),
        },
{
    let ghost start = SamplerState { seen: seen@, bound: bound@ };
    let mut n: usize = 0;
    while n < samplers.len()
        invariant
            0 <= n <= samplers@.len(),
            start == (SamplerState { seen: old(seen)@, bound: old(bound)@ }),
            after_reflected_all(samplers@, 0, start) == after_reflected_all(
                samplers@,
                n as int,
                SamplerState { seen: seen@, bound: bound@ },
            ),
        decreases samplers@.len() - n,
    {
        let reflected: ReflectedSampler = samplers[n];
        n += 1;
        if holds(seen, reflected.binding) {
            continue ;
        }
        let (source, unnormalized): (SamplerSource, bool) = match reflected.state {
            ReflectedState::Unrepresentable => {
                return Err(PreflightReason::StaticSampler);
            },
            ReflectedState::Static { unnormalized } => (SamplerSource::Static, unnormalized),
            ReflectedState::Guest => (SamplerSource::NormalizedDefault, false),
        };
        seen.push(reflected.binding);
        bound.push(
            SamplerResource {
                binding: reflected.binding,
                source,
                lod: None,
                unnormalized_coordinates: unnormalized,
            },
        );
    }
    Ok(())
}

/// The samplers a draw binds: guest samplers where a shader takes one at that
/// binding, then the samplers the shaders declare and nobody supplied. Texel
/// coordinates are refused.
pub fn metadata_samplers(
    bindings: &RenderBindings,
    inputs: &PipelineInputs,
    loaded: &Vec<LoadedSampler>,
) -> (r: Result<Vec<SamplerResource>, PreflightReason>)
    ensures
        match samplers_of(*bindings, *inputs, loaded@) {
            Ok(bound) => r matches Ok(v) && v@ == bound,
            Err(reason) => r matches Err(e) && e == reason,
        },
{
    let mut seen: Vec<u32> = Vec::new();
    let mut bound: Vec<SamplerResource> = Vec::new();
    let offset: u32 = if inputs.separate {
        FRAG_SAMPLED_RESOURCE_BINDING_OFFSET
    } else {
        0
    };
    if let Err(reason) = bind_guest_slots(
        &bindings.vertex.samplers,
        &inputs.vertex.guest_bindings,
        loaded,
        0,
        &mut seen,
        &mut bound,
    ) {
        return Err(reason);
    }
    if let Err(reason) = bind_guest_slots(
        &bindings.fragment.samplers,
        &inputs.fragment.guest_bindings,
        loaded,
        offset,
        &mut seen,
        &mut bound,
    ) {
        return Err(reason);
    }
    if let Err(reason) = bind_declared(&inputs.vertex.samplers, &mut seen, &mut bound) {
        return Err(reason);
    }
    if let Err(reason) = bind_declared(&inputs.fragment.samplers, &mut seen, &mut bound) {
        return Err(reason);
    }
    let mut n: usize = 0;
    while n < bound.len()
        invariant
            0 <= n <= bound@.len(),
            forall|k: int| 0 <= k < n ==> !(#[trigger] bound@[k]).unnormalized_coordinates,
            claimed(*bindings, *inputs, loaded@) == Ok::<SamplerState, PreflightReason>(
                SamplerState { seen: seen@, bound: bound@ },
            ),
        decreases bound@.len() - n,
    {
        if bound[n].unnormalized_coordinates {
            return Err(PreflightReason::UnnormalizedSampler);
        }
        n += 1;
    }
    Ok(bound)
}

/// Every bound sampler's binding is claimed once.
pub open spec fn consistent(state: SamplerState) -> bool {
    &&& state.seen.no_duplicates()
    &&& state.seen.len() == state.bound.len()
    &&& forall|k: int|
        0 <= k < state.bound.len() ==> (#[trigger] state.bound[k]).binding == state.seen[k]
}

proof fn lemma_guest_slots_keep(
    slots: Seq<ObjectSlot>,
    n: int,
    guest_bindings: Seq<u32>,
    loaded: Seq<LoadedSampler>,
    offset: u32,
    state: SamplerState,
)
    requires
        consistent(state),
    ensures
        after_guest_slots(slots, n, guest_bindings, loaded, offset, state) matches Ok(next)
            ==> consistent(next),
    decreases slots.len() - n,
{
    if 0 <= n < slots.len() {
        match after_guest_slot(slots[n], guest_bindings, loaded, offset, state) {
            Ok(next) => {
                lemma_guest_slots_keep(slots, n + 1, guest_bindings, loaded, offset, next);
            },
            Err(_) => {},
        }
    }
}

proof fn lemma_reflected_keep(samplers: Seq<ReflectedSampler>, n: int, state: SamplerState)
    requires
        consistent(state),
    ensures
        after_reflected_all(samplers, n, state) matches Ok(next) ==> consistent(next),
    decreases samplers.len() - n,
{
    if 0 <= n < samplers.len() {
        match after_reflected(samplers[n], state) {
            Ok(next) => {
                lemma_reflected_keep(samplers, n + 1, next);
            },
            Err(_) => {},
        }
    }
}

/// No two samplers of a draw share a descriptor binding, and none of them
/// addresses its texture in texels.
pub proof fn law_samplers_have_distinct_bindings(
    bindings: RenderBindings,
    inputs: PipelineInputs,
    loaded: Seq<LoadedSampler>,
)
    ensures
        samplers_of(bindings, inputs, loaded) matches Ok(bound) ==> {
            &&& forall|i: int, j: int|
                0 <= i < j < bound.len() ==> (#[trigger] bound[i]).binding != (
                #[trigger] bound[j]).binding
            &&& forall|i: int|
                0 <= i < bound.len() ==> !(#[trigger] bound[i]).unnormalized_coordinates
        },
{
    let start = SamplerState { seen: Seq::empty(), bound: Seq::empty() };
    lemma_guest_slots_keep(
        bindings.vertex.samplers@,
        0,
        inputs.vertex.guest_bindings@,
        loaded,
        0,
        start,
    );
    if let Ok(vertex) = after_guest_slots(
        bindings.vertex.samplers@,
        0,
        inputs.vertex.guest_bindings@,
        loaded,
        0,
        start,
    ) {
        let offset = fragment_sampler_offset(inputs.separate);
        lemma_guest_slots_keep(
            bindings.fragment.samplers@,
            0,
            inputs.fragment.guest_bindings@,
            loaded,
            offset,
            vertex,
        );
        if let Ok(fragment) = after_guest_slots(
            bindings.fragment.samplers@,
            0,
            inputs.fragment.guest_bindings@,
            loaded,
            offset,
            vertex,
        ) {
            lemma_reflected_keep(inputs.vertex.samplers@, 0, fragment);
            if let Ok(declared) = after_reflected_all(inputs.vertex.samplers@, 0, fragment) {
                lemma_reflected_keep(inputs.fragment.samplers@, 0, declared);
            }
        }
    }
}

/// A sampler reference is loaded as the first sampler loaded for exactly it, and
/// is not loaded without one.
pub proof fn law_the_first_loaded_sampler_is_found(loaded: Seq<LoadedSampler>, reference: u32, k: int)
    ensures
        0 <= k < loaded.len() && loaded[k].reference == reference && (forall|j: int|
            0 <= j < k ==> !((#[trigger] loaded[j]).reference == reference)) ==> loaded_of(loaded, reference) == Some(loaded[k]),
        (forall|j: int| 0 <= j < loaded.len() ==> !((#[trigger] loaded[j]).reference == reference)) ==> loaded_of(
            loaded,
            reference,
        ) is None,
    decreases loaded.len(),
{
    if loaded.len() > 0 {
        let rest = loaded.skip(1);
        assert forall|j: int| 0 <= j < rest.len() implies #[trigger] rest[j] == loaded[j + 1] by {}
        law_the_first_loaded_sampler_is_found(rest, reference, k - 1);
        if 0 < k < loaded.len() {
            assert(rest[k - 1] == loaded[k]);
        }
    }
}

/// A bound slot supplies the sampler of a binding: the slot holds an object, its
/// index stands for the binding, and the shader lets the guest fill it.
pub open spec fn supplies(
    slot: ObjectSlot,
    guest_bindings: Seq<u32>,
    offset: u32,
    binding: u32,
) -> bool {
    &&& slot.object is Some
    &&& (slot.object->0).slot != 0
    &&& binding == 160 + slot.index + offset
    &&& guest_bindings.contains(binding)
}

/// The bound sampler is the one the slot holds, with the slot's own clamps.
pub open spec fn is_slots_sampler(
    bound: SamplerResource,
    slot: ObjectSlot,
    loaded: Seq<LoadedSampler>,
    binding: u32,
) -> bool {
    &&& bound.binding == binding
    &&& bound.source == (SamplerSource::Guest { reference: (slot.object->0).slot })
    &&& bound.lod == slot.lod_clamps
    &&& loaded_of(loaded, (slot.object->0).slot) matches Some(sampler)
        && bound.unnormalized_coordinates == sampler.unnormalized_coordinates
}

/// Some slot before `end` supplies the binding.
pub open spec fn supplied_before(
    slots: Seq<ObjectSlot>,
    guest_bindings: Seq<u32>,
    offset: u32,
    binding: u32,
    end: int,
) -> bool {
    exists|m: int|
        0 <= m < end && m < slots.len() && supplies(
            #[trigger] slots[m],
            guest_bindings,
            offset,
            binding,
        )
}

/// The draw binds the slot's sampler at the binding.
pub open spec fn binds_slot(
    bound: Seq<SamplerResource>,
    slot: ObjectSlot,
    loaded: Seq<LoadedSampler>,
    binding: u32,
) -> bool {
    exists|k: int|
        0 <= k < bound.len() && is_slots_sampler(#[trigger] bound[k], slot, loaded, binding)
}

proof fn lemma_slots_supply(
    slots: Seq<ObjectSlot>,
    n: int,
    guest_bindings: Seq<u32>,
    loaded: Seq<LoadedSampler>,
    offset: u32,
    state: SamplerState,
    at: int,
    binding: u32,
)
    requires
        0 <= n <= slots.len(),
    ensures
        after_guest_slots(slots, n, guest_bindings, loaded, offset, state) matches Ok(next) ==> {
            &&& state.seen.is_prefix_of(next.seen)
            &&& state.bound.is_prefix_of(next.bound)
            &&& next.seen.contains(binding) ==> state.seen.contains(binding) || exists|m: int|
                n <= m < slots.len() && supplies(
                    #[trigger] slots[m],
                    guest_bindings,
                    offset,
                    binding,
                )
            &&& n <= at < slots.len() && supplies(slots[at], guest_bindings, offset, binding) ==> {
                &&& next.seen.contains(binding)
                &&& !state.seen.contains(binding) && (forall|m: int|
                    n <= m < at ==> !supplies(
                        #[trigger] slots[m],
                        guest_bindings,
                        offset,
                        binding,
                    )) ==> binds_slot(next.bound, slots[at], loaded, binding)
            }
        },
    decreases slots.len() - n,
{
    if n < slots.len() {
        match after_guest_slot(slots[n], guest_bindings, loaded, offset, state) {
            Err(_) => {},
            Ok(mid) => {
                lemma_slots_supply(
                    slots,
                    n + 1,
                    guest_bindings,
                    loaded,
                    offset,
                    mid,
                    at,
                    binding,
                );
                assert(state.seen.is_prefix_of(mid.seen));
                assert(state.bound.is_prefix_of(mid.bound));
                if let Ok(next) = after_guest_slots(
                    slots,
                    n,
                    guest_bindings,
                    loaded,
                    offset,
                    state,
                ) {
                    lemma_prefixes(state.seen, mid.seen, next.seen);
                    lemma_prefixes(state.bound, mid.bound, next.bound);
                    if mid.seen.contains(binding) && !state.seen.contains(binding) {
                        let j = choose|j: int| 0 <= j < mid.seen.len() && mid.seen[j] == binding;
                        assert(j == state.seen.len());
                        assert(supplies(slots[n], guest_bindings, offset, binding));
                    }
                    if at == n && supplies(slots[n], guest_bindings, offset, binding) {
                        if state.seen.contains(binding) {
                            lemma_contained(state.seen, next.seen, binding);
                        } else {
                            assert(mid.seen[state.seen.len() as int] == binding);
                            lemma_contained(mid.seen, next.seen, binding);
                            let k = state.bound.len() as int;
                            assert(is_slots_sampler(mid.bound[k], slots[n], loaded, binding));
                            assert(next.bound[k] == mid.bound[k]);
                        }
                    }
                }
            },
        }
    }
}

proof fn lemma_prefixes<T>(a: Seq<T>, b: Seq<T>, c: Seq<T>)
    requires
        a.is_prefix_of(b),
        b.is_prefix_of(c),
    ensures
        a.is_prefix_of(c),
{
    assert forall|k: int| 0 <= k < a.len() implies a[k] == #[trigger] c[k] by {
        assert(a[k] == b[k] && b[k] == c[k]);
    }
}

proof fn lemma_contained<T>(a: Seq<T>, b: Seq<T>, item: T)
    requires
        a.is_prefix_of(b),
        a.contains(item),
    ensures
        b.contains(item),
{
    let k = choose|k: int| 0 <= k < a.len() && a[k] == item;
    assert(b[k] == item);
}

proof fn lemma_declared_supply(
    samplers: Seq<ReflectedSampler>,
    n: int,
    state: SamplerState,
    at: int,
    binding: u32,
)
    requires
        0 <= n <= samplers.len(),
    ensures
        after_reflected_all(samplers, n, state) matches Ok(next) ==> {
            &&& state.seen.is_prefix_of(next.seen)
            &&& state.bound.is_prefix_of(next.bound)
            &&& next.seen.contains(binding) ==> state.seen.contains(binding) || exists|m: int|
                n <= m < samplers.len() && (#[trigger] samplers[m]).binding == binding
            &&& n <= at < samplers.len() ==> {
                &&& next.seen.contains(samplers[at].binding)
                &&& !state.seen.contains(samplers[at].binding) && (forall|m: int|
                    n <= m < at ==> (#[trigger] samplers[m]).binding != samplers[at].binding)
                    ==> binds_declared(next.bound, samplers[at])
            }
        },
    decreases samplers.len() - n,
{
    if n < samplers.len() {
        match after_reflected(samplers[n], state) {
            Err(_) => {},
            Ok(mid) => {
                lemma_declared_supply(samplers, n + 1, mid, at, binding);
                assert(state.seen.is_prefix_of(mid.seen));
                assert(state.bound.is_prefix_of(mid.bound));
                if let Ok(next) = after_reflected_all(samplers, n, state) {
                    lemma_prefixes(state.seen, mid.seen, next.seen);
                    lemma_prefixes(state.bound, mid.bound, next.bound);
                    if mid.seen.contains(binding) && !state.seen.contains(binding) {
                        let j = choose|j: int| 0 <= j < mid.seen.len() && mid.seen[j] == binding;
                        assert(j == state.seen.len());
                        assert(samplers[n].binding == binding);
                    }
                    if n <= at < samplers.len() && at > n && !state.seen.contains(
                        samplers[at].binding,
                    ) && mid.seen.contains(samplers[at].binding) {
                        let j = choose|j: int|
                            0 <= j < mid.seen.len() && mid.seen[j] == samplers[at].binding;
                        assert(j == state.seen.len());
                    }
                    if at == n {
                        if state.seen.contains(samplers[n].binding) {
                            lemma_contained(state.seen, next.seen, samplers[n].binding);
                        } else {
                            assert(mid.seen[state.seen.len() as int] == samplers[n].binding);
                            lemma_contained(mid.seen, next.seen, samplers[n].binding);
                            let k = state.bound.len() as int;
                            assert(is_declared(mid.bound[k], samplers[n]));
                            assert(next.bound[k] == mid.bound[k]);
                        }
                    }
                }
            },
        }
    }
}

/// The bound sampler is the one the shader fixes, or the default where the shader
/// leaves it to a guest that bound none.
pub open spec fn is_declared(bound: SamplerResource, declared: ReflectedSampler) -> bool {
    &&& bound.binding == declared.binding
    &&& bound.lod is None
    &&& declared.state is Static ==> bound.source == SamplerSource::Static
    &&& declared.state is Guest ==> bound.source == SamplerSource::NormalizedDefault
    &&& declared.state matches ReflectedState::Static { unnormalized }
        ==> bound.unnormalized_coordinates == unnormalized
    &&& !(declared.state is Unrepresentable)
}

/// The draw binds the declared sampler.
pub open spec fn binds_declared(
    bound: Seq<SamplerResource>,
    declared: ReflectedSampler,
) -> bool {
    exists|k: int| 0 <= k < bound.len() && is_declared(#[trigger] bound[k], declared)
}

/// Some declaration before `end` has the binding.
pub open spec fn declared_before(
    declared: Seq<ReflectedSampler>,
    binding: u32,
    end: int,
) -> bool {
    exists|m: int|
        0 <= m < end && m < declared.len() && (#[trigger] declared[m]).binding == binding
}

/// Some sampler is bound at the binding.
pub open spec fn binds_at(bound: Seq<SamplerResource>, binding: u32) -> bool {
    exists|k: int| 0 <= k < bound.len() && (#[trigger] bound[k]).binding == binding
}

/// A binding that a guest sampler may fill has the first one bound for it, the
/// vertex stage's before the fragment stage's, with that slot's own clamps; the
/// fragment stage's bindings have moved where the stages are kept apart.
pub proof fn law_the_first_bound_sampler_is_used(
    bindings: RenderBindings,
    inputs: PipelineInputs,
    loaded: Seq<LoadedSampler>,
    fragment: bool,
    at: int,
    binding: u32,
)
    requires
        samplers_of(bindings, inputs, loaded) is Ok,
        0 <= at,
        ({
            let moved: u32 = if inputs.separate {
                672
            } else {
                0
            };
            if fragment {
                &&& at < bindings.fragment.samplers@.len()
                &&& supplies(
                    bindings.fragment.samplers@[at],
                    inputs.fragment.guest_bindings@,
                    moved,
                    binding,
                )
                &&& !supplied_before(
                    bindings.fragment.samplers@,
                    inputs.fragment.guest_bindings@,
                    moved,
                    binding,
                    at,
                )
                &&& !supplied_before(
                    bindings.vertex.samplers@,
                    inputs.vertex.guest_bindings@,
                    0,
                    binding,
                    bindings.vertex.samplers@.len() as int,
                )
            } else {
                &&& at < bindings.vertex.samplers@.len()
                &&& supplies(
                    bindings.vertex.samplers@[at],
                    inputs.vertex.guest_bindings@,
                    0,
                    binding,
                )
                &&& !supplied_before(
                    bindings.vertex.samplers@,
                    inputs.vertex.guest_bindings@,
                    0,
                    binding,
                    at,
                )
            }
        }),
    ensures
        binds_slot(
            samplers_of(bindings, inputs, loaded)->Ok_0,
            if fragment {
                bindings.fragment.samplers@[at]
            } else {
                bindings.vertex.samplers@[at]
            },
            loaded,
            binding,
        ),
{
    let moved = fragment_sampler_offset(inputs.separate);
    let start = SamplerState { seen: Seq::empty(), bound: Seq::empty() };
    let vs = bindings.vertex.samplers@;
    let fs = bindings.fragment.samplers@;
    let vg = inputs.vertex.guest_bindings@;
    let fg = inputs.fragment.guest_bindings@;
    lemma_slots_supply(vs, 0, vg, loaded, 0, start, at, binding);
    let vertex = after_guest_slots(vs, 0, vg, loaded, 0, start)->Ok_0;
    lemma_slots_supply(fs, 0, fg, loaded, moved, vertex, at, binding);
    let both = after_guest_slots(fs, 0, fg, loaded, moved, vertex)->Ok_0;
    lemma_declared_supply(inputs.vertex.samplers@, 0, both, 0, binding);
    let declared = after_reflected_all(inputs.vertex.samplers@, 0, both)->Ok_0;
    lemma_declared_supply(inputs.fragment.samplers@, 0, declared, 0, binding);
    let all = after_reflected_all(inputs.fragment.samplers@, 0, declared)->Ok_0;
    lemma_prefixes(both.bound, declared.bound, all.bound);
    let slot = if fragment {
        fs[at]
    } else {
        vs[at]
    };
    if !fragment {
        lemma_prefixes(vertex.bound, both.bound, all.bound);
        assert(binds_slot(vertex.bound, slot, loaded, binding));
        let k = choose|k: int|
            0 <= k < vertex.bound.len() && is_slots_sampler(
                #[trigger] vertex.bound[k],
                slot,
                loaded,
                binding,
            );
        assert(all.bound[k] == vertex.bound[k]);
    } else {
        if vertex.seen.contains(binding) {
            assert(supplied_before(vs, vg, 0, binding, vs.len() as int));
        }
        assert(binds_slot(both.bound, slot, loaded, binding));
        let k = choose|k: int|
            0 <= k < both.bound.len() && is_slots_sampler(
                #[trigger] both.bound[k],
                slot,
                loaded,
                binding,
            );
        assert(all.bound[k] == both.bound[k]);
    }
}

/// Every sampler either shader declares is bound; where no guest sampler fills it
/// and no earlier declaration has its binding, it is bound as declared.
pub proof fn law_declared_samplers_are_bound(
    bindings: RenderBindings,
    inputs: PipelineInputs,
    loaded: Seq<LoadedSampler>,
    fragment: bool,
    at: int,
)
    requires
        samplers_of(bindings, inputs, loaded) is Ok,
        0 <= at < (if fragment {
            inputs.fragment
        } else {
            inputs.vertex
        }).samplers@.len(),
    ensures
        ({
            let declared = if fragment {
                inputs.fragment.samplers@
            } else {
                inputs.vertex.samplers@
            };
            let bound = samplers_of(bindings, inputs, loaded)->Ok_0;
            let moved: u32 = if inputs.separate {
                672
            } else {
                0
            };
            &&& binds_at(bound, declared[at].binding)
            &&& !supplied_before(
                bindings.vertex.samplers@,
                inputs.vertex.guest_bindings@,
                0,
                declared[at].binding,
                bindings.vertex.samplers@.len() as int,
            ) && !supplied_before(
                bindings.fragment.samplers@,
                inputs.fragment.guest_bindings@,
                moved,
                declared[at].binding,
                bindings.fragment.samplers@.len() as int,
            ) && !declared_before(declared, declared[at].binding, at) && (fragment
                ==> !declared_before(
                inputs.vertex.samplers@,
                declared[at].binding,
                inputs.vertex.samplers@.len() as int,
            )) ==> binds_declared(bound, declared[at])
        }),
{
    let moved = fragment_sampler_offset(inputs.separate);
    let start = SamplerState { seen: Seq::empty(), bound: Seq::empty() };
    let vs = bindings.vertex.samplers@;
    let fs = bindings.fragment.samplers@;
    let vg = inputs.vertex.guest_bindings@;
    let fg = inputs.fragment.guest_bindings@;
    let list = if fragment {
        inputs.fragment.samplers@
    } else {
        inputs.vertex.samplers@
    };
    let binding = list[at].binding;
    lemma_slots_supply(vs, 0, vg, loaded, 0, start, 0, binding);
    let vertex = after_guest_slots(vs, 0, vg, loaded, 0, start)->Ok_0;
    lemma_guest_slots_keep(vs, 0, vg, loaded, 0, start);
    lemma_slots_supply(fs, 0, fg, loaded, moved, vertex, 0, binding);
    let both = after_guest_slots(fs, 0, fg, loaded, moved, vertex)->Ok_0;
    lemma_guest_slots_keep(fs, 0, fg, loaded, moved, vertex);
    lemma_declared_supply(inputs.vertex.samplers@, 0, both, at, binding);
    let declared = after_reflected_all(inputs.vertex.samplers@, 0, both)->Ok_0;
    lemma_reflected_keep(inputs.vertex.samplers@, 0, both);
    lemma_declared_supply(inputs.fragment.samplers@, 0, declared, at, binding);
    let all = after_reflected_all(inputs.fragment.samplers@, 0, declared)->Ok_0;
    lemma_reflected_keep(inputs.fragment.samplers@, 0, declared);
    if !fragment {
        lemma_contained(declared.seen, all.seen, binding);
    }
    let j = choose|j: int| 0 <= j < all.seen.len() && all.seen[j] == binding;
    assert(all.bound[j].binding == binding);
    assert(samplers_of(bindings, inputs, loaded)->Ok_0 == all.bound);
    assert(binds_at(all.bound, binding));
    if !supplied_before(vs, vg, 0, binding, vs.len() as int) && !supplied_before(
        fs,
        fg,
        moved,
        binding,
        fs.len() as int,
    ) {
        assert(!vertex.seen.contains(binding));
        assert(!both.seen.contains(binding));
        if !declared_before(list, binding, at) {
            if !fragment {
                assert(binds_declared(declared.bound, list[at]));
                let k = choose|k: int|
                    0 <= k < declared.bound.len() && is_declared(
                        #[trigger] declared.bound[k],
                        list[at],
                    );
                assert(all.bound[k] == declared.bound[k]);
                assert(binds_declared(all.bound, list[at]));
            } else if !declared_before(
                inputs.vertex.samplers@,
                binding,
                inputs.vertex.samplers@.len() as int,
            ) {
                assert(!declared.seen.contains(binding));
                assert(binds_declared(all.bound, list[at]));
            }
        }
    }
}

/// A bound sampler slot is refused for its binding exactly when that does not fit,
/// and an empty slot never.
pub proof fn law_a_sampler_binding_overflows_only_past_the_last(
    slot: ObjectSlot,
    guest_bindings: Seq<u32>,
    loaded: Seq<LoadedSampler>,
    offset: u32,
    state: SamplerState,
)
    ensures
        after_guest_slot(slot, guest_bindings, loaded, offset, state) == Err::<
            SamplerState,
            PreflightReason,
        >(PreflightReason::BindingOverflow) <==> slot.object is Some && (slot.object->0).slot > 0
            && 160 + slot.index + offset >= 0x1_0000_0000,
        after_guest_slot(slot, guest_bindings, loaded, offset, state) == Err::<
            SamplerState,
            PreflightReason,
        >(PreflightReason::Sampler) ==> loaded_of(loaded, (slot.object->0).slot) is None,
        slot.object is None || (slot.object->0).slot == 0 ==> after_guest_slot(
            slot,
            guest_bindings,
            loaded,
            offset,
            state,
        ) == Ok::<SamplerState, PreflightReason>(state),
{
}

} // verus!
