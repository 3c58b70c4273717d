//! Each secondary attachment owns its store source and the destination that was
//! chosen before submission.
use vstd::prelude::*;

use crate::isolation::TargetIdentity;

verus! {

/// What a pass does with an attachment at its end.
#[derive(Clone, Copy, Debug, PartialEq, Eq, Structural)]
pub enum StoreAction {
    /// A number no action has.
    Undeclared,
    /// Nothing single-sampled is published.
    Discard,
    /// The attachment itself is published.
    Store,
    /// Something else is published, such as a resolve.
    Resolve,
}

impl StoreAction {
    /// The action publishes single-sampled texels.
    pub open spec fn publishes(self) -> bool {
        self == StoreAction::Store || self == StoreAction::Resolve
    }

    /// Whether the action publishes single-sampled texels.
    pub fn publishes_single_sample(self) -> (r: bool)
        ensures
            r == self.publishes(),
    {
        match self {
            StoreAction::Store | StoreAction::Resolve => true,
            _ => false,
        }
    }
}

/// A colour attachment as the guest requested it.
#[derive(Clone, Copy, Debug, PartialEq, Eq, Structural)]
pub struct ColorRequest {
    pub slot: u32,
    pub texture_ref: u32,
    /// Zero where the attachment is not a linear allocation.
    pub target_gva: u64,
    /// Zero where the attachment is not a surface.
    pub mapping_id: u32,
    pub width: u32,
    pub height: u32,
    pub format: u16,
    pub sample_count: u32,
    pub multisample_source_ref: u32,
    pub memoryless: bool,
    pub store_action: StoreAction,
}

/// A secondary attachment of the native request.
#[derive(Clone, Copy, Debug, PartialEq, Eq, Structural)]
pub struct SecondaryTarget {
    pub identity: TargetIdentity,
    pub width: u32,
    pub height: u32,
}

/// What the guest's memory says of an attachment's destination.
#[derive(Clone, Copy, Debug, PartialEq, Eq, Structural)]
pub struct DestinationFacts {
    /// Every page of the linear target is known, in order.
    pub pages: bool,
    /// The surface mapping could be captured.
    pub mapping: bool,
}

/// Why secondary attachments cannot be stored.
#[derive(Clone, Copy, Debug, PartialEq, Eq, Structural)]
pub enum StoreReason {
    Action,
    Memoryless,
    Multisample,
    Identity,
    Pages,
    Mapping,
    Destination,
    MappingMoved,
    Transfer,
}

impl StoreReason {
    /// The name a reason is reported under.
    pub open spec fn slug_text(self) -> Seq<char> {
        match self {
            StoreReason::Action => "draw_vk_secondary_store_action"@,
            StoreReason::Memoryless => "draw_vk_secondary_store_memoryless"@,
            StoreReason::Multisample => "draw_vk_secondary_store_multisample"@,
            StoreReason::Identity => "draw_vk_secondary_store_identity"@,
            StoreReason::Pages => "draw_vk_secondary_store_pages"@,
            StoreReason::Mapping => "draw_vk_secondary_store_mapping"@,
            StoreReason::Destination => "draw_vk_secondary_store_destination"@,
            StoreReason::MappingMoved => "draw_vk_secondary_store_mapping_moved"@,
            StoreReason::Transfer => "draw_vk_secondary_store_transfer"@,
        }
    }

    /// The name a reason is reported under.
    pub fn slug(self) -> (text: &'static str)
        ensures
            text@ == self.slug_text(),
    {
        match self {
            StoreReason::Action => "draw_vk_secondary_store_action",
            StoreReason::Memoryless => "draw_vk_secondary_store_memoryless",
            StoreReason::Multisample => "draw_vk_secondary_store_multisample",
            StoreReason::Identity => "draw_vk_secondary_store_identity",
            StoreReason::Pages => "draw_vk_secondary_store_pages",
            StoreReason::Mapping => "draw_vk_secondary_store_mapping",
            StoreReason::Destination => "draw_vk_secondary_store_destination",
            StoreReason::MappingMoved => "draw_vk_secondary_store_mapping_moved",
            StoreReason::Transfer => "draw_vk_secondary_store_transfer",
        }
    }
}

/// A refused store and the attachment it is about.
#[derive(Clone, Copy, Debug, PartialEq, Eq, Structural)]
pub struct Refusal {
    pub slot: u32,
    pub texture_ref: u32,
    pub reason: StoreReason,
}

impl Refusal {
    /// The refusal of an attachment.
    pub open spec fn of(color: ColorRequest, reason: StoreReason) -> Refusal {
        Refusal { slot: color.slot, texture_ref: color.texture_ref, reason }
    }

    fn at(color: &ColorRequest, reason: StoreReason) -> (refusal: Refusal)
        ensures
            refusal == Refusal::of(*color, reason),
    {
        Refusal { slot: color.slot, texture_ref: color.texture_ref, reason }
    }
}

/// Where an attachment is stored.
#[derive(Clone, Copy, Debug, PartialEq, Eq, Structural)]
pub enum Destination {
    Mapping,
    Gva,
}

/// One attachment's store.
#[derive(Clone, Copy, Debug, PartialEq, Eq, Structural)]
pub struct Store {
    pub color: ColorRequest,
    pub identity: TargetIdentity,
    pub destination: Destination,
}

/// The identity is the one the request names: a linear target by its address, a
/// surface by its id.
pub open spec fn names(identity: TargetIdentity, color: ColorRequest) -> bool {
    match identity {
        TargetIdentity::Gva { gva, .. } => gva == color.target_gva && color.mapping_id == 0,
        TargetIdentity::Surface { id } => id == color.mapping_id && color.target_gva == 0,
        TargetIdentity::PassLocal { .. } => false,
    }
}

/// The store of one attachment: nothing where it publishes nothing.
pub open spec fn stored(
    color: ColorRequest,
    target: Option<SecondaryTarget>,
    facts: DestinationFacts,
) -> Result<Option<Store>, StoreReason> {
    if color.store_action == StoreAction::Undeclared {
        Err(StoreReason::Action)
    } else if !color.store_action.publishes() {
        Ok(None)
    } else if color.memoryless {
        Err(StoreReason::Memoryless)
    } else if color.sample_count != 1 || color.multisample_source_ref != 0 || color.store_action
        != StoreAction::Store {
        Err(StoreReason::Multisample)
    } else if target is None || (target->0).width != color.width || (target->0).height
        != color.height || !names((target->0).identity, color) {
        Err(StoreReason::Identity)
    } else if color.target_gva != 0 && color.mapping_id == 0 {
        if facts.pages {
            Ok(
                Some(
                    Store {
                        color,
                        identity: (target->0).identity,
                        destination: Destination::Gva,
                    },
                ),
            )
        } else {
            Err(StoreReason::Pages)
        }
    } else if color.mapping_id != 0 && color.target_gva == 0 {
        if facts.mapping {
            Ok(
                Some(
                    Store {
                        color,
                        identity: (target->0).identity,
                        destination: Destination::Mapping,
                    },
                ),
            )
        } else {
            Err(StoreReason::Mapping)
        }
    } else {
        Err(StoreReason::Destination)
    }
}

/// The target of the attachment at `n`, the first attachment being the primary.
pub open spec fn target_at(targets: Seq<SecondaryTarget>, n: int) -> Option<SecondaryTarget> {
    if 1 <= n <= targets.len() {
        Some(targets[n - 1])
    } else {
        None
    }
}

/// The stores of the attachments from `n` on, after those already found.
pub open spec fn gathered(
    colors: Seq<ColorRequest>,
    targets: Seq<SecondaryTarget>,
    facts: Seq<DestinationFacts>,
    n: int,
    found: Seq<Store>,
) -> Result<Seq<Store>, Refusal>
    decreases colors.len() - n,
{
    if n >= colors.len() {
        Ok(found)
    } else {
        match stored(colors[n], target_at(targets, n), facts[n]) {
            Err(reason) => Err(Refusal::of(colors[n], reason)),
            Ok(None) => gathered(colors, targets, facts, n + 1, found),
            Ok(Some(store)) => gathered(colors, targets, facts, n + 1, found.push(store)),
        }
    }
}

fn named_by(identity: &TargetIdentity, color: &ColorRequest) -> (r: bool)
    ensures
        r == names(*identity, *color),
{
    match identity {
        TargetIdentity::Gva { gva, .. } => *gva == color.target_gva && color.mapping_id == 0,
        TargetIdentity::Surface { id } => *id == color.mapping_id as u64 && color.target_gva == 0,
        TargetIdentity::PassLocal { .. } => false,
    }
}

fn store_of(
    color: &ColorRequest,
    target: Option<&SecondaryTarget>,
    facts: &DestinationFacts,
) -> (r: Result<Option<Store>, StoreReason>)
    ensures
        r == stored(
            *color,
            match target {
                Some(t) => Some(*t),
                None => None,
            },
            *facts,
        ),
{
    if color.store_action == StoreAction::Undeclared {
        return Err(StoreReason::Action);
    }
    if !color.store_action.publishes_single_sample() {
        return Ok(None);
    }
    if color.memoryless {
        return Err(StoreReason::Memoryless);
    }
    if color.sample_count != 1 || color.multisample_source_ref != 0 || color.store_action
        != StoreAction::Store {
        return Err(StoreReason::Multisample);
    }
    let target: &SecondaryTarget = match target {
        Some(target) => target,
        None => {
            return Err(StoreReason::Identity);
        },
    };
    if target.width != color.width || target.height != color.height || !named_by(
        &target.identity,
        color,
    ) {
        return Err(StoreReason::Identity);
    }
    if color.target_gva != 0 && color.mapping_id == 0 {
        if !facts.pages {
            return Err(StoreReason::Pages);
        }
        Ok(
            Some(
                Store { color: *color, identity: target.identity, destination: Destination::Gva },
            ),
        )
    } else if color.mapping_id != 0 && color.target_gva == 0 {
        if !facts.mapping {
            return Err(StoreReason::Mapping);
        }
        Ok(
            Some(
                Store {
                    color: *color,
                    identity: target.identity,
                    destination: Destination::Mapping,
                },
            ),
        )
    } else {
        Err(StoreReason::Destination)
    }
}

/// A surface store that the guest has to be told of.
#[derive(Clone, Copy, Debug, PartialEq, Eq, Structural)]
pub struct SurfacePublication {
    pub mapping_id: u32,
    pub width: u32,
    pub height: u32,
    pub format: u16,
}

/// What the transfer of one store leads to.
#[derive(Clone, Copy, Debug, PartialEq, Eq, Structural)]
pub struct Published {
    pub surface: Option<SurfacePublication>,
}

/// The stores of one draw's secondary attachments.
#[derive(Debug)]
pub struct Stores {
    pub stores: Vec<Store>,
}

/// How many stores from `n` on have kept their destination before the first that
/// has not.
pub open spec fn kept(stores: Seq<Store>, current: Seq<bool>, n: int) -> int
    decreases stores.len() - n,
{
    if n < 0 || n >= stores.len() || moved(stores[n], current[n]) {
        n
    } else {
        kept(stores, current, n + 1)
    }
}

/// The answer to whether every destination is still the captured one.
pub open spec fn currency(stores: Seq<Store>, current: Seq<bool>) -> Result<(), Refusal> {
    let n = kept(stores, current, 0);
    if n < stores.len() {
        Err(Refusal::of(stores[n].color, StoreReason::MappingMoved))
    } else {
        Ok(())
    }
}

/// The store's surface mapping is no longer the captured one.
pub open spec fn moved(store: Store, current: bool) -> bool {
    store.destination == Destination::Mapping && !current
}

impl Stores {
    /// Chooses the destination of every secondary attachment the draw publishes.
    /// `facts` describes the destination of each attachment. An intermediate
    /// draw publishes nothing.
    pub fn capture(
        colors: &Vec<ColorRequest>,
        targets: &Vec<SecondaryTarget>,
        facts: &Vec<DestinationFacts>,
        writeback_guest: bool,
    ) -> (r: Result<Stores, Refusal>)
        requires
            facts@.len() == colors@.len(),
        ensures
            !writeback_guest ==> (r matches Ok(s) && s.stores@ == Seq::<Store>::empty()),
            writeback_guest ==> match gathered(colors@, targets@, facts@, 1, Seq::empty()) {
                Ok(stores) => r matches Ok(s) && s.stores@ == stores,
                Err(refusal) => r matches Err(e) && e == refusal,
            },
    {
        let mut stores: Vec<Store> = Vec::new();
        assert(stores@ =~= Seq::<Store>::empty());
        if !writeback_guest {
            return Ok(Stores { stores });
        }
        let mut n: usize = 1;
        while n < colors.len()
            invariant
                1 <= n,
                facts@.len() == colors@.len(),
                writeback_guest,
                gathered(colors@, targets@, facts@, 1, Seq::empty()) == gathered(
                    colors@,
                    targets@,
                    facts@,
                    n as int,
                    stores@,
                ),
            decreases colors@.len() - n,
        {
            let target: Option<&SecondaryTarget> = if n - 1 < targets.len() {
                Some(&targets[n - 1])
            } else {
                None
            };
            match store_of(&colors[n], target, &facts[n]) {
                Err(reason) => {
                    return Err(Refusal::at(&colors[n], reason));
                },
                Ok(None) => {},
                Ok(Some(store)) => {
                    stores.push(store);
                },
            }
            n += 1;
        }
        Ok(Stores { stores })
    }

    /// Refuses a draw one of whose destinations has moved, before any of its
    /// stores is published. `current` says of each store whether its surface
    /// mapping is still the captured one; the first that is not is named.
    pub fn check_current(&self, current: &Vec<bool>) -> (r: Result<(), Refusal>)
        requires
            current@.len() == self.stores@.len(),
        ensures
            r == currency(self.stores@, current@),
    {
        let mut n: usize = 0;
        while n < self.stores.len()
            invariant
                0 <= n <= self.stores@.len(),
                current@.len() == self.stores@.len(),
                kept(self.stores@, current@, 0) == kept(self.stores@, current@, n as int),
            decreases self.stores@.len() - n,
        {
            if self.stores[n].destination == Destination::Mapping && !current[n] {
                return Err(Refusal::at(&self.stores[n].color, StoreReason::MappingMoved));
            }
            n += 1;
        }
        Ok(())
    }

    /// What one store's transfer leads to: a failed one is no success, and a
    /// surface is announced.
    pub fn transferred(&self, n: usize, landed: bool) -> (r: Result<Published, Refusal>)
        requires
            n < self.stores@.len(),
        ensures
            r == transfer_result(self.stores@[n as int], landed),
    {
        let color: &ColorRequest = &self.stores[n].color;
        if !landed {
            return Err(Refusal::at(color, StoreReason::Transfer));
        }
        if color.mapping_id != 0 {
            Ok(
                Published {
                    surface: Some(
                        SurfacePublication {
                            mapping_id: color.mapping_id,
                            width: color.width,
                            height: color.height,
                            format: color.format,
                        },
                    ),
                },
            )
        } else {
            Ok(Published { surface: None })
        }
    }

    /// Publishes the draw's stores, as far as the transfers land. `landed` says
    /// of each store whether its transfer does.
    pub fn publish(&self, current: &Vec<bool>, landed: &Vec<bool>) -> (r: (
        Vec<Published>,
        Result<(), Refusal>,
    ))
        requires
            current@.len() == self.stores@.len(),
            landed@.len() == self.stores@.len(),
        ensures
            currency(self.stores@, current@) is Err ==> r.0@.len() == 0 && r.1 == currency(
                self.stores@,
                current@,
            ),
            currency(self.stores@, current@) is Ok ==> {
                let n = transfers(landed@, 0);
                &&& r.0@.len() == n
                &&& forall|k: int|
                    0 <= k < n ==> transfer_result(self.stores@[k], true) == Ok::<
                        Published,
                        Refusal,
                    >(#[trigger] r.0@[k])
                &&& r.1 == if n < self.stores@.len() {
                    Err::<(), Refusal>(Refusal::of(self.stores@[n].color, StoreReason::Transfer))
                } else {
                    Ok::<(), Refusal>(())
                }
            },
    {
        let mut done: Vec<Published> = Vec::new();
        if let Err(refusal) = self.check_current(current) {
            return (done, Err(refusal));
        }
        let mut n: usize = 0;
        while n < self.stores.len()
            invariant
                0 <= n <= self.stores@.len(),
                landed@.len() == self.stores@.len(),
                currency(self.stores@, current@) is Ok,
                done@.len() == n,
                transfers(landed@, 0) == transfers(landed@, n as int),
                forall|k: int|
                    0 <= k < n ==> transfer_result(self.stores@[k], true) == Ok::<
                        Published,
                        Refusal,
                    >(#[trigger] done@[k]),
            decreases self.stores@.len() - n,
        {
            match self.transferred(n, landed[n]) {
                Ok(published) => {
                    done.push(published);
                },
                Err(refusal) => {
                    return (done, Err(refusal));
                },
            }
            n += 1;
        }
        (done, Ok(()))
    }
}

/// What a store's transfer leads to.
pub open spec fn transfer_result(store: Store, landed: bool) -> Result<Published, Refusal> {
    if !landed {
        Err(Refusal::of(store.color, StoreReason::Transfer))
    } else if store.color.mapping_id != 0 {
        Ok(
            Published {
                surface: Some(
                    SurfacePublication {
                        mapping_id: store.color.mapping_id,
                        width: store.color.width,
                        height: store.color.height,
                        format: store.color.format,
                    },
                ),
            },
        )
    } else {
        Ok(Published { surface: None })
    }
}

/// How many transfers from `n` on land before the first that does not.
pub open spec fn transfers(landed: Seq<bool>, n: int) -> int
    decreases landed.len() - n,
{
    if n < 0 || n >= landed.len() || !landed[n] {
        n
    } else {
        transfers(landed, n + 1)
    }
}

/// The store is that of some secondary attachment.
pub open spec fn licensed(
    store: Store,
    colors: Seq<ColorRequest>,
    targets: Seq<SecondaryTarget>,
    facts: Seq<DestinationFacts>,
) -> bool {
    exists|k: int|
        1 <= k < colors.len() && stored(#[trigger] colors[k], target_at(targets, k), facts[k])
            == Ok::<Option<Store>, StoreReason>(Some(store))
}

/// Every captured store belongs to a secondary attachment, publishes that
/// attachment's own target and names its own destination: the primary's pixels
/// are never published in its place.
pub proof fn law_stores_publish_their_own_attachment(
    colors: Seq<ColorRequest>,
    targets: Seq<SecondaryTarget>,
    facts: Seq<DestinationFacts>,
)
    requires
        facts.len() == colors.len(),
    ensures
        gathered(colors, targets, facts, 1, Seq::empty()) matches Ok(stores) ==> forall|i: int|
            0 <= i < stores.len() ==> licensed(#[trigger] stores[i], colors, targets, facts)
                && names(stores[i].identity, stores[i].color),
{
    lemma_gathered_licensed(colors, targets, facts, 1, Seq::empty());
}

proof fn lemma_gathered_licensed(
    colors: Seq<ColorRequest>,
    targets: Seq<SecondaryTarget>,
    facts: Seq<DestinationFacts>,
    n: int,
    found: Seq<Store>,
)
    requires
        1 <= n,
        forall|i: int|
            0 <= i < found.len() ==> licensed(#[trigger] found[i], colors, targets, facts)
                && names(found[i].identity, found[i].color),
    ensures
        gathered(colors, targets, facts, n, found) matches Ok(stores) ==> forall|i: int|
            0 <= i < stores.len() ==> licensed(#[trigger] stores[i], colors, targets, facts)
                && names(stores[i].identity, stores[i].color),
    decreases colors.len() - n,
{
    if n < colors.len() {
        match stored(colors[n], target_at(targets, n), facts[n]) {
            Err(_) => {},
            Ok(None) => {
                lemma_gathered_licensed(colors, targets, facts, n + 1, found);
            },
            Ok(Some(store)) => {
                assert(licensed(store, colors, targets, facts));
                lemma_gathered_licensed(colors, targets, facts, n + 1, found.push(store));
            },
        }
    }
}

/// An attachment is stored exactly when the pass stores its own single-sampled
/// texels, it outlives the pass, and its target is the one it asked for, whose
/// destination is known: the pages of a linear target, the mapping of a surface.
/// What is stored is that target, to that destination.
pub proof fn law_a_store_goes_to_its_own_destination(
    color: ColorRequest,
    target: Option<SecondaryTarget>,
    facts: DestinationFacts,
)
    ensures
        (stored(color, target, facts) matches Ok(store) && store is Some) <==> {
            &&& color.store_action == StoreAction::Store
            &&& !color.memoryless
            &&& color.sample_count == 1 && color.multisample_source_ref == 0
            &&& target is Some
            &&& target->0.width == color.width && target->0.height == color.height
            &&& match target->0.identity {
                TargetIdentity::Gva { gva, .. } => gva == color.target_gva && gva != 0
                    && color.mapping_id == 0 && facts.pages,
                TargetIdentity::Surface { id } => id == color.mapping_id && id != 0
                    && color.target_gva == 0 && facts.mapping,
                TargetIdentity::PassLocal { .. } => false,
            }
        },
        stored(color, target, facts) matches Ok(Some(store)) ==> {
            &&& store.color == color
            &&& store.identity == target->0.identity
            &&& store.destination == Destination::Gva <==> store.identity is Gva
            &&& store.destination == Destination::Mapping <==> store.identity is Surface
        },
        stored(color, target, facts) == Ok::<Option<Store>, StoreReason>(None)
            <==> color.store_action == StoreAction::Discard,
{
}

/// A store that is refused is refused for what it lacks, in one order: a declared
/// action, storage that outlives the pass, a single sample, its own target, and a
/// known destination.
pub proof fn law_a_refused_store_has_its_reason(
    color: ColorRequest,
    target: Option<SecondaryTarget>,
    facts: DestinationFacts,
)
    ensures
        stored(color, target, facts) matches Err(reason) ==> match reason {
            StoreReason::Action => color.store_action == StoreAction::Undeclared,
            StoreReason::Memoryless => color.memoryless,
            StoreReason::Multisample => !color.memoryless && (color.sample_count != 1
                || color.multisample_source_ref != 0 || color.store_action
                == StoreAction::Resolve),
            StoreReason::Identity => !color.memoryless && color.sample_count == 1 && (target is None
                || target->0.width != color.width || target->0.height != color.height || !names(
                target->0.identity,
                color,
            )),
            StoreReason::Pages => color.target_gva != 0 && color.mapping_id == 0 && !facts.pages,
            StoreReason::Mapping => color.mapping_id != 0 && color.target_gva == 0
                && !facts.mapping,
            StoreReason::Destination => (color.mapping_id == 0) == (color.target_gva == 0),
            StoreReason::MappingMoved => false,
            StoreReason::Transfer => false,
        },
        color.store_action == StoreAction::Undeclared ==> stored(color, target, facts) == Err::<
            Option<Store>,
            StoreReason,
        >(StoreReason::Action),
        color.store_action == StoreAction::Store && color.memoryless ==> stored(
            color,
            target,
            facts,
        ) == Err::<Option<Store>, StoreReason>(StoreReason::Memoryless),
{
}

/// Every secondary attachment that is stored has its store among those captured;
/// the primary has none there. A refused capture names the first secondary
/// attachment that is refused, with its own reason.
pub proof fn law_every_stored_attachment_is_captured(
    colors: Seq<ColorRequest>,
    targets: Seq<SecondaryTarget>,
    facts: Seq<DestinationFacts>,
    n: int,
    found: Seq<Store>,
)
    requires
        n >= 1,
    ensures
        gathered(colors, targets, facts, n, found) matches Ok(stores) ==> {
            &&& found.is_prefix_of(stores)
            &&& forall|k: int|
                n <= k < colors.len() ==> match stored(
                    #[trigger] colors[k],
                    if k <= targets.len() {
                        Some(targets[k - 1])
                    } else {
                        None
                    },
                    facts[k],
                ) {
                    Ok(Some(store)) => stores.contains(store),
                    Ok(None) => true,
                    Err(_) => false,
                }
        },
        gathered(colors, targets, facts, n, found) matches Err(refusal) ==> exists|k: int|
            n <= k < colors.len() && refusal.slot == (#[trigger] colors[k]).slot
                && refusal.texture_ref == colors[k].texture_ref && stored(
                colors[k],
                target_at(targets, k),
                facts[k],
            ) == Err::<Option<Store>, StoreReason>(refusal.reason) && forall|j: int|
                n <= j < k ==> stored(#[trigger] colors[j], target_at(targets, j), facts[j]) is Ok,
    decreases colors.len() - n,
{
    if n < colors.len() {
        match stored(colors[n], target_at(targets, n), facts[n]) {
            Err(reason) => {
                assert(colors[n].slot == colors[n].slot);
            },
            Ok(None) => {
                law_every_stored_attachment_is_captured(colors, targets, facts, n + 1, found);
                lemma_refused_later(colors, targets, facts, n, found);
            },
            Ok(Some(store)) => {
                let next = found.push(store);
                law_every_stored_attachment_is_captured(colors, targets, facts, n + 1, next);
                lemma_refused_later(colors, targets, facts, n, next);
                if let Ok(stores) = gathered(colors, targets, facts, n, found) {
                    assert(next[found.len() as int] == store);
                    assert(stores[found.len() as int] == store);
                    assert(stores.contains(store));
                    assert forall|k: int| 0 <= k < found.len() implies found[k]
                        == #[trigger] stores[k] by {
                        assert(next[k] == found[k]);
                    }
                }
            },
        }
    }
}

proof fn lemma_refused_later(
    colors: Seq<ColorRequest>,
    targets: Seq<SecondaryTarget>,
    facts: Seq<DestinationFacts>,
    n: int,
    found: Seq<Store>,
)
    requires
        1 <= n < colors.len(),
        stored(colors[n], target_at(targets, n), facts[n]) is Ok,
        gathered(colors, targets, facts, n + 1, found) matches Err(refusal) ==> exists|k: int|
            n + 1 <= k < colors.len() && refusal.slot == (#[trigger] colors[k]).slot
                && refusal.texture_ref == colors[k].texture_ref && stored(
                colors[k],
                target_at(targets, k),
                facts[k],
            ) == Err::<Option<Store>, StoreReason>(refusal.reason) && forall|j: int|
                n + 1 <= j < k ==> stored(
                    #[trigger] colors[j],
                    target_at(targets, j),
                    facts[j],
                ) is Ok,
    ensures
        gathered(colors, targets, facts, n + 1, found) matches Err(refusal) ==> exists|k: int|
            n <= k < colors.len() && refusal.slot == (#[trigger] colors[k]).slot
                && refusal.texture_ref == colors[k].texture_ref && stored(
                colors[k],
                target_at(targets, k),
                facts[k],
            ) == Err::<Option<Store>, StoreReason>(refusal.reason) && forall|j: int|
                n <= j < k ==> stored(#[trigger] colors[j], target_at(targets, j), facts[j]) is Ok,
{
}

/// Stores are published only while every surface among them is still the captured
/// mapping; otherwise the first that moved is named. A linear target never moves.
pub proof fn law_no_store_is_published_to_a_moved_surface(
    stores: Seq<Store>,
    current: Seq<bool>,
    n: int,
)
    requires
        0 <= n <= stores.len(),
    ensures
        n <= kept(stores, current, n) <= stores.len(),
        forall|k: int|
            n <= k < kept(stores, current, n) ==> (#[trigger] stores[k]).destination
                == Destination::Gva || current[k],
        kept(stores, current, n) < stores.len() ==> stores[kept(stores, current, n)].destination
            == Destination::Mapping && !current[kept(stores, current, n)],
        n == 0 ==> (currency(stores, current) is Ok <==> forall|k: int|
            0 <= k < stores.len() ==> (#[trigger] stores[k]).destination == Destination::Gva
                || current[k]),
        n == 0 && currency(stores, current) is Err ==> currency(stores, current)->Err_0 == (Refusal {
            slot: stores[kept(stores, current, 0)].color.slot,
            texture_ref: stores[kept(stores, current, 0)].color.texture_ref,
            reason: StoreReason::MappingMoved,
        }),
    decreases stores.len() - n,
{
    if n < stores.len() && !moved(stores[n], current[n]) {
        law_no_store_is_published_to_a_moved_surface(stores, current, n + 1);
    }
}

/// Transfers are published up to the first that does not land, which is named; a
/// surface that landed is announced with its own extent and format, a linear
/// target not at all.
pub proof fn law_landed_transfers_are_published(
    landed: Seq<bool>,
    n: int,
    store: Store,
    lands: bool,
)
    requires
        0 <= n <= landed.len(),
    ensures
        n <= transfers(landed, n) <= landed.len(),
        forall|k: int| n <= k < transfers(landed, n) ==> #[trigger] landed[k],
        transfers(landed, n) < landed.len() ==> !landed[transfers(landed, n)],
        transfer_result(store, lands) is Ok <==> lands,
        transfer_result(store, lands) matches Err(refusal) ==> refusal.slot == store.color.slot
            && refusal.texture_ref == store.color.texture_ref && refusal.reason
            == StoreReason::Transfer,
        transfer_result(store, lands) matches Ok(published) ==> {
            &&& published.surface is Some <==> store.color.mapping_id != 0
            &&& published.surface matches Some(surface) ==> surface.mapping_id
                == store.color.mapping_id && surface.width == store.color.width && surface.height
                == store.color.height && surface.format == store.color.format
        },
    decreases landed.len() - n,
{
    if n < landed.len() && landed[n] {
        law_landed_transfers_are_published(landed, n + 1, store, lands);
    }
}

/// No two reasons are reported under one name.
pub proof fn law_every_store_reason_has_a_name_of_its_own(a: StoreReason, b: StoreReason)
    ensures
        a.slug_text() == b.slug_text() ==> a == b,
{
    reveal_strlit("draw_vk_secondary_store_action");
    reveal_strlit("draw_vk_secondary_store_memoryless");
    reveal_strlit("draw_vk_secondary_store_multisample");
    reveal_strlit("draw_vk_secondary_store_identity");
    reveal_strlit("draw_vk_secondary_store_pages");
    reveal_strlit("draw_vk_secondary_store_mapping");
    reveal_strlit("draw_vk_secondary_store_destination");
    reveal_strlit("draw_vk_secondary_store_mapping_moved");
    reveal_strlit("draw_vk_secondary_store_transfer");
    assert("draw_vk_secondary_store_action"@.len() == 30 && "draw_vk_secondary_store_action"@[26] == 't');
    assert("draw_vk_secondary_store_memoryless"@.len() == 34 && "draw_vk_secondary_store_memoryless"@[26] == 'm');
    assert("draw_vk_secondary_store_multisample"@.len() == 35 && "draw_vk_secondary_store_multisample"@[26] == 'l');
    assert("draw_vk_secondary_store_identity"@.len() == 32 && "draw_vk_secondary_store_identity"@[26] == 'e');
    assert("draw_vk_secondary_store_pages"@.len() == 29 && "draw_vk_secondary_store_pages"@[26] == 'g');
    assert("draw_vk_secondary_store_mapping"@.len() == 31 && "draw_vk_secondary_store_mapping"@[26] == 'p');
    assert("draw_vk_secondary_store_destination"@.len() == 35 && "draw_vk_secondary_store_destination"@[26] == 's');
    assert("draw_vk_secondary_store_mapping_moved"@.len() == 37 && "draw_vk_secondary_store_mapping_moved"@[26] == 'p');
    assert("draw_vk_secondary_store_transfer"@.len() == 32 && "draw_vk_secondary_store_transfer"@[26] == 'a');
}

} // verus!
