//! One immutable planar snapshot per serialized texture resource.
//!
//! A hit requires exact source identity and the shared write witness. Delayed
//! observations confine read elision to one live decoded render pass. A miss
//! brackets the ordinary plane fill: a changed or unreadable generation may
//! serve this copy, but can never retain it for reuse. Replacing or dropping a
//! candidate drops only the cache's handle; encoded commands keep their own.
use crate::gather::{is_scope, same_numbers, GatherOutcome, GatheredIdentity};
use std::sync::Arc;
use vstd::prelude::*;

verus! {

/// Why planar staging refuses a texture.
#[derive(Clone, Copy, Debug, PartialEq, Eq, Structural)]
pub enum ComputeStatus {
    /// The surface mapping is gone.
    MappingMissing,
    /// The surface mapping is no longer the one that was decoded.
    MappingChanged,
    /// A plane could not be read.
    MappingRead,
}

impl ComputeStatus {
    /// The name a status is reported under.
    pub open spec fn slug_text(self) -> Seq<char> {
        match self {
            ComputeStatus::MappingMissing => "planar_mapping_missing"@,
            ComputeStatus::MappingChanged => "planar_mapping_changed"@,
            ComputeStatus::MappingRead => "planar_mapping_read"@,
        }
    }

    /// The name a status is reported under.
    pub fn slug(self) -> (text: &'static str)
        ensures
            text@ == self.slug_text(),
    {
        match self {
            ComputeStatus::MappingMissing => "planar_mapping_missing",
            ComputeStatus::MappingChanged => "planar_mapping_changed",
            ComputeStatus::MappingRead => "planar_mapping_read",
        }
    }
}

/// The texture a guest declared over a planar surface.
#[derive(Clone, Copy, Debug, PartialEq, Eq, Structural)]
pub struct TextureDescription {
    pub mapping_id: u32,
    pub width: u32,
    pub height: u32,
    pub format: u16,
}

/// One plane of a surface.
#[derive(Clone, Copy, Debug, PartialEq, Eq, Structural)]
pub struct Plane {
    pub offset: u32,
    pub base: u32,
    pub size: u64,
    pub width: u32,
    pub height: u32,
    pub bytes_per_row: u32,
    pub bytes_per_element: u32,
}

/// The decoded layout of a planar surface.
pub struct Layout {
    pub allocation_size: u64,
    pub backing_format: u32,
    pub planes: Vec<Plane>,
}

/// A layout as a value.
pub ghost struct LayoutModel {
    pub allocation_size: u64,
    pub backing_format: u32,
    pub planes: Seq<Plane>,
}

impl View for Layout {
    type V = LayoutModel;

    open spec fn view(&self) -> LayoutModel {
        LayoutModel {
            allocation_size: self.allocation_size,
            backing_format: self.backing_format,
            planes: self.planes@,
        }
    }
}

/// Exactly which guest bytes a planar image was made from. Nothing is hashed
/// away: every layout and physical-identity term is kept.
pub struct SourceKey {
    pub description: TextureDescription,
    pub layout: Layout,
    pub map_generation: u32,
    pub content_generation: u32,
    pub page_size: u64,
    pub pages: Vec<u64>,
}

/// A source key as a value.
pub ghost struct SourceModel {
    pub description: TextureDescription,
    pub layout: LayoutModel,
    pub map_generation: u32,
    pub content_generation: u32,
    pub page_size: u64,
    pub pages: Seq<u64>,
}

impl View for SourceKey {
    type V = SourceModel;

    open spec fn view(&self) -> SourceModel {
        SourceModel {
            description: self.description,
            layout: self.layout@,
            map_generation: self.map_generation,
            content_generation: self.content_generation,
            page_size: self.page_size,
            pages: self.pages@,
        }
    }
}

/// Whether two layouts are the same.
pub fn same_layout(a: &Layout, b: &Layout) -> (r: bool)
    ensures
        r == (a@ == b@),
{
    if a.allocation_size != b.allocation_size || a.backing_format != b.backing_format
        || a.planes.len() != b.planes.len() {
        return false;
    }
    let mut n: usize = 0;
    while n < a.planes.len()
        invariant
            0 <= n <= a.planes@.len(),
            a.planes@.len() == b.planes@.len(),
            a.allocation_size == b.allocation_size,
            a.backing_format == b.backing_format,
            forall|k: int| 0 <= k < n ==> a.planes@[k] == b.planes@[k],
        decreases a.planes@.len() - n,
    {
        if a.planes[n] != b.planes[n] {
            assert(a@.planes[n as int] != b@.planes[n as int]);
            return false;
        }
        n += 1;
    }
    assert(a@.planes =~= b@.planes);
    true
}

/// Whether two source keys are the same.
pub fn same_source(a: &SourceKey, b: &SourceKey) -> (r: bool)
    ensures
        r == (a@ == b@),
{
    a.description == b.description && same_layout(&a.layout, &b.layout) && a.map_generation
        == b.map_generation && a.content_generation == b.content_generation && a.page_size
        == b.page_size && same_numbers(&a.pages, &b.pages)
}

/// The surface mapping as it stands when a window is resolved.
pub struct PlanarMapping {
    pub mapped: bool,
    pub map_generation: u32,
    pub content_generation: u32,
    /// Its layout at the declared size, where its descriptor decodes.
    pub layout: Option<Layout>,
}

/// The planar texture being staged.
pub struct PlanarSource {
    pub description: TextureDescription,
    pub layout: Layout,
    pub map_generation: u32,
}

/// What resolving a window found outside: the contiguous view's pages, the
/// mapping, and whether the allocation lies inside the view.
pub struct ResolvedView {
    pub pages: Vec<u64>,
    pub page_size: u64,
    pub mapping: Option<PlanarMapping>,
    /// A submitted guest write may still reach the pages.
    pub writes_may_reach: bool,
    /// The whole allocation lies inside the view.
    pub run_fits: bool,
}

/// The mapping is still the one the source was decoded from.
pub open spec fn still_decodes(source: PlanarSource, mapping: PlanarMapping) -> bool {
    &&& mapping.mapped
    &&& mapping.map_generation == source.map_generation
    &&& mapping.layout matches Some(layout) && layout@ == source.layout@
}

/// The exact source of a planar texture right now. Without a contiguous view
/// there is no audit and thus no reuse; with a write still in flight there is
/// no settled observation; either way the texture is staged without a key.
pub open spec fn resolved_source(source: PlanarSource, view: Option<ResolvedView>) -> Result<
    Option<SourceModel>,
    ComputeStatus,
> {
    match view {
        None => Ok(None),
        Some(v) => match v.mapping {
            None => Err(ComputeStatus::MappingMissing),
            Some(mapping) => if !still_decodes(source, mapping) {
                Err(ComputeStatus::MappingChanged)
            } else if v.writes_may_reach || !v.run_fits {
                Ok(None)
            } else {
                Ok(
                    Some(
                        SourceModel {
                            description: source.description,
                            layout: source.layout@,
                            map_generation: mapping.map_generation,
                            content_generation: mapping.content_generation,
                            page_size: v.page_size,
                            pages: v.pages@,
                        },
                    ),
                )
            },
        },
    }
}

fn copy_layout(layout: &Layout) -> (copy: Layout)
    ensures
        copy@ == layout@,
{
    let mut planes: Vec<Plane> = Vec::with_capacity(layout.planes.len());
    let mut n: usize = 0;
    while n < layout.planes.len()
        invariant
            0 <= n <= layout.planes@.len(),
            planes@ == layout.planes@.take(n as int),
        decreases layout.planes@.len() - n,
    {
        planes.push(layout.planes[n]);
        n += 1;
        assert(planes@ =~= layout.planes@.take(n as int));
    }
    assert(planes@ =~= layout.planes@);
    Layout {
        allocation_size: layout.allocation_size,
        backing_format: layout.backing_format,
        planes,
    }
}

/// The exact source of a planar texture right now.
pub fn resolve(source: &PlanarSource, view: Option<ResolvedView>) -> (key: Result<
    Option<SourceKey>,
    ComputeStatus,
>)
    ensures
        match resolved_source(*source, view) {
            Err(status) => key matches Err(e) && e == status,
            Ok(None) => key matches Ok(k) && k is None,
            Ok(Some(model)) => key matches Ok(Some(k)) && k@ == model,
        },
{
    let view: ResolvedView = match view {
        None => {
            return Ok(None);
        },
        Some(view) => view,
    };
    let mapping: PlanarMapping = match view.mapping {
        None => {
            return Err(ComputeStatus::MappingMissing);
        },
        Some(mapping) => mapping,
    };
    let decodes: bool = match &mapping.layout {
        Some(layout) => same_layout(layout, &source.layout),
        None => false,
    };
    if !mapping.mapped || mapping.map_generation != source.map_generation || !decodes {
        return Err(ComputeStatus::MappingChanged);
    }
    if view.writes_may_reach || !view.run_fits {
        return Ok(None);
    }
    Ok(
        Some(
            SourceKey {
                description: source.description,
                layout: copy_layout(&source.layout),
                map_generation: mapping.map_generation,
                content_generation: mapping.content_generation,
                page_size: view.page_size,
                pages: view.pages,
            },
        ),
    )
}

/// A retained image and what it was made from.
pub struct PlanarEntry<I> {
    pub source: SourceKey,
    pub identity: GatheredIdentity,
    pub image: Arc<I>,
}

/// The one candidate a texture resource keeps.
pub struct RetainedPlanar<I> {
    pub latest: Option<PlanarEntry<I>>,
}

/// What one staging counts.
#[derive(Clone, Copy, Debug, PartialEq, Eq, Structural)]
pub enum PlanarNote {
    Unscoped,
    Reuses,
    ReuseBytes { bytes: u64 },
    Misses,
    Unretained,
}

/// The summed size of a layout's planes.
pub open spec fn plane_bytes(planes: Seq<Plane>) -> int
    decreases planes.len(),
{
    if planes.len() == 0 {
        0
    } else {
        plane_bytes(planes.drop_last()) + planes.last().size
    }
}

/// An observation before staging, where there is a window to observe.
pub type Observed = Option<(SourceKey, GatherOutcome)>;

/// The candidate serves the texture: the witness vouches for the very bytes it
/// was made from, under the scope the staging began in.
pub open spec fn serves<I>(
    held: RetainedPlanar<I>,
    before: Observed,
    scope_id: u64,
    scope_now: Option<u64>,
) -> bool {
    &&& before matches Some((key, outcome))
    &&& held.latest matches Some(entry)
    &&& outcome.reusable()
    &&& scope_now == Some(scope_id)
    &&& entry.source@ == key@
    &&& entry.identity == outcome.identity
}

/// The filled image may stand for later reads: the source is exactly what it was
/// before the fill, nothing wrote it meanwhile, and the scope is still open.
pub open spec fn may_retain(
    key: SourceModel,
    before: GatherOutcome,
    after: SourceModel,
    outcome: GatherOutcome,
    scope_id: u64,
    scope_now: Option<u64>,
) -> bool {
    &&& after == key
    &&& outcome.reusable()
    &&& outcome.identity == before.identity
    &&& before.cpu_read_settled
    &&& scope_now == Some(scope_id)
}

/// What staging does next.
pub enum PlanarStep<I> {
    /// The retained image serves the draw.
    Reuse { image: Arc<I>, notes: Vec<PlanarNote> },
    /// The planes are filled. Only a staging with something to compare against
    /// is resolved again afterwards.
    Fill { pending: Option<PlanarPending>, notes: Vec<PlanarNote> },
}

/// A fill in progress: what was observed before it, and the scope it began in.
pub struct PlanarPending {
    pub key: SourceKey,
    pub before: GatherOutcome,
    pub scope_id: u64,
}

pub(crate) fn sum_planes(planes: &Vec<Plane>) -> (bytes: u64)
    requires
        plane_bytes(planes@) <= u64::MAX,
    ensures
        bytes == plane_bytes(planes@),
{
    let mut bytes: u64 = 0;
    let mut n: usize = 0;
    while n < planes.len()
        invariant
            0 <= n <= planes@.len(),
            plane_bytes(planes@) <= u64::MAX,
            bytes == plane_bytes(planes@.take(n as int)),
        decreases planes@.len() - n,
    {
        proof {
            assert(planes@.take(n + 1).drop_last() =~= planes@.take(n as int));
            lemma_plane_bytes_grow(planes@, n + 1);
        }
        bytes = bytes + planes[n].size;
        n += 1;
    }
    assert(planes@.take(n as int) =~= planes@);
    bytes
}

proof fn lemma_plane_bytes_grow(planes: Seq<Plane>, n: int)
    requires
        0 <= n <= planes.len(),
    ensures
        plane_bytes(planes.take(n)) <= plane_bytes(planes),
    decreases planes.len() - n,
{
    if n < planes.len() {
        lemma_plane_bytes_grow(planes, n + 1);
        assert(planes.take(n + 1).drop_last() =~= planes.take(n));
    } else {
        assert(planes.take(n) =~= planes);
    }
}

impl<I> RetainedPlanar<I> {
    /// Nothing is retained.
    pub fn new() -> (held: RetainedPlanar<I>)
        ensures
            held.latest is None,
    {
        RetainedPlanar { latest: None }
    }

    /// Whether nothing is retained.
    pub fn is_empty(&self) -> (r: bool)
        ensures
            r == (self.latest is None),
    {
        self.latest.is_none()
    }

    /// Begins a staging outside any live scope: the candidate is dropped, and
    /// the planes are always filled afresh.
    fn stage_unscoped(&mut self) -> (step: PlanarStep<I>)
        ensures
            final(self).latest is None,
            step matches PlanarStep::Fill { pending, notes } && pending is None && notes@ == seq![
                PlanarNote::Unscoped,
                PlanarNote::Misses,
            ],
    {
        self.latest = None;
        let mut notes: Vec<PlanarNote> = Vec::new();
        notes.push(PlanarNote::Unscoped);
        notes.push(PlanarNote::Misses);
        assert(notes@ =~= seq![PlanarNote::Unscoped, PlanarNote::Misses]);
        PlanarStep::Fill { pending: None, notes }
    }

    /// Begins a staging within a scope. A miss drops the candidate before the
    /// planes are filled, so that a failing fill leaves none behind.
    fn stage_scoped(
        &mut self,
        layout: &Layout,
        before: Observed,
        scope_id: u64,
        scope_now: Option<u64>,
    ) -> (step: PlanarStep<I>)
        requires
            plane_bytes(layout@.planes) <= u64::MAX,
        ensures
            serves(*old(self), before, scope_id, scope_now) ==> {
                &&& *final(self) == *old(self)
                &&& step matches PlanarStep::Reuse { image, notes } && image
                    == old(self).latest->0.image && notes@ == seq![
                    PlanarNote::Reuses,
                    PlanarNote::ReuseBytes { bytes: plane_bytes(layout@.planes) as u64 },
                ]
            },
            !serves(*old(self), before, scope_id, scope_now) ==> {
                &&& final(self).latest is None
                &&& step matches PlanarStep::Fill { pending, notes } && notes@ == seq![
                    PlanarNote::Misses,
                ] && match before {
                    None => pending is None,
                    Some(pair) => pending == Some(
                        PlanarPending { key: pair.0, before: pair.1, scope_id },
                    ),
                }
            },
    {
        let mut notes: Vec<PlanarNote> = Vec::new();
        if let Some(entry) = &self.latest {
            if let Some(pair) = &before {
                if pair.1.cpu_read_vouched() && is_scope(scope_now, scope_id) && same_source(
                    &entry.source,
                    &pair.0,
                ) && entry.identity == pair.1.identity {
                    notes.push(PlanarNote::Reuses);
                    notes.push(PlanarNote::ReuseBytes { bytes: sum_planes(&layout.planes) });
                    assert(notes@ =~= seq![
                        PlanarNote::Reuses,
                        PlanarNote::ReuseBytes { bytes: plane_bytes(layout@.planes) as u64 },
                    ]);
                    return PlanarStep::Reuse { image: entry.image.clone(), notes };
                }
            }
        }
        self.latest = None;
        notes.push(PlanarNote::Misses);
        assert(notes@ =~= seq![PlanarNote::Misses]);
        let pending: Option<PlanarPending> = match before {
            None => None,
            Some((key, outcome)) => Some(PlanarPending { key, before: outcome, scope_id }),
        };
        PlanarStep::Fill { pending, notes }
    }

    /// Begins a staging. Without a live scope nothing is observed and nothing kept;
    /// `scope` is the identity of the live scope, with what was observed in it.
    pub fn stage(
        &mut self,
        layout: &Layout,
        scope: Option<(u64, Observed)>,
        scope_now: Option<u64>,
    ) -> (step: PlanarStep<I>)
        requires
            plane_bytes(layout@.planes) <= u64::MAX,
        ensures
            match scope {
                None => {
                    &&& final(self).latest is None
                    &&& step matches PlanarStep::Fill { pending, notes } && pending is None
                        && notes@ == seq![PlanarNote::Unscoped, PlanarNote::Misses]
                },
                Some((scope_id, before)) => if serves(*old(self), before, scope_id, scope_now) {
                    &&& *final(self) == *old(self)
                    &&& step matches PlanarStep::Reuse { image, notes } && image
                        == old(self).latest->0.image && notes@ == seq![
                        PlanarNote::Reuses,
                        PlanarNote::ReuseBytes { bytes: plane_bytes(layout@.planes) as u64 },
                    ]
                } else {
                    &&& final(self).latest is None
                    &&& step matches PlanarStep::Fill { pending, notes } && notes@ == seq![
                        PlanarNote::Misses,
                    ] && match before {
                        None => pending is None,
                        Some(pair) => pending == Some(
                            PlanarPending { key: pair.0, before: pair.1, scope_id },
                        ),
                    }
                },
            },
    {
        match scope {
            None => self.stage_unscoped(),
            Some((scope_id, before)) => self.stage_scoped(layout, before, scope_id, scope_now),
        }
    }

    /// Ends a staging whose planes are filled. The image is retained only where
    /// the source, observed again, proves that nothing moved, and only where the
    /// resource's retained state is this cache's own; otherwise it serves this
    /// draw alone.
    pub fn finish(
        &mut self,
        owned: bool,
        pending: Option<PlanarPending>,
        after: Observed,
        scope_now: Option<u64>,
        image: &Arc<I>,
    ) -> (notes: Vec<PlanarNote>)
        ensures
            ({
                let retained = owned && pending is Some && after is Some && may_retain(
                    pending->0.key@,
                    pending->0.before,
                    (after->0).0@,
                    (after->0).1,
                    pending->0.scope_id,
                    scope_now,
                );
                &&& retained ==> notes@ == Seq::<PlanarNote>::empty() && final(self).latest
                    == Some(
                    PlanarEntry {
                        source: pending->0.key,
                        identity: (after->0).1.identity,
                        image: *image,
                    },
                )
                &&& !retained ==> notes@ == seq![PlanarNote::Unretained] && *final(self) == *old(
                    self,
                )
            }),
    {
        let mut notes: Vec<PlanarNote> = Vec::new();
        if let Some(pending) = pending {
            if let Some((key, outcome)) = after {
                if owned && same_source(&key, &pending.key) && outcome.cpu_read_vouched()
                    && outcome.identity == pending.before.identity
                    && pending.before.cpu_read_settled && is_scope(scope_now, pending.scope_id) {
                    self.latest = Some(
                        PlanarEntry {
                            source: pending.key,
                            identity: outcome.identity,
                            image: image.clone(),
                        },
                    );
                    return notes;
                }
            }
        }
        notes.push(PlanarNote::Unretained);
        assert(notes@ =~= seq![PlanarNote::Unretained]);
        notes
    }
}

/// A retained image is served only to a reader that observes the very source it
/// was filled from, at the very identity, vouched for, in the reader's own
/// live scope.
pub proof fn law_reuse_proves_the_filled_bytes<I>(
    key: SourceKey,
    first: GatherOutcome,
    after: SourceModel,
    last: GatherOutcome,
    filling_scope: u64,
    image: Arc<I>,
    reader: Observed,
    scope_id: u64,
    scope_now: Option<u64>,
)
    requires
        may_retain(key@, first, after, last, filling_scope, Some(filling_scope)),
        serves(
            RetainedPlanar {
                latest: Some(PlanarEntry { source: key, identity: last.identity, image }),
            },
            reader,
            scope_id,
            scope_now,
        ),
    ensures
        (reader->0).0@ == key@,
        (reader->0).1.identity == first.identity,
        (reader->0).1.reusable(),
        scope_now == Some(scope_id),
{
}

/// A planar source is known exactly when its mapping is there, live, of the
/// decoded generation and layout, wholly in view and out of reach of any write; it
/// then names the generations and pages that are there now.
pub proof fn law_a_planar_source_is_what_was_decoded(
    source: PlanarSource,
    view: Option<ResolvedView>,
)
    ensures
        (resolved_source(source, view) matches Ok(key) && key is Some) <==> {
            &&& view is Some
            &&& view->0.mapping is Some
            &&& view->0.mapping->0.mapped
            &&& view->0.mapping->0.map_generation == source.map_generation
            &&& view->0.mapping->0.layout is Some
            &&& view->0.mapping->0.layout->0@ == source.layout@
            &&& !view->0.writes_may_reach
            &&& view->0.run_fits
        },
        resolved_source(source, view) matches Ok(Some(key)) ==> {
            &&& key.description == source.description
            &&& key.layout == source.layout@
            &&& key.map_generation == source.map_generation
            &&& key.content_generation == view->0.mapping->0.content_generation
            &&& key.page_size == view->0.page_size
            &&& key.pages == view->0.pages@
        },
        resolved_source(source, view) == Err::<Option<SourceModel>, ComputeStatus>(
            ComputeStatus::MappingMissing,
        ) <==> view is Some && view->0.mapping is None,
        resolved_source(source, view) == Err::<Option<SourceModel>, ComputeStatus>(
            ComputeStatus::MappingChanged,
        ) <==> view is Some && view->0.mapping is Some && !(view->0.mapping->0.mapped
            && view->0.mapping->0.map_generation == source.map_generation
            && view->0.mapping->0.layout is Some && view->0.mapping->0.layout->0@
            == source.layout@),
        resolved_source(source, view) != Err::<Option<SourceModel>, ComputeStatus>(
            ComputeStatus::MappingRead,
        ),
{
}

/// An image retained by one staging serves the next one exactly while the source
/// and the witness's identity are the ones it was retained with, the witness
/// vouches for them, no write may still reach, and the scope is live; without a
/// candidate or an observation nothing serves.
pub proof fn law_a_retained_image_serves_until_its_source_changes<I>(
    image: Arc<I>,
    key: SourceKey,
    before: GatherOutcome,
    after: GatherOutcome,
    scope_id: u64,
    next: (SourceKey, GatherOutcome),
    next_scope: u64,
    scope_now: Option<u64>,
)
    requires
        may_retain(key@, before, key@, after, scope_id, Some(scope_id)),
    ensures
        serves(
            RetainedPlanar {
                latest: Some(PlanarEntry { source: key, identity: after.identity, image }),
            },
            Some(next),
            next_scope,
            scope_now,
        ) <==> {
            &&& next.0@ == key@
            &&& next.1.identity == before.identity
            &&& next.1.vouched
            &&& next.1.cpu_read_settled
            &&& scope_now is Some && scope_now->0 == next_scope
        },
        !serves(RetainedPlanar::<I> { latest: None }, Some(next), next_scope, scope_now),
        !serves(
            RetainedPlanar {
                latest: Some(PlanarEntry { source: key, identity: after.identity, image }),
            },
            None,
            next_scope,
            scope_now,
        ),
{
}

/// An image is retained only where the source did not change from before the fill
/// to after it: the same source and identity, vouched for and settled on both
/// sides, in the scope that the staging began in.
pub proof fn law_only_an_unchanged_source_is_retained(
    key: SourceModel,
    before: GatherOutcome,
    after: SourceModel,
    outcome: GatherOutcome,
    scope_id: u64,
    scope_now: Option<u64>,
)
    ensures
        may_retain(key, before, after, outcome, scope_id, scope_now) <==> {
            &&& key.description == after.description && key.layout == after.layout
            &&& key.map_generation == after.map_generation && key.content_generation
                == after.content_generation
            &&& key.page_size == after.page_size && key.pages == after.pages
            &&& before.identity == outcome.identity
            &&& before.cpu_read_settled && outcome.cpu_read_settled && outcome.vouched
            &&& scope_now is Some && scope_now->0 == scope_id
        },
{
    assert(key == after <==> key.description == after.description && key.layout == after.layout
        && key.map_generation == after.map_generation && key.content_generation
        == after.content_generation && key.page_size == after.page_size && key.pages
        == after.pages);
}

/// The bytes of two lists of planes add up, and one plane has its own size.
pub proof fn law_planes_add_up(first: Seq<Plane>, second: Seq<Plane>, plane: Plane)
    ensures
        plane_bytes(first + second) == plane_bytes(first) + plane_bytes(second),
        plane_bytes(seq![plane]) == plane.size,
    decreases second.len(),
{
    assert(seq![plane].drop_last() =~= Seq::<Plane>::empty());
    assert(plane_bytes(seq![plane].drop_last()) == 0);
    if second.len() == 0 {
        assert(first + second =~= first);
    } else {
        law_planes_add_up(first, second.drop_last(), plane);
        assert((first + second).drop_last() =~= first + second.drop_last());
        assert((first + second).last() == second.last());
    }
}

/// No two statuses are reported under one name.
pub proof fn law_every_status_has_a_name_of_its_own(a: ComputeStatus, b: ComputeStatus)
    ensures
        a.slug_text() == b.slug_text() ==> a == b,
{
    reveal_strlit("planar_mapping_missing");
    reveal_strlit("planar_mapping_changed");
    reveal_strlit("planar_mapping_read");
    assert("planar_mapping_missing"@.len() == 22 && "planar_mapping_missing"@[18] == 's');
    assert("planar_mapping_changed"@.len() == 22 && "planar_mapping_changed"@[18] == 'n');
    assert("planar_mapping_read"@.len() == 19 && "planar_mapping_read"@[18] == 'd');
}

} // verus!
