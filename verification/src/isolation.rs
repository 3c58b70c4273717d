//! Isolation of one draw's writable textures from everything it renders to.
//!
//! A draw whose fragment shader orders its pixels may write storage textures
//! only when no guest byte is reachable both ways. The proof is made from live
//! owners and recorded pages, and belongs to exactly one request.
use crate::coverage::{
    canonical, covered, covered_spans, in_page, law_zero_overlap_means_disjoint, overlap_bytes,
    page_set, proves_coverage, walked, GuestPageFootprint,
};
use crate::scope::{ScopeRegistry, SnapshotScopeRef};
use crate::storage::{
    GraphicsStorageTexture, GraphicsTextureAccess, GraphicsTextureBinding, StorageImageFormat,
    StorageTexture, StorageTextures,
};
use crate::vulkan::{
    descriptor_number, descriptor_type, stage_flag, stage_flags, DescriptorKind,
};
use vstd::prelude::*;

verus! {

/// Why a draw is not isolated.
#[derive(Clone, Copy, Debug, PartialEq, Eq, Structural)]
pub enum InterlockIsolationRefusal {
    ScopeExpired,
    OwnerUnavailable { reference: u32 },
    BackingUnavailable { reference: u32 },
    ResidentSeedUnavailable { reference: u32 },
    GuestAlias { source: u32, destination: u32 },
    BindingChanged,
}

/// What a native render target is.
#[derive(Clone, Copy, Debug, PartialEq, Eq, Structural)]
pub enum TargetIdentity {
    /// An image that lives only for the pass.
    PassLocal { id: u64 },
    /// A linear guest allocation.
    Gva { gva: u64, width: u32, height: u32, generation: u64, format: i32 },
    /// A guest surface.
    Surface { id: u64 },
}

/// The native request a draw ends up as.
pub struct NativeRequest {
    pub width: u32,
    pub height: u32,
    /// Which retained fragment module the request carries.
    pub fragment: u64,
    pub target_identity: Option<TargetIdentity>,
    pub secondary_targets: Vec<TargetIdentity>,
    pub storage_textures: Vec<GraphicsStorageTexture>,
}

/// Where a colour attachment's bytes are.
pub enum ColorBacking {
    /// A surface mapping: whether it is live, the import it retains, and the
    /// pages it reaches.
    Mapping { mapped: bool, import: Option<u64>, pages: Option<GuestPageFootprint> },
    /// A linear span, with its pages where every one of them is known in order.
    Linear { target_gva: u64, row_stride: u32, pages: Option<GuestPageFootprint> },
}

/// A colour attachment as the guest requested it.
pub struct IsolationColor {
    pub texture_ref: u32,
    pub memoryless: bool,
    /// The live owner of the texture.
    pub owner: Option<u64>,
    pub height: u32,
    /// Bytes of one tightly packed row, where the format has a width.
    pub tight_row: Option<u32>,
    pub backing: ColorBacking,
}

/// One storage texture of a request, as it was proved isolated.
pub struct StorageSignature {
    pub width: u32,
    pub height: u32,
    pub format: StorageImageFormat,
    pub bindings: Vec<(u32, u32, u32)>,
}

/// A storage signature as a value.
pub ghost struct SignatureModel {
    pub width: u32,
    pub height: u32,
    pub format: StorageImageFormat,
    pub bindings: Seq<(u32, u32, u32)>,
}

/// A single draw's backing isolation, with the owners, imports and pages it
/// rests on. Only [`isolate_interlock`] makes one.
pub struct InterlockIsolation {
    scope: SnapshotScopeRef,
    fragment: u64,
    targets: Vec<Option<TargetIdentity>>,
    dimensions: (u32, u32),
    storage: Vec<StorageSignature>,
    owners: Vec<u64>,
    imports: Vec<u64>,
    footprints: Vec<GuestPageFootprint>,
}

impl View for StorageSignature {
    type V = SignatureModel;

    open spec fn view(&self) -> SignatureModel {
        SignatureModel {
            width: self.width,
            height: self.height,
            format: self.format,
            bindings: self.bindings@,
        }
    }
}

/// The descriptor kind an access is bound as.
pub open spec fn access_kind(access: GraphicsTextureAccess) -> DescriptorKind {
    match access {
        GraphicsTextureAccess::Sampled => DescriptorKind::SampledImage,
        GraphicsTextureAccess::Storage => DescriptorKind::StorageImage,
    }
}

/// A binding as a signature records it.
pub open spec fn binding_signature(binding: GraphicsTextureBinding) -> (u32, u32, u32) {
    (binding.binding, descriptor_number(access_kind(binding.access)), stage_flag(binding.stage))
}

/// A storage texture as a signature records it.
pub open spec fn texture_signature(texture: GraphicsStorageTexture) -> SignatureModel {
    SignatureModel {
        width: texture.width,
        height: texture.height,
        format: texture.format,
        bindings: texture.bindings@.map_values(|b: GraphicsTextureBinding| binding_signature(b)),
    }
}

/// The storage textures of a request, as signatures.
pub open spec fn request_signature(request: NativeRequest) -> Seq<SignatureModel> {
    request.storage_textures@.map_values(|t: GraphicsStorageTexture| texture_signature(t))
}

/// The render targets of a request, slot zero first.
pub open spec fn request_targets(request: NativeRequest) -> Seq<Option<TargetIdentity>> {
    seq![request.target_identity] + request.secondary_targets@.map_values(
        |t: TargetIdentity| Some(t),
    )
}

/// The render targets of a request, slot zero first.
pub fn targets(request: &NativeRequest) -> (list: Vec<Option<TargetIdentity>>)
    ensures
        list@ == request_targets(*request),
{
    let mut list: Vec<Option<TargetIdentity>> = Vec::new();
    list.push(request.target_identity);
    let ghost rest = request.secondary_targets@.map_values(|t: TargetIdentity| Some(t));
    let mut n: usize = 0;
    while n < request.secondary_targets.len()
        invariant
            0 <= n <= request.secondary_targets@.len(),
            rest == request.secondary_targets@.map_values(|t: TargetIdentity| Some(t)),
            list@ == seq![request.target_identity] + rest.take(n as int),
        decreases request.secondary_targets@.len() - n,
    {
        list.push(Some(request.secondary_targets[n]));
        n += 1;
        assert(list@ =~= seq![request.target_identity] + rest.take(n as int));
    }
    assert(rest.take(n as int) =~= rest);
    list
}

fn signature_of(texture: &GraphicsStorageTexture) -> (signature: StorageSignature)
    ensures
        signature@ == texture_signature(*texture),
{
    let mut bindings: Vec<(u32, u32, u32)> = Vec::new();
    let ghost all = texture_signature(*texture).bindings;
    let mut n: usize = 0;
    while n < texture.bindings.len()
        invariant
            0 <= n <= texture.bindings@.len(),
            all == texture_signature(*texture).bindings,
            bindings@ == all.take(n as int),
        decreases texture.bindings@.len() - n,
    {
        let binding: GraphicsTextureBinding = texture.bindings[n];
        let kind: DescriptorKind = match binding.access {
            GraphicsTextureAccess::Sampled => DescriptorKind::SampledImage,
            GraphicsTextureAccess::Storage => DescriptorKind::StorageImage,
        };
        bindings.push((binding.binding, descriptor_type(kind), stage_flags(binding.stage)));
        n += 1;
        assert(bindings@ =~= all.take(n as int));
    }
    assert(bindings@ =~= all);
    StorageSignature {
        width: texture.width,
        height: texture.height,
        format: texture.format,
        bindings,
    }
}

/// The storage textures of a request, as signatures.
pub fn storage_signature(request: &NativeRequest) -> (list: Vec<StorageSignature>)
    ensures
        list@.map_values(|s: StorageSignature| s@) == request_signature(*request),
{
    let mut list: Vec<StorageSignature> = Vec::new();
    let ghost all = request_signature(*request);
    let mut n: usize = 0;
    while n < request.storage_textures.len()
        invariant
            0 <= n <= request.storage_textures@.len(),
            all == request_signature(*request),
            list@.len() == n,
            forall|k: int| 0 <= k < n ==> (#[trigger] list@[k])@ == all[k],
        decreases request.storage_textures@.len() - n,
    {
        list.push(signature_of(&request.storage_textures[n]));
        n += 1;
    }
    assert(list@.map_values(|s: StorageSignature| s@) =~= all);
    list
}

fn same_target(a: Option<TargetIdentity>, b: Option<TargetIdentity>) -> (r: bool)
    ensures
        r == (a == b),
{
    match (a, b) {
        (Some(x), Some(y)) => x == y,
        (None, None) => true,
        _ => false,
    }
}

fn same_targets(a: &Vec<Option<TargetIdentity>>, b: &Vec<Option<TargetIdentity>>) -> (r: bool)
    ensures
        r == (a@ == b@),
{
    if a.len() != b.len() {
        return false;
    }
    let mut n: usize = 0;
    while n < a.len()
        invariant
            0 <= n <= a@.len(),
            a@.len() == b@.len(),
            forall|k: int| 0 <= k < n ==> a@[k] == b@[k],
        decreases a@.len() - n,
    {
        if !same_target(a[n], b[n]) {
            assert(a@[n as int] != b@[n as int]);
            return false;
        }
        n += 1;
    }
    assert(a@ =~= b@);
    true
}

fn same_bindings(a: &Vec<(u32, u32, u32)>, b: &Vec<(u32, u32, u32)>) -> (r: bool)
    ensures
        r == (a@ == b@),
{
    if a.len() != b.len() {
        return false;
    }
    let mut n: usize = 0;
    while n < a.len()
        invariant
            0 <= n <= a@.len(),
            a@.len() == b@.len(),
            forall|k: int| 0 <= k < n ==> a@[k] == b@[k],
        decreases a@.len() - n,
    {
        let x: (u32, u32, u32) = a[n];
        let y: (u32, u32, u32) = b[n];
        if x.0 != y.0 || x.1 != y.1 || x.2 != y.2 {
            assert(a@[n as int] != b@[n as int]);
            return false;
        }
        n += 1;
    }
    assert(a@ =~= b@);
    true
}

fn same_signatures(a: &Vec<StorageSignature>, b: &Vec<StorageSignature>) -> (r: bool)
    ensures
        r == (a@.map_values(|s: StorageSignature| s@) == b@.map_values(
            |s: StorageSignature| s@,
        )),
{
    let ghost left = a@.map_values(|s: StorageSignature| s@);
    let ghost right = b@.map_values(|s: StorageSignature| s@);
    if a.len() != b.len() {
        assert(left.len() != right.len());
        return false;
    }
    let mut n: usize = 0;
    while n < a.len()
        invariant
            0 <= n <= a@.len(),
            a@.len() == b@.len(),
            left == a@.map_values(|s: StorageSignature| s@),
            right == b@.map_values(|s: StorageSignature| s@),
            forall|k: int| 0 <= k < n ==> left[k] == right[k],
        decreases a@.len() - n,
    {
        let x: &StorageSignature = &a[n];
        let y: &StorageSignature = &b[n];
        if x.width != y.width || x.height != y.height || x.format != y.format || !same_bindings(
            &x.bindings,
            &y.bindings,
        ) {
            assert(left[n as int] != right[n as int]);
            return false;
        }
        assert(left[n as int] == right[n as int]);
        n += 1;
    }
    assert(left =~= right);
    true
}

/// The pages a colour attachment reads and writes, where they are known. A read
/// footprint is required even when nothing is stored at the end of the pass.
pub open spec fn color_pages(color: IsolationColor, tight_row: u32) -> Option<GuestPageFootprint> {
    match color.backing {
        ColorBacking::Mapping { mapped, import, pages } => if mapped {
            pages
        } else {
            None
        },
        ColorBacking::Linear { target_gva, row_stride, pages } => if row_stride * color.height != 0
            && target_gva != 0 && row_stride >= tight_row {
            pages
        } else {
            None
        },
    }
}

/// What a colour attachment holds: nothing of the guest's for a pass-local one,
/// its bytes for any other, or the reason they are not known.
pub open spec fn source_bytes(color: IsolationColor, target: Option<TargetIdentity>) -> Result<
    Option<Set<int>>,
    InterlockIsolationRefusal,
> {
    let unavailable = InterlockIsolationRefusal::BackingUnavailable { reference: color.texture_ref };
    if color.memoryless {
        if target matches Some(TargetIdentity::PassLocal { .. }) {
            Ok(None)
        } else {
            Err(unavailable)
        }
    } else if color.owner is None {
        Err(InterlockIsolationRefusal::OwnerUnavailable { reference: color.texture_ref })
    } else {
        match color.tight_row {
            None => Err(unavailable),
            Some(row) => match color_pages(color, row) {
                None => Err(unavailable),
                Some(pages) => if proves_coverage(
                    pages.pages@,
                    pages.page_size,
                    (row * color.height) as u64,
                ) {
                    Ok(Some(page_set(pages.pages@, pages.page_size)))
                } else {
                    Err(unavailable)
                },
            },
        }
    }
}

/// The bytes the colour attachments from `n` on hold, behind those found.
pub open spec fn sources(
    colors: Seq<IsolationColor>,
    targets: Seq<Option<TargetIdentity>>,
    n: int,
    held: Seq<(u32, Set<int>)>,
) -> Result<Seq<(u32, Set<int>)>, InterlockIsolationRefusal>
    decreases colors.len() - n,
{
    if n < 0 || n >= colors.len() {
        Ok(held)
    } else {
        match source_bytes(colors[n], targets[n]) {
            Err(refusal) => Err(refusal),
            Ok(None) => sources(colors, targets, n + 1, held),
            Ok(Some(bytes)) => sources(
                colors,
                targets,
                n + 1,
                held.push((colors[n].texture_ref, bytes)),
            ),
        }
    }
}

/// Two sets of bytes meet.
pub open spec fn meet(a: Set<int>, b: Set<int>) -> bool {
    exists|x: int| #[trigger] a.contains(x) && b.contains(x)
}

/// The first holder from `n` on whose bytes meet a destination's.
pub open spec fn first_alias(held: Seq<(u32, Set<int>)>, n: int, bytes: Set<int>) -> Option<u32>
    decreases held.len() - n,
{
    if n < 0 || n >= held.len() {
        None
    } else if meet(held[n].1, bytes) {
        Some(held[n].0)
    } else {
        first_alias(held, n + 1, bytes)
    }
}

/// What a storage texture holds, or the reason that is not known.
pub open spec fn destination_bytes(texture: StorageTexture) -> Result<
    Set<int>,
    InterlockIsolationRefusal,
> {
    let reference = texture.reference;
    let unavailable = InterlockIsolationRefusal::BackingUnavailable { reference };
    if texture.staged.resident_serve {
        Err(InterlockIsolationRefusal::ResidentSeedUnavailable { reference })
    } else if texture.staged.owner is None {
        Err(InterlockIsolationRefusal::OwnerUnavailable { reference })
    } else {
        match (texture.staged.writeback, texture.staged.tight_row) {
            (Some(pages), Some(row)) => if proves_coverage(
                pages.pages@,
                pages.page_size,
                (row * texture.staged.height) as u64,
            ) {
                Ok(page_set(pages.pages@, pages.page_size))
            } else {
                Err(unavailable)
            },
            _ => Err(unavailable),
        }
    }
}

/// The bytes the storage textures from `n` on hold, behind everything held so
/// far, each apart from all before it.
pub open spec fn destinations(
    textures: Seq<StorageTexture>,
    n: int,
    held: Seq<(u32, Set<int>)>,
) -> Result<Seq<(u32, Set<int>)>, InterlockIsolationRefusal>
    decreases textures.len() - n,
{
    if n < 0 || n >= textures.len() {
        Ok(held)
    } else {
        match destination_bytes(textures[n]) {
            Err(refusal) => Err(refusal),
            Ok(bytes) => match first_alias(held, 0, bytes) {
                Some(source) => Err(
                    InterlockIsolationRefusal::GuestAlias {
                        source,
                        destination: textures[n].reference,
                    },
                ),
                None => destinations(textures, n + 1, held.push((textures[n].reference, bytes))),
            },
        }
    }
}

/// The first reason a draw is not isolated.
pub open spec fn isolation_refusal(
    scope_open: bool,
    textures: Seq<StorageTexture>,
    colors: Seq<IsolationColor>,
    native: NativeRequest,
) -> Option<InterlockIsolationRefusal> {
    if !scope_open {
        Some(InterlockIsolationRefusal::ScopeExpired)
    } else if request_targets(native).len() != colors.len() || native.storage_textures@.len()
        != textures.len() {
        Some(InterlockIsolationRefusal::BindingChanged)
    } else {
        match sources(colors, request_targets(native), 0, Seq::empty()) {
            Err(refusal) => Some(refusal),
            Ok(held) => match destinations(textures, 0, held) {
                Err(refusal) => Some(refusal),
                Ok(_) => if textures.len() == 0 {
                    Some(InterlockIsolationRefusal::BackingUnavailable { reference: 0 })
                } else {
                    None
                },
            },
        }
    }
}

fn copy_footprint(footprint: &GuestPageFootprint) -> (copy: GuestPageFootprint)
    ensures
        copy.pages@ == footprint.pages@,
        copy.page_size == footprint.page_size,
{
    let mut pages: Vec<u64> = Vec::with_capacity(footprint.pages.len());
    let mut n: usize = 0;
    while n < footprint.pages.len()
        invariant
            0 <= n <= footprint.pages@.len(),
            pages@ == footprint.pages@.take(n as int),
        decreases footprint.pages@.len() - n,
    {
        pages.push(footprint.pages[n]);
        n += 1;
        assert(pages@ =~= footprint.pages@.take(n as int));
    }
    assert(pages@ =~= footprint.pages@);
    GuestPageFootprint { pages, page_size: footprint.page_size }
}

/// The spans of a list stand for the byte sets of its model.
spec fn stands_for(held: Seq<(u32, Vec<(u64, u64)>)>, model: Seq<(u32, Set<int>)>) -> bool {
    &&& held.len() == model.len()
    &&& forall|k: int|
        0 <= k < held.len() ==> {
            &&& (#[trigger] held[k]).0 == model[k].0
            &&& canonical(held[k].1@)
            &&& covered(held[k].1@) == model[k].1
        }
}

fn find_alias(
    held: &Vec<(u32, Vec<(u64, u64)>)>,
    spans: &Vec<(u64, u64)>,
    Ghost(model): Ghost<Seq<(u32, Set<int>)>>,
) -> (alias: Option<u32>)
    requires
        stands_for(held@, model),
        canonical(spans@),
    ensures
        alias == first_alias(model, 0, covered(spans@)),
{
    let mut n: usize = 0;
    while n < held.len()
        invariant
            0 <= n <= held@.len(),
            stands_for(held@, model),
            canonical(spans@),
            first_alias(model, 0, covered(spans@)) == first_alias(
                model,
                n as int,
                covered(spans@),
            ),
        decreases held@.len() - n,
    {
        let overlap: Option<u64> = overlap_bytes(held[n].1.as_slice(), spans.as_slice());
        proof {
            let prior = held@[n as int].1@;
            assert(covered(prior) == model[n as int].1);
            law_zero_overlap_means_disjoint(prior, spans@);
            assert((walked(prior, spans@, 0, 0) == 0) == !meet(covered(prior), covered(spans@)));
        }
        let disjoint: bool = match overlap {
            Some(bytes) => bytes == 0,
            None => false,
        };
        if !disjoint {
            return Some(held[n].0);
        }
        n += 1;
    }
    None
}

/// What a grant keeps alive.
pub ghost struct LeaseModel {
    pub owners: Seq<u64>,
    pub imports: Seq<u64>,
    pub footprints: Seq<(Seq<u64>, u64)>,
}

/// The leases with those of one colour attachment added: the import a mapping
/// retains, the owner and the pages. A pass-local attachment adds none.
pub open spec fn with_source_leases(color: IsolationColor, before: LeaseModel) -> LeaseModel {
    if color.memoryless {
        before
    } else {
        let pages = color_pages(color, color.tight_row->0)->0;
        LeaseModel {
            owners: before.owners.push(color.owner->0),
            imports: match color.backing {
                ColorBacking::Mapping { mapped, import, pages } => match import {
                    Some(import) => before.imports.push(import),
                    None => before.imports,
                },
                _ => before.imports,
            },
            footprints: before.footprints.push((pages.pages@, pages.page_size)),
        }
    }
}

/// The leases of the colour attachments from `n` on, behind those before.
pub open spec fn source_leases(colors: Seq<IsolationColor>, n: int, before: LeaseModel) -> LeaseModel
    decreases colors.len() - n,
{
    if n < 0 || n >= colors.len() {
        before
    } else {
        source_leases(colors, n + 1, with_source_leases(colors[n], before))
    }
}

/// The leases with those of one storage texture added.
pub open spec fn with_destination_leases(texture: StorageTexture, before: LeaseModel) -> LeaseModel {
    let pages = texture.staged.writeback->0;
    LeaseModel {
        owners: before.owners.push(texture.staged.owner->0),
        imports: before.imports,
        footprints: before.footprints.push((pages.pages@, pages.page_size)),
    }
}

/// The leases of the storage textures from `n` on, behind those before.
pub open spec fn destination_leases(
    textures: Seq<StorageTexture>,
    n: int,
    before: LeaseModel,
) -> LeaseModel
    decreases textures.len() - n,
{
    if n < 0 || n >= textures.len() {
        before
    } else {
        destination_leases(textures, n + 1, with_destination_leases(textures[n], before))
    }
}

/// Everything a grant for the colour attachments and storage textures keeps
/// alive.
pub open spec fn all_leases(colors: Seq<IsolationColor>, textures: Seq<StorageTexture>) -> LeaseModel {
    let none = LeaseModel {
        owners: Seq::empty(),
        imports: Seq::empty(),
        footprints: Seq::empty(),
    };
    destination_leases(textures, 0, source_leases(colors, 0, none))
}

spec fn footprint_models(footprints: Seq<GuestPageFootprint>) -> Seq<(Seq<u64>, u64)> {
    Seq::new(footprints.len(), |k: int| (footprints[k].pages@, footprints[k].page_size))
}

impl Leases {
    spec fn model(self) -> LeaseModel {
        LeaseModel {
            owners: self.owners@,
            imports: self.imports@,
            footprints: footprint_models(self.footprints@),
        }
    }
}

/// The leases a grant retains.
struct Leases {
    owners: Vec<u64>,
    imports: Vec<u64>,
    footprints: Vec<GuestPageFootprint>,
}

fn take_source(
    color: &IsolationColor,
    target: Option<TargetIdentity>,
    leases: &mut Leases,
) -> (r: Result<Option<Vec<(u64, u64)>>, InterlockIsolationRefusal>)
    ensures
        match source_bytes(*color, target) {
            Err(refusal) => r matches Err(e) && e == refusal,
            Ok(None) => r matches Ok(spans) && spans is None && final(leases).model()
                == with_source_leases(*color, old(leases).model()),
            Ok(Some(bytes)) => r matches Ok(Some(spans)) && canonical(spans@) && covered(spans@)
                == bytes && final(leases).model() == with_source_leases(
                *color,
                old(leases).model(),
            ),
        },
{
    let unavailable: InterlockIsolationRefusal = InterlockIsolationRefusal::BackingUnavailable {
        reference: color.texture_ref,
    };
    if color.memoryless {
        let pass_local: bool = match target {
            Some(identity) => match identity {
                TargetIdentity::PassLocal { .. } => true,
                _ => false,
            },
            None => false,
        };
        if !pass_local {
            return Err(unavailable);
        }
        return Ok(None);
    }
    let owner: u64 = match color.owner {
        Some(owner) => owner,
        None => {
            return Err(
                InterlockIsolationRefusal::OwnerUnavailable { reference: color.texture_ref },
            );
        },
    };
    let row: u32 = match color.tight_row {
        Some(row) => row,
        None => {
            return Err(unavailable);
        },
    };
    let height: u32 = color.height;
    assert(row * height <= u64::MAX) by (nonlinear_arith)
        requires
            row <= u32::MAX,
            height <= u32::MAX,
    ;
    let minimum: u64 = row as u64 * height as u64;
    let pages: &Option<GuestPageFootprint> = match &color.backing {
        ColorBacking::Mapping { mapped, import, pages } => {
            if !*mapped {
                return Err(unavailable);
            }
            if let Some(import) = import {
                leases.imports.push(*import);
            }
            pages
        },
        ColorBacking::Linear { target_gva, row_stride, pages } => {
            let stride: u32 = *row_stride;
            assert(stride * height <= u64::MAX) by (nonlinear_arith)
                requires
                    stride <= u32::MAX,
                    height <= u32::MAX,
            ;
            let span: u64 = stride as u64 * height as u64;
            if span == 0 || *target_gva == 0 || stride < row {
                return Err(unavailable);
            }
            pages
        },
    };
    match pages {
        None => Err(unavailable),
        Some(footprint) => {
            match covered_spans(footprint, minimum) {
                None => Err(unavailable),
                Some(spans) => {
                    leases.owners.push(owner);
                    leases.footprints.push(copy_footprint(footprint));
                    assert(leases.model().footprints =~= old(leases).model().footprints.push(
                        (footprint.pages@, footprint.page_size),
                    ));
                    Ok(Some(spans))
                },
            }
        },
    }
}

fn take_destination(texture: &StorageTexture, leases: &mut Leases) -> (r: Result<
    Vec<(u64, u64)>,
    InterlockIsolationRefusal,
>)
    ensures
        match destination_bytes(*texture) {
            Err(refusal) => r matches Err(e) && e == refusal,
            Ok(bytes) => r matches Ok(spans) && canonical(spans@) && covered(spans@) == bytes
                && final(leases).model() == with_destination_leases(
                *texture,
                old(leases).model(),
            ),
        },
{
    let reference: u32 = texture.reference;
    let unavailable: InterlockIsolationRefusal = InterlockIsolationRefusal::BackingUnavailable {
        reference,
    };
    if texture.staged.resident_serve {
        return Err(InterlockIsolationRefusal::ResidentSeedUnavailable { reference });
    }
    match texture.staged.owner {
        None => {
            return Err(InterlockIsolationRefusal::OwnerUnavailable { reference });
        },
        Some(owner) => {
            leases.owners.push(owner);
        },
    }
    let footprint: &GuestPageFootprint = match &texture.staged.writeback {
        None => {
            return Err(unavailable);
        },
        Some(footprint) => footprint,
    };
    let row: u32 = match texture.staged.tight_row {
        None => {
            return Err(unavailable);
        },
        Some(row) => row,
    };
    let height: u32 = texture.staged.height;
    assert(row * height <= u64::MAX) by (nonlinear_arith)
        requires
            row <= u32::MAX,
            height <= u32::MAX,
    ;
    match covered_spans(footprint, row as u64 * height as u64) {
        None => Err(unavailable),
        Some(spans) => {
            leases.footprints.push(copy_footprint(footprint));
            assert(leases.model().footprints =~= old(leases).model().footprints.push(
                (footprint.pages@, footprint.page_size),
            ));
            Ok(spans)
        },
    }
}

impl InterlockIsolation {
    /// The grant is for this request.
    pub closed spec fn is_for(self, request: NativeRequest) -> bool {
        &&& self.fragment == request.fragment
        &&& self.targets@ == request_targets(request)
        &&& self.dimensions == (request.width, request.height)
        &&& self.storage@.map_values(|s: StorageSignature| s@) == request_signature(request)
    }

    /// The scope the grant lives in.
    pub closed spec fn within_scope(self) -> SnapshotScopeRef {
        self.scope
    }

    /// What the grant answers a request: it covers the request it is for, while
    /// its scope is open.
    pub open spec fn answer(self, scopes: ScopeRegistry, request: NativeRequest) -> Result<
        (),
        InterlockIsolationRefusal,
    > {
        if scopes.current_of(self.within_scope()) is None {
            Err(InterlockIsolationRefusal::ScopeExpired)
        } else if !self.is_for(request) {
            Err(InterlockIsolationRefusal::BindingChanged)
        } else {
            Ok(())
        }
    }

    /// What the grant keeps alive.
    pub closed spec fn leases(self) -> LeaseModel {
        LeaseModel {
            owners: self.owners@,
            imports: self.imports@,
            footprints: footprint_models(self.footprints@),
        }
    }

    /// The owners the grant keeps alive.
    pub fn owners(&self) -> (owners: &Vec<u64>)
        ensures
            owners@ == self.leases().owners,
    {
        &self.owners
    }

    /// Whether the grant still covers a request.
    pub fn matches(&self, scopes: &ScopeRegistry, request: &NativeRequest) -> (r: Result<
        (),
        InterlockIsolationRefusal,
    >)
        ensures
            r == self.answer(*scopes, *request),
    {
        if self.scope.current(scopes).is_none() {
            return Err(InterlockIsolationRefusal::ScopeExpired);
        }
        if self.fragment != request.fragment || !same_targets(&self.targets, &targets(request))
            || self.dimensions.0 != request.width || self.dimensions.1 != request.height
            || !same_signatures(&self.storage, &storage_signature(request)) {
            return Err(InterlockIsolationRefusal::BindingChanged);
        }
        Ok(())
    }
}

impl StorageTextures {
    /// Proves a draw's storage textures apart from each other and from every
    /// colour attachment, or says what stands in the way.
    pub fn isolate_interlock(
        &self,
        scopes: &ScopeRegistry,
        scope: Option<SnapshotScopeRef>,
        colors: &Vec<IsolationColor>,
        native: &NativeRequest,
    ) -> (r: Result<InterlockIsolation, InterlockIsolationRefusal>)
        ensures
            ({
                let scope_open = scope matches Some(s) && scopes.current_of(s) is Some;
                match isolation_refusal(scope_open, self.textures@, colors@, *native) {
                    Some(refusal) => r matches Err(e) && e == refusal,
                    None => r matches Ok(grant) && grant.is_for(*native) && Some(
                        grant.within_scope(),
                    ) == scope && grant.leases() == all_leases(colors@, self.textures@),
                }
            }),
    {
        let live: SnapshotScopeRef = match scope {
            None => {
                return Err(InterlockIsolationRefusal::ScopeExpired);
            },
            Some(live) => live,
        };
        if live.current(scopes).is_none() {
            return Err(InterlockIsolationRefusal::ScopeExpired);
        }
        let native_targets: Vec<Option<TargetIdentity>> = targets(native);
        if native_targets.len() != colors.len() || native.storage_textures.len()
            != self.textures.len() {
            return Err(InterlockIsolationRefusal::BindingChanged);
        }
        let mut leases: Leases = Leases {
            owners: Vec::new(),
            imports: Vec::new(),
            footprints: Vec::new(),
        };
        let ghost none = leases.model();
        assert(none.footprints =~= Seq::<(Seq<u64>, u64)>::empty());
        let mut held: Vec<(u32, Vec<(u64, u64)>)> = Vec::new();
        let ghost mut model: Seq<(u32, Set<int>)> = Seq::empty();
        let mut n: usize = 0;
        while n < colors.len()
            invariant
                0 <= n <= colors@.len(),
                scope == Some(live),
                scopes.current_of(live) is Some,
                native_targets@ == request_targets(*native),
                native_targets@.len() == colors@.len(),
                native.storage_textures@.len() == self.textures@.len(),
                stands_for(held@, model),
                source_leases(colors@, 0, none) == source_leases(
                    colors@,
                    n as int,
                    leases.model(),
                ),
                sources(colors@, native_targets@, 0, Seq::empty()) == sources(
                    colors@,
                    native_targets@,
                    n as int,
                    model,
                ),
            decreases colors@.len() - n,
        {
            match take_source(&colors[n], native_targets[n], &mut leases) {
                Err(refusal) => {
                    return Err(refusal);
                },
                Ok(None) => {},
                Ok(Some(spans)) => {
                    proof {
                        model = model.push((colors@[n as int].texture_ref, covered(spans@)));
                    }
                    held.push((colors[n].texture_ref, spans));
                },
            }
            n += 1;
        }
        let ghost first = model;
        let ghost source_model = leases.model();
        let mut k: usize = 0;
        while k < self.textures.len()
            invariant
                0 <= k <= self.textures@.len(),
                scope == Some(live),
                scopes.current_of(live) is Some,
                native_targets@ == request_targets(*native),
                native_targets@.len() == colors@.len(),
                native.storage_textures@.len() == self.textures@.len(),
                stands_for(held@, model),
                source_leases(colors@, 0, none) == source_model,
                destination_leases(self.textures@, 0, source_model) == destination_leases(
                    self.textures@,
                    k as int,
                    leases.model(),
                ),
                sources(colors@, native_targets@, 0, Seq::empty()) == Ok::<
                    Seq<(u32, Set<int>)>,
                    InterlockIsolationRefusal,
                >(first),
                destinations(self.textures@, 0, first) == destinations(
                    self.textures@,
                    k as int,
                    model,
                ),
            decreases self.textures@.len() - k,
        {
            let reference: u32 = self.textures[k].reference;
            let spans: Vec<(u64, u64)> = match take_destination(&self.textures[k], &mut leases) {
                Err(refusal) => {
                    return Err(refusal);
                },
                Ok(spans) => spans,
            };
            if let Some(source) = find_alias(&held, &spans, Ghost(model)) {
                return Err(
                    InterlockIsolationRefusal::GuestAlias { source, destination: reference },
                );
            }
            proof {
                model = model.push((reference, covered(spans@)));
            }
            held.push((reference, spans));
            k += 1;
        }
        if self.textures.len() == 0 {
            return Err(InterlockIsolationRefusal::BackingUnavailable { reference: 0 });
        }
        Ok(
            InterlockIsolation {
                scope: live,
                fragment: native.fragment,
                targets: native_targets,
                dimensions: (native.width, native.height),
                storage: storage_signature(native),
                owners: leases.owners,
                imports: leases.imports,
                footprints: leases.footprints,
            },
        )
    }
}

proof fn lemma_first_alias(held: Seq<(u32, Set<int>)>, n: int, bytes: Set<int>)
    requires
        n >= 0,
        first_alias(held, n, bytes) is None,
    ensures
        forall|k: int| n <= k < held.len() ==> !meet((#[trigger] held[k]).1, bytes),
    decreases held.len() - n,
{
    if n < held.len() {
        lemma_first_alias(held, n + 1, bytes);
    }
}

proof fn lemma_destinations_apart(
    textures: Seq<StorageTexture>,
    n: int,
    held: Seq<(u32, Set<int>)>,
    fixed: int,
)
    requires
        0 <= n <= textures.len(),
        0 <= fixed,
        held.len() == fixed + n,
        forall|i: int, j: int|
            0 <= i < j < held.len() && fixed <= j ==> !meet(
                (#[trigger] held[i]).1,
                (#[trigger] held[j]).1,
            ),
    ensures
        destinations(textures, n, held) matches Ok(all) ==> {
            &&& all.len() == fixed + textures.len()
            &&& all.take(held.len() as int) == held
            &&& forall|i: int, j: int|
                0 <= i < j < all.len() && fixed <= j ==> !meet(
                    (#[trigger] all[i]).1,
                    (#[trigger] all[j]).1,
                )
            &&& forall|j: int|
                n <= j < textures.len() ==> (#[trigger] destination_bytes(textures[j])) == Ok::<
                    Set<int>,
                    InterlockIsolationRefusal,
                >(all[fixed + j].1)
        },
    decreases textures.len() - n,
{
    if n < textures.len() {
        if let Ok(bytes) = destination_bytes(textures[n]) {
            if first_alias(held, 0, bytes) is None {
                lemma_first_alias(held, 0, bytes);
                let next = held.push((textures[n].reference, bytes));
                lemma_destinations_apart(textures, n + 1, next, fixed);
                if let Ok(all) = destinations(textures, n, held) {
                    assert(all.take(held.len() as int) =~= all.take(next.len() as int).take(
                        held.len() as int,
                    ));
                    assert(next.take(held.len() as int) =~= held);
                    assert(all[fixed + n] == all.take(next.len() as int)[fixed + n]);
                }
            }
        }
    } else {
        assert(held.take(held.len() as int) =~= held);
    }
}

proof fn lemma_sources_listed(
    colors: Seq<IsolationColor>,
    targets: Seq<Option<TargetIdentity>>,
    n: int,
    held: Seq<(u32, Set<int>)>,
)
    requires
        n >= 0,
    ensures
        sources(colors, targets, n, held) matches Ok(all) ==> {
            &&& held.len() <= all.len()
            &&& all.take(held.len() as int) == held
            &&& forall|j: int, bytes: Set<int>|
                n <= j < colors.len() && (#[trigger] source_bytes(colors[j], targets[j])) == Ok::<
                    Option<Set<int>>,
                    InterlockIsolationRefusal,
                >(Some(bytes)) ==> all.contains((colors[j].texture_ref, #[trigger] id_set(bytes)))
        },
    decreases colors.len() - n,
{
    if n < colors.len() {
        match source_bytes(colors[n], targets[n]) {
            Err(_) => {},
            Ok(None) => {
                lemma_sources_listed(colors, targets, n + 1, held);
            },
            Ok(Some(bytes)) => {
                let next = held.push((colors[n].texture_ref, bytes));
                lemma_sources_listed(colors, targets, n + 1, next);
                if let Ok(all) = sources(colors, targets, n, held) {
                    assert(all.take(held.len() as int) =~= all.take(next.len() as int).take(
                        held.len() as int,
                    ));
                    assert(next.take(held.len() as int) =~= held);
                    assert(all[held.len() as int] == all.take(next.len() as int)[held.len() as int]);
                    assert(all.contains((colors[n].texture_ref, bytes)));
                }
            },
        }
    } else {
        assert(held.take(held.len() as int) =~= held);
    }
}

/// The set itself.
pub open spec fn id_set(bytes: Set<int>) -> Set<int> {
    bytes
}

/// A granted draw shares no guest byte between any storage texture and any
/// colour attachment, nor between two storage textures.
pub proof fn law_isolated_backings_are_disjoint(
    textures: Seq<StorageTexture>,
    colors: Seq<IsolationColor>,
    native: NativeRequest,
)
    requires
        isolation_refusal(true, textures, colors, native) is None,
    ensures
        forall|j: int|
            0 <= j < textures.len() ==> (#[trigger] destination_bytes(textures[j])) is Ok,
        forall|i: int, j: int|
            0 <= i < j < textures.len() ==> !meet(
                (#[trigger] destination_bytes(textures[i]))->Ok_0,
                (#[trigger] destination_bytes(textures[j]))->Ok_0,
            ),
        forall|i: int, j: int, bytes: Set<int>|
            0 <= i < colors.len() && 0 <= j < textures.len() && #[trigger] source_bytes(
                colors[i],
                request_targets(native)[i],
            ) == Ok::<Option<Set<int>>, InterlockIsolationRefusal>(Some(bytes)) ==> !#[trigger] meet(
                bytes,
                destination_bytes(textures[j])->Ok_0,
            ),
{
    let targets = request_targets(native);
    lemma_sources_listed(colors, targets, 0, Seq::empty());
    let held = sources(colors, targets, 0, Seq::empty())->Ok_0;
    let fixed = held.len() as int;
    lemma_destinations_apart_from(textures, held);
    let all = destinations(textures, 0, held)->Ok_0;
    assert forall|i: int, j: int| 0 <= i < j < textures.len() implies !meet(
        (#[trigger] destination_bytes(textures[i]))->Ok_0,
        (#[trigger] destination_bytes(textures[j]))->Ok_0,
    ) by {
        assert(!meet(all[fixed + i].1, all[fixed + j].1));
    }
    assert forall|i: int, j: int, bytes: Set<int>|
        0 <= i < colors.len() && 0 <= j < textures.len() && #[trigger] source_bytes(
            colors[i],
            request_targets(native)[i],
        ) == Ok::<Option<Set<int>>, InterlockIsolationRefusal>(Some(bytes)) implies !#[trigger] meet(
        bytes,
        destination_bytes(textures[j])->Ok_0,
    ) by {
        assert(held.contains((colors[i].texture_ref, id_set(bytes))));
        let m = choose|m: int| 0 <= m < held.len() && held[m] == (colors[i].texture_ref, bytes);
        assert(all.take(fixed)[m] == all[m]);
        assert(destination_bytes(textures[j]) == Ok::<Set<int>, InterlockIsolationRefusal>(
            all[fixed + j].1,
        ));
        assert(!meet(all[m].1, all[fixed + j].1));
    }
}

proof fn lemma_destinations_apart_from(textures: Seq<StorageTexture>, held: Seq<(u32, Set<int>)>)
    ensures
        destinations(textures, 0, held) matches Ok(all) ==> {
            &&& all.len() == held.len() + textures.len()
            &&& all.take(held.len() as int) == held
            &&& forall|i: int, j: int|
                0 <= i < j < all.len() && held.len() <= j ==> !meet(
                    (#[trigger] all[i]).1,
                    (#[trigger] all[j]).1,
                )
            &&& forall|j: int|
                0 <= j < textures.len() ==> (#[trigger] destination_bytes(textures[j])) == Ok::<
                    Set<int>,
                    InterlockIsolationRefusal,
                >(all[held.len() + j].1)
        },
{
    lemma_destinations_apart(textures, 0, held, held.len() as int);
}

/// Two requests bind alike: the same fragment module, targets, dimensions and
/// storage textures.
pub open spec fn binds_alike(a: NativeRequest, b: NativeRequest) -> bool {
    &&& a.fragment == b.fragment
    &&& request_targets(a) == request_targets(b)
    &&& a.width == b.width
    &&& a.height == b.height
    &&& request_signature(a) == request_signature(b)
}

/// A grant is for one request: it covers another one only if the two bind alike,
/// and a request that changed is refused while the scope is open.
pub proof fn law_a_grant_is_for_one_request(
    grant: InterlockIsolation,
    scopes: ScopeRegistry,
    granted: NativeRequest,
    request: NativeRequest,
)
    requires
        grant.is_for(granted),
        scopes.current_of(grant.within_scope()) is Some,
    ensures
        grant.is_for(request) == binds_alike(granted, request),
        grant.answer(scopes, request) == if binds_alike(granted, request) {
            Ok::<(), InterlockIsolationRefusal>(())
        } else {
            Err::<(), InterlockIsolationRefusal>(InterlockIsolationRefusal::BindingChanged)
        },
{
}

/// A grant covers the request it was made for as long as its scope is open, and
/// no request at any time after the scope was closed.
pub proof fn law_a_grant_lives_in_its_scope(
    grant: InterlockIsolation,
    granted: NativeRequest,
    request: NativeRequest,
    scopes: ScopeRegistry,
    later: ScopeRegistry,
)
    requires
        grant.is_for(granted),
        scopes.precedes(later),
        grant.within_scope().named() < scopes.fresh(),
    ensures
        scopes.current_of(grant.within_scope()) is Some ==> grant.answer(scopes, granted) == Ok::<
            (),
            InterlockIsolationRefusal,
        >(()),
        scopes.current_of(grant.within_scope()) is None ==> grant.answer(later, request) == Err::<
            (),
            InterlockIsolationRefusal,
        >(InterlockIsolationRefusal::ScopeExpired),
{
    if scopes.current_of(grant.within_scope()) is None {
        crate::scope::law_expired_references_stay_expired(scopes, later, grant.within_scope());
    }
}

/// A granted draw keeps every page of a guest-backed attachment apart from every
/// page of a storage texture, whatever the attachment is backed by: not one byte
/// of the two is the same. Only a pass-local attachment has no pages at all.
pub proof fn law_a_grant_keeps_attachment_pages_apart(
    textures: Seq<StorageTexture>,
    colors: Seq<IsolationColor>,
    native: NativeRequest,
    i: int,
    j: int,
    a: int,
    b: int,
)
    requires
        isolation_refusal(true, textures, colors, native) is None,
        0 <= i < colors.len(),
        0 <= j < textures.len(),
        !colors[i].memoryless,
    ensures
        colors[i].owner is Some,
        textures[j].staged.owner is Some,
        !textures[j].staged.resident_serve,
        textures[j].staged.writeback is Some,
        match colors[i].backing {
            ColorBacking::Mapping { mapped, import, pages } => {
                &&& mapped
                &&& pages matches Some(source) && {
                    let written = textures[j].staged.writeback->0;
                    0 <= a < source.pages@.len() && 0 <= b < written.pages@.len() ==> source.pages@[a]
                        + source.page_size <= written.pages@[b] || written.pages@[b]
                        + written.page_size <= source.pages@[a]
                }
            },
            ColorBacking::Linear { target_gva, row_stride, pages } => {
                &&& target_gva != 0
                &&& colors[i].tight_row matches Some(row) && row_stride >= row
                &&& pages matches Some(source) && {
                    let written = textures[j].staged.writeback->0;
                    0 <= a < source.pages@.len() && 0 <= b < written.pages@.len() ==> source.pages@[a]
                        + source.page_size <= written.pages@[b] || written.pages@[b]
                        + written.page_size <= source.pages@[a]
                }
            },
        },
{
    law_isolated_backings_are_disjoint(textures, colors, native);
    let targets = request_targets(native);
    lemma_sources_known(colors, targets, 0, Seq::empty(), i);
    assert(destination_bytes(textures[j]) is Ok);
    let written = textures[j].staged.writeback->0;
    let source = color_pages(colors[i], colors[i].tight_row->0)->0;
    let held = page_set(source.pages@, source.page_size);
    assert(source_bytes(colors[i], targets[i]) == Ok::<
        Option<Set<int>>,
        InterlockIsolationRefusal,
    >(Some(held)));
    assert(!meet(held, destination_bytes(textures[j])->Ok_0));
    lemma_covering_pages_have_size(source, (colors[i].tight_row->0 * colors[i].height) as u64);
    lemma_covering_pages_have_size(
        written,
        (textures[j].staged.tight_row->0 * textures[j].staged.height) as u64,
    );
    if 0 <= a < source.pages@.len() && 0 <= b < written.pages@.len() {
        lemma_pages_apart(source, written, a, b);
    }
}

/// Two storage textures of a granted draw are written to pages that have no byte
/// in common.
pub proof fn law_a_grant_keeps_storage_pages_apart(
    textures: Seq<StorageTexture>,
    colors: Seq<IsolationColor>,
    native: NativeRequest,
    i: int,
    j: int,
    a: int,
    b: int,
)
    requires
        isolation_refusal(true, textures, colors, native) is None,
        0 <= i < j < textures.len(),
    ensures
        textures[i].staged.writeback matches Some(one) && textures[j].staged.writeback matches Some(
            other,
        ) && (0 <= a < one.pages@.len() && 0 <= b < other.pages@.len() ==> one.pages@[a]
            + one.page_size <= other.pages@[b] || other.pages@[b] + other.page_size
            <= one.pages@[a]),
{
    law_isolated_backings_are_disjoint(textures, colors, native);
    assert(destination_bytes(textures[i]) is Ok && destination_bytes(textures[j]) is Ok);
    assert(!meet(destination_bytes(textures[i])->Ok_0, destination_bytes(textures[j])->Ok_0));
    let one = textures[i].staged.writeback->0;
    let other = textures[j].staged.writeback->0;
    lemma_covering_pages_have_size(
        one,
        (textures[i].staged.tight_row->0 * textures[i].staged.height) as u64,
    );
    lemma_covering_pages_have_size(
        other,
        (textures[j].staged.tight_row->0 * textures[j].staged.height) as u64,
    );
    if 0 <= a < one.pages@.len() && 0 <= b < other.pages@.len() {
        lemma_pages_apart(one, other, a, b);
    }
}

/// A granted draw has a target for every attachment and a native texture for every
/// storage texture, of which there is at least one; a pass-local attachment is
/// rendered to an image that lives only for the pass.
pub proof fn law_a_grant_fits_its_request(
    textures: Seq<StorageTexture>,
    colors: Seq<IsolationColor>,
    native: NativeRequest,
    i: int,
)
    requires
        isolation_refusal(true, textures, colors, native) is None,
        0 <= i < colors.len(),
    ensures
        textures.len() > 0,
        native.storage_textures@.len() == textures.len(),
        colors.len() == native.secondary_targets@.len() + 1,
        colors[i].memoryless && i == 0 ==> native.target_identity matches Some(
            TargetIdentity::PassLocal { .. },
        ),
        colors[i].memoryless && i > 0 ==> native.secondary_targets@[i - 1] is PassLocal,
{
    let targets = request_targets(native);
    lemma_sources_known(colors, targets, 0, Seq::empty(), i);
    assert(source_bytes(colors[i], targets[i]) is Ok);
    if i > 0 {
        assert(targets[i] == Some(native.secondary_targets@[i - 1]));
    } else {
        assert(targets[0] == native.target_identity);
    }
}

/// A draw in a closed scope is never granted, and one without storage textures has
/// nothing to isolate.
pub proof fn law_no_grant_without_scope_or_textures(
    textures: Seq<StorageTexture>,
    colors: Seq<IsolationColor>,
    native: NativeRequest,
    scope_open: bool,
)
    ensures
        !scope_open ==> isolation_refusal(scope_open, textures, colors, native) == Some(
            InterlockIsolationRefusal::ScopeExpired,
        ),
        textures.len() == 0 ==> isolation_refusal(scope_open, textures, colors, native) is Some,
        scope_open && (colors.len() != native.secondary_targets@.len() + 1
            || native.storage_textures@.len() != textures.len()) ==> isolation_refusal(
            scope_open,
            textures,
            colors,
            native,
        ) == Some(InterlockIsolationRefusal::BindingChanged),
{
}

/// Two page lists have a byte in common.
pub open spec fn pages_touch(a: GuestPageFootprint, b: GuestPageFootprint) -> bool {
    exists|i: int, j: int|
        0 <= i < a.pages@.len() && 0 <= j < b.pages@.len() && #[trigger] a.pages@[i]
            < #[trigger] b.pages@[j] + b.page_size && b.pages@[j] < a.pages@[i] + a.page_size
}

/// The recorded pages of an attachment, whatever backs it.
pub open spec fn backing_pages(backing: ColorBacking) -> Option<GuestPageFootprint> {
    match backing {
        ColorBacking::Mapping { mapped, import, pages } => pages,
        ColorBacking::Linear { target_gva, row_stride, pages } => pages,
    }
}

/// An alias that refuses a draw is real: a storage texture of the named
/// destination has a byte in common with a guest-backed attachment, or with a
/// storage texture before it, of the named source.
pub proof fn law_a_refused_alias_is_real(
    textures: Seq<StorageTexture>,
    colors: Seq<IsolationColor>,
    native: NativeRequest,
    source: u32,
    destination: u32,
)
    requires
        isolation_refusal(true, textures, colors, native) == Some(
            InterlockIsolationRefusal::GuestAlias { source, destination },
        ),
    ensures
        exists|j: int|
            0 <= j < textures.len() && (#[trigger] textures[j]).reference == destination
                && textures[j].staged.writeback is Some && ((exists|i: int|
                0 <= i < colors.len() && (#[trigger] colors[i]).texture_ref == source
                    && !colors[i].memoryless && backing_pages(colors[i].backing) is Some
                    && pages_touch(
                    backing_pages(colors[i].backing)->0,
                    textures[j].staged.writeback->0,
                )) || (exists|i: int|
                0 <= i < j && (#[trigger] textures[i]).reference == source
                    && textures[i].staged.writeback is Some && pages_touch(
                    textures[i].staged.writeback->0,
                    textures[j].staged.writeback->0,
                ))),
{
    let targets = request_targets(native);
    lemma_sources_refusal(colors, targets, 0, Seq::empty());
    let held = sources(colors, targets, 0, Seq::empty())->Ok_0;
    lemma_sources_origin(colors, targets, 0, Seq::empty());
    lemma_alias_origin(textures, 0, held, held.len() as int);
    assert(held.take(held.len() as int) =~= held);
    let (j, m) = choose|j: int, m: int|
        #![trigger textures[j], alias_at(textures, held, j, m)]
        0 <= j < textures.len() && textures[j].reference == destination && alias_at(
            textures,
            held,
            j,
            m,
        ) && source == alias_reference(textures, held, m);
    let written = textures[j].staged.writeback->0;
    if m < held.len() {
        assert(held_by_color(colors, targets, held[m]));
        let i = choose|i: int|
            0 <= i < colors.len() && #[trigger] color_holds(colors, targets, i, held[m]);
        let pages = backing_pages(colors[i].backing)->0;
        assert(color_pages(colors[i], colors[i].tight_row->0) == Some(pages));
        lemma_meeting_pages_touch(pages, written);
        assert(colors[i].texture_ref == source);
    } else {
        let i = m - held.len();
        lemma_meeting_pages_touch(textures[i].staged.writeback->0, written);
        assert(textures[i].reference == source);
    }
}

/// The holder at `m` among the attachments' and the storage textures' bytes.
spec fn alias_reference(
    textures: Seq<StorageTexture>,
    held: Seq<(u32, Set<int>)>,
    m: int,
) -> u32 {
    if m < held.len() {
        held[m].0
    } else {
        textures[m - held.len()].reference
    }
}

/// The bytes of the storage texture at `j` meet those of the holder at `m`.
spec fn alias_at(
    textures: Seq<StorageTexture>,
    held: Seq<(u32, Set<int>)>,
    j: int,
    m: int,
) -> bool {
    &&& destination_bytes(textures[j]) is Ok
    &&& 0 <= m < held.len() + j
    &&& if m < held.len() {
        meet(held[m].1, destination_bytes(textures[j])->Ok_0)
    } else {
        destination_bytes(textures[m - held.len()]) is Ok && meet(
            destination_bytes(textures[m - held.len()])->Ok_0,
            destination_bytes(textures[j])->Ok_0,
        )
    }
}

/// The entry is what the attachment at `i` holds.
spec fn color_holds(
    colors: Seq<IsolationColor>,
    targets: Seq<Option<TargetIdentity>>,
    i: int,
    entry: (u32, Set<int>),
) -> bool {
    source_bytes(colors[i], targets[i]) == Ok::<Option<Set<int>>, InterlockIsolationRefusal>(
        Some(entry.1),
    ) && colors[i].texture_ref == entry.0
}

/// The entry is what one of the attachments holds.
spec fn held_by_color(
    colors: Seq<IsolationColor>,
    targets: Seq<Option<TargetIdentity>>,
    entry: (u32, Set<int>),
) -> bool {
    exists|i: int| 0 <= i < colors.len() && #[trigger] color_holds(colors, targets, i, entry)
}

proof fn lemma_sources_refusal(
    colors: Seq<IsolationColor>,
    targets: Seq<Option<TargetIdentity>>,
    n: int,
    held: Seq<(u32, Set<int>)>,
)
    requires
        n >= 0,
    ensures
        sources(colors, targets, n, held) matches Err(e) ==> !(e is GuestAlias),
    decreases colors.len() - n,
{
    if n < colors.len() {
        match source_bytes(colors[n], targets[n]) {
            Err(_) => {},
            Ok(None) => {
                lemma_sources_refusal(colors, targets, n + 1, held);
            },
            Ok(Some(bytes)) => {
                lemma_sources_refusal(
                    colors,
                    targets,
                    n + 1,
                    held.push((colors[n].texture_ref, bytes)),
                );
            },
        }
    }
}

proof fn lemma_sources_origin(
    colors: Seq<IsolationColor>,
    targets: Seq<Option<TargetIdentity>>,
    n: int,
    held: Seq<(u32, Set<int>)>,
)
    requires
        0 <= n <= colors.len(),
        forall|m: int|
            0 <= m < held.len() ==> held_by_color(colors, targets, #[trigger] held[m]),
    ensures
        sources(colors, targets, n, held) matches Ok(all) ==> forall|m: int|
            0 <= m < all.len() ==> held_by_color(colors, targets, #[trigger] all[m]),
    decreases colors.len() - n,
{
    if n < colors.len() {
        match source_bytes(colors[n], targets[n]) {
            Err(_) => {},
            Ok(None) => {
                lemma_sources_origin(colors, targets, n + 1, held);
            },
            Ok(Some(bytes)) => {
                let next = held.push((colors[n].texture_ref, bytes));
                assert forall|m: int| 0 <= m < next.len() implies held_by_color(
                    colors,
                    targets,
                    #[trigger] next[m],
                ) by {
                    if m < held.len() {
                        assert(next[m] == held[m]);
                    } else {
                        assert(color_holds(colors, targets, n, next[m]));
                    }
                }
                lemma_sources_origin(colors, targets, n + 1, next);
            },
        }
    }
}

proof fn lemma_alias_origin(
    textures: Seq<StorageTexture>,
    n: int,
    held: Seq<(u32, Set<int>)>,
    fixed: int,
)
    requires
        0 <= n <= textures.len(),
        0 <= fixed,
        held.len() == fixed + n,
        forall|k: int|
            0 <= k < n ==> (#[trigger] textures[k]).reference == held[fixed + k].0
                && destination_bytes(textures[k]) == Ok::<Set<int>, InterlockIsolationRefusal>(
                held[fixed + k].1,
            ),
    ensures
        destinations(textures, n, held) matches Err(
            InterlockIsolationRefusal::GuestAlias { source, destination },
        ) ==> exists|j: int, m: int|
            #![trigger textures[j], alias_at(textures, held.take(fixed), j, m)]
            0 <= j < textures.len() && textures[j].reference == destination && alias_at(
                textures,
                held.take(fixed),
                j,
                m,
            ) && source == alias_reference(textures, held.take(fixed), m),
    decreases textures.len() - n,
{
    if n < textures.len() {
        if let Ok(bytes) = destination_bytes(textures[n]) {
            match first_alias(held, 0, bytes) {
                Some(source) => {
                    lemma_first_alias_found(held, 0, bytes);
                    let m = choose|m: int|
                        0 <= m < held.len() && meet((#[trigger] held[m]).1, bytes) && held[m].0
                            == source;
                    let base = held.take(fixed);
                    if m < fixed {
                        assert(base[m] == held[m]);
                    } else {
                        assert(textures[m - fixed].reference == held[fixed + (m - fixed)].0);
                    }
                    assert(alias_at(textures, base, n, m));
                },
                None => {
                    let next = held.push((textures[n].reference, bytes));
                    assert forall|k: int| 0 <= k < n + 1 implies (
                    #[trigger] textures[k]).reference == next[fixed + k].0 && destination_bytes(
                        textures[k],
                    ) == Ok::<Set<int>, InterlockIsolationRefusal>(next[fixed + k].1) by {
                        if k < n {
                            assert(next[fixed + k] == held[fixed + k]);
                        }
                    }
                    lemma_alias_origin(textures, n + 1, next, fixed);
                    assert(next.take(fixed) =~= held.take(fixed));
                },
            }
        }
    }
    if n == 0 {
        assert(held.take(fixed) =~= held);
    }
}

proof fn lemma_first_alias_found(held: Seq<(u32, Set<int>)>, n: int, bytes: Set<int>)
    requires
        n >= 0,
    ensures
        first_alias(held, n, bytes) matches Some(source) ==> exists|m: int|
            0 <= m < held.len() && meet((#[trigger] held[m]).1, bytes) && held[m].0 == source,
    decreases held.len() - n,
{
    if n < held.len() {
        if meet(held[n].1, bytes) {
            assert(meet(held[n].1, bytes) && held[n].0 == held[n].0);
        } else {
            lemma_first_alias_found(held, n + 1, bytes);
        }
    }
}

proof fn lemma_meeting_pages_touch(a: GuestPageFootprint, b: GuestPageFootprint)
    requires
        meet(page_set(a.pages@, a.page_size), page_set(b.pages@, b.page_size)),
    ensures
        pages_touch(a, b),
{
    let left = page_set(a.pages@, a.page_size);
    let right = page_set(b.pages@, b.page_size);
    let x = choose|x: int| #[trigger] left.contains(x) && right.contains(x);
    let i = choose|i: int|
        0 <= i < a.pages@.len() && #[trigger] in_page(a.pages@[i], a.page_size, x);
    let j = choose|j: int|
        0 <= j < b.pages@.len() && #[trigger] in_page(b.pages@[j], b.page_size, x);
    assert(a.pages@[i] < b.pages@[j] + b.page_size && b.pages@[j] < a.pages@[i] + a.page_size);
}

proof fn lemma_sources_known(
    colors: Seq<IsolationColor>,
    targets: Seq<Option<TargetIdentity>>,
    n: int,
    held: Seq<(u32, Set<int>)>,
    i: int,
)
    requires
        0 <= n <= i < colors.len(),
    ensures
        sources(colors, targets, n, held) is Ok ==> source_bytes(colors[i], targets[i]) is Ok,
    decreases colors.len() - n,
{
    if n < i {
        match source_bytes(colors[n], targets[n]) {
            Err(_) => {},
            Ok(None) => {
                lemma_sources_known(colors, targets, n + 1, held, i);
            },
            Ok(Some(bytes)) => {
                lemma_sources_known(
                    colors,
                    targets,
                    n + 1,
                    held.push((colors[n].texture_ref, bytes)),
                    i,
                );
            },
        }
    }
}

proof fn lemma_covering_pages_have_size(footprint: GuestPageFootprint, minimum: u64)
    requires
        proves_coverage(footprint.pages@, footprint.page_size, minimum),
    ensures
        footprint.page_size > 0,
{
    if footprint.page_size == 0 {
        assert(footprint.pages@.len() * footprint.page_size == 0) by (nonlinear_arith)
            requires
                footprint.page_size == 0,
        ;
    }
}

/// The pages of an attachment or a texture hold an image of `rows` rows of `row`
/// bytes: a whole number of different pages of one size, enough for every byte.
pub open spec fn pages_hold_image(pages: GuestPageFootprint, row: u32, rows: u32) -> bool {
    proves_coverage(pages.pages@, pages.page_size, (row * rows) as u64)
}

/// An attachment whose bytes are known: pass-local with a pass-local target, or
/// owned, live and with the pages of its whole image.
pub open spec fn attachment_known(color: IsolationColor, target: Option<TargetIdentity>) -> bool {
    if color.memoryless {
        target matches Some(TargetIdentity::PassLocal { .. })
    } else {
        &&& color.owner is Some
        &&& color.tight_row is Some
        &&& backing_pages(color.backing) matches Some(pages) && pages_hold_image(
            pages,
            color.tight_row->0,
            color.height,
        )
        &&& match color.backing {
            ColorBacking::Mapping { mapped, import, pages } => mapped,
            ColorBacking::Linear { target_gva, row_stride, pages } => target_gva != 0 && row_stride
                >= color.tight_row->0,
        }
    }
}

/// A storage texture whose bytes are known.
pub open spec fn texture_known(texture: StorageTexture) -> bool {
    &&& !texture.staged.resident_serve
    &&& texture.staged.owner is Some
    &&& texture.staged.tight_row is Some
    &&& texture.staged.writeback matches Some(pages) && pages_hold_image(
        pages,
        texture.staged.tight_row->0,
        texture.staged.height,
    )
}

/// A draw is granted exactly when its scope is open, it writes a storage texture,
/// it has the targets and textures of its request, the bytes of all of them are
/// known, and no page of a storage texture touches one of an attachment or of
/// another storage texture.
pub proof fn law_granted_draws_are_the_isolated_ones(
    textures: Seq<StorageTexture>,
    colors: Seq<IsolationColor>,
    native: NativeRequest,
    scope_open: bool,
)
    ensures
        isolation_refusal(scope_open, textures, colors, native) is None <==> {
            &&& scope_open
            &&& textures.len() > 0
            &&& textures.len() == native.storage_textures@.len()
            &&& colors.len() == native.secondary_targets@.len() + 1
            &&& attachment_known(colors[0], native.target_identity)
            &&& forall|i: int|
                0 < i < colors.len() ==> attachment_known(
                    #[trigger] colors[i],
                    Some(native.secondary_targets@[i - 1]),
                )
            &&& forall|j: int| 0 <= j < textures.len() ==> texture_known(#[trigger] textures[j])
            &&& forall|i: int, j: int|
                0 <= i < colors.len() && 0 <= j < textures.len() && !colors[i].memoryless
                    ==> !pages_touch(
                    backing_pages((#[trigger] colors[i]).backing)->0,
                    (#[trigger] textures[j]).staged.writeback->0,
                )
            &&& forall|i: int, j: int|
                0 <= i < j < textures.len() ==> !pages_touch(
                    (#[trigger] textures[i]).staged.writeback->0,
                    (#[trigger] textures[j]).staged.writeback->0,
                )
        },
{
    let targets = request_targets(native);
    if isolation_refusal(scope_open, textures, colors, native) is None {
        law_isolated_backings_are_disjoint(textures, colors, native);
        assert(targets[0] == native.target_identity);
        lemma_sources_known(colors, targets, 0, Seq::empty(), 0);
        assert(attachment_known(colors[0], native.target_identity));
        assert forall|i: int| 0 < i < colors.len() implies attachment_known(
            #[trigger] colors[i],
            Some(native.secondary_targets@[i - 1]),
        ) by {
            lemma_sources_known(colors, targets, 0, Seq::empty(), i);
            assert(targets[i] == Some(native.secondary_targets@[i - 1]));
        }
        assert forall|j: int| 0 <= j < textures.len() implies texture_known(
            #[trigger] textures[j],
        ) by {
            assert(destination_bytes(textures[j]) is Ok);
        }
        assert forall|i: int, j: int|
            0 <= i < colors.len() && 0 <= j < textures.len()
                && !colors[i].memoryless implies !pages_touch(
            backing_pages((#[trigger] colors[i]).backing)->0,
            (#[trigger] textures[j]).staged.writeback->0,
        ) by {
            let source = backing_pages(colors[i].backing)->0;
            let written = textures[j].staged.writeback->0;
            if pages_touch(source, written) {
                let (a, b) = choose|a: int, b: int|
                    0 <= a < source.pages@.len() && 0 <= b < written.pages@.len()
                        && #[trigger] source.pages@[a] < #[trigger] written.pages@[b]
                        + written.page_size && written.pages@[b] < source.pages@[a]
                        + source.page_size;
                law_a_grant_keeps_attachment_pages_apart(textures, colors, native, i, j, a, b);
            }
        }
        assert forall|i: int, j: int| 0 <= i < j < textures.len() implies !pages_touch(
            (#[trigger] textures[i]).staged.writeback->0,
            (#[trigger] textures[j]).staged.writeback->0,
        ) by {
            let one = textures[i].staged.writeback->0;
            let other = textures[j].staged.writeback->0;
            if pages_touch(one, other) {
                let (a, b) = choose|a: int, b: int|
                    0 <= a < one.pages@.len() && 0 <= b < other.pages@.len()
                        && #[trigger] one.pages@[a] < #[trigger] other.pages@[b] + other.page_size
                        && other.pages@[b] < one.pages@[a] + one.page_size;
                law_a_grant_keeps_storage_pages_apart(textures, colors, native, i, j, a, b);
            }
        }
    } else if scope_open && textures.len() > 0 && textures.len() == native.storage_textures@.len()
        && colors.len() == native.secondary_targets@.len() + 1 && attachment_known(
        colors[0],
        native.target_identity,
    ) && (forall|i: int|
        0 < i < colors.len() ==> attachment_known(
            #[trigger] colors[i],
            Some(native.secondary_targets@[i - 1]),
        )) && (forall|j: int| 0 <= j < textures.len() ==> texture_known(#[trigger] textures[j])) {
        assert(targets.len() == colors.len());
        assert forall|i: int| 0 <= i < colors.len() implies source_bytes(
            #[trigger] colors[i],
            targets[i],
        ) is Ok by {
            if i == 0 {
                assert(targets[0] == native.target_identity);
            } else {
                assert(targets[i] == Some(native.secondary_targets@[i - 1]));
            }
            if !colors[i].memoryless {
                lemma_known_rows_are_not_empty(colors[i]);
            }
        }
        lemma_sources_succeed(colors, targets, 0, Seq::empty());
        let held = sources(colors, targets, 0, Seq::empty())->Ok_0;
        lemma_destinations_refusal(textures, 0, held);
        match isolation_refusal(scope_open, textures, colors, native) {
            Some(InterlockIsolationRefusal::GuestAlias { source, destination }) => {
                law_a_refused_alias_is_real(textures, colors, native, source, destination);
            },
            _ => {},
        }
    }
}

/// Images with bytes have rows with bytes.
proof fn lemma_known_rows_are_not_empty(color: IsolationColor)
    requires
        color.tight_row is Some,
        backing_pages(color.backing) is Some,
        pages_hold_image(backing_pages(color.backing)->0, color.tight_row->0, color.height),
    ensures
        color.tight_row->0 > 0,
        color.height > 0,
        forall|stride: u32|
            stride >= color.tight_row->0 ==> #[trigger] (stride * color.height) != 0,
{
    let row = color.tight_row->0;
    let height = color.height;
    assert(0 <= row * height <= u64::MAX) by (nonlinear_arith)
        requires
            0 <= row <= u32::MAX,
            0 <= height <= u32::MAX,
    ;
    if row == 0 || height == 0 {
        assert(row * height == 0) by (nonlinear_arith)
            requires
                row == 0 || height == 0,
        ;
    }
    assert forall|stride: u32| stride >= row implies #[trigger] (stride * height) != 0 by {
        assert(stride * height > 0) by (nonlinear_arith)
            requires
                stride > 0,
                height > 0,
        ;
    }
}

proof fn lemma_sources_succeed(
    colors: Seq<IsolationColor>,
    targets: Seq<Option<TargetIdentity>>,
    n: int,
    held: Seq<(u32, Set<int>)>,
)
    requires
        0 <= n <= colors.len(),
        forall|i: int|
            0 <= i < colors.len() ==> source_bytes(#[trigger] colors[i], targets[i]) is Ok,
    ensures
        sources(colors, targets, n, held) is Ok,
    decreases colors.len() - n,
{
    if n < colors.len() {
        assert(source_bytes(colors[n], targets[n]) is Ok);
        match source_bytes(colors[n], targets[n])->Ok_0 {
            None => {
                lemma_sources_succeed(colors, targets, n + 1, held);
            },
            Some(bytes) => {
                lemma_sources_succeed(
                    colors,
                    targets,
                    n + 1,
                    held.push((colors[n].texture_ref, bytes)),
                );
            },
        }
    }
}

proof fn lemma_destinations_refusal(
    textures: Seq<StorageTexture>,
    n: int,
    held: Seq<(u32, Set<int>)>,
)
    requires
        0 <= n <= textures.len(),
        forall|j: int| 0 <= j < textures.len() ==> texture_known(#[trigger] textures[j]),
    ensures
        destinations(textures, n, held) matches Err(e) ==> e is GuestAlias,
    decreases textures.len() - n,
{
    if n < textures.len() {
        assert(texture_known(textures[n]));
        let bytes = destination_bytes(textures[n])->Ok_0;
        if first_alias(held, 0, bytes) is None {
            lemma_destinations_refusal(
                textures,
                n + 1,
                held.push((textures[n].reference, bytes)),
            );
        }
    }
}

/// A grant keeps alive everything its proof rests on: the owner and the pages of
/// every guest-backed attachment and of every storage texture, and the import of
/// every mapped attachment that has one.
pub proof fn law_a_grant_keeps_its_grounds_alive(
    colors: Seq<IsolationColor>,
    textures: Seq<StorageTexture>,
    native: NativeRequest,
    i: int,
    j: int,
)
    requires
        isolation_refusal(true, textures, colors, native) is None,
    ensures
        0 <= i < colors.len() && !colors[i].memoryless ==> {
            let leases = all_leases(colors, textures);
            let pages = backing_pages(colors[i].backing)->0;
            &&& leases.owners.contains(colors[i].owner->0)
            &&& leases.footprints.contains((pages.pages@, pages.page_size))
            &&& (colors[i].backing matches ColorBacking::Mapping { import: Some(import), .. }
                ==> leases.imports.contains(import))
        },
        0 <= j < textures.len() ==> {
            let leases = all_leases(colors, textures);
            let pages = textures[j].staged.writeback->0;
            &&& leases.owners.contains(textures[j].staged.owner->0)
            &&& leases.footprints.contains((pages.pages@, pages.page_size))
        },
{
    let none = LeaseModel {
        owners: Seq::empty(),
        imports: Seq::empty(),
        footprints: Seq::empty(),
    };
    let first = source_leases(colors, 0, none);
    lemma_destination_leases_hold(textures, 0, first, j);
    if 0 <= i < colors.len() && !colors[i].memoryless {
        lemma_source_leases_hold(colors, 0, none, i);
        lemma_sources_known(colors, request_targets(native), 0, Seq::empty(), i);
    }
}

/// What was leased before is leased after.
spec fn grown(before: LeaseModel, after: LeaseModel) -> bool {
    &&& forall|x: u64| #[trigger] before.owners.contains(x) ==> after.owners.contains(x)
    &&& forall|x: u64| #[trigger] before.imports.contains(x) ==> after.imports.contains(x)
    &&& forall|x: (Seq<u64>, u64)| #[trigger]
        before.footprints.contains(x) ==> after.footprints.contains(x)
}

proof fn lemma_push_keeps<T>(list: Seq<T>, item: T)
    ensures
        list.push(item).contains(item),
        forall|x: T| #[trigger] list.contains(x) ==> list.push(item).contains(x),
{
    assert(list.push(item)[list.len() as int] == item);
    assert forall|x: T| #[trigger] list.contains(x) implies list.push(item).contains(x) by {
        let k = choose|k: int| 0 <= k < list.len() && list[k] == x;
        assert(list.push(item)[k] == x);
    }
}

proof fn lemma_source_leases_hold(
    colors: Seq<IsolationColor>,
    n: int,
    before: LeaseModel,
    i: int,
)
    requires
        0 <= n <= colors.len(),
    ensures
        grown(before, source_leases(colors, n, before)),
        n <= i < colors.len() && !colors[i].memoryless ==> {
            let leases = source_leases(colors, n, before);
            let pages = color_pages(colors[i], colors[i].tight_row->0)->0;
            &&& leases.owners.contains(colors[i].owner->0)
            &&& leases.footprints.contains((pages.pages@, pages.page_size))
            &&& (colors[i].backing matches ColorBacking::Mapping { import: Some(import), .. }
                ==> leases.imports.contains(import))
        },
    decreases colors.len() - n,
{
    if n < colors.len() {
        let next = with_source_leases(colors[n], before);
        if !colors[n].memoryless {
            let pages = color_pages(colors[n], colors[n].tight_row->0)->0;
            lemma_push_keeps(before.owners, colors[n].owner->0);
            lemma_push_keeps(before.footprints, (pages.pages@, pages.page_size));
            if let ColorBacking::Mapping { mapped, import: Some(import), pages } =
                colors[n].backing {
                lemma_push_keeps(before.imports, import);
            }
        }
        lemma_source_leases_hold(colors, n + 1, next, i);
    }
}

proof fn lemma_destination_leases_hold(
    textures: Seq<StorageTexture>,
    n: int,
    before: LeaseModel,
    j: int,
)
    requires
        0 <= n <= textures.len(),
    ensures
        grown(before, destination_leases(textures, n, before)),
        n <= j < textures.len() ==> {
            let leases = destination_leases(textures, n, before);
            let pages = textures[j].staged.writeback->0;
            &&& leases.owners.contains(textures[j].staged.owner->0)
            &&& leases.footprints.contains((pages.pages@, pages.page_size))
        },
    decreases textures.len() - n,
{
    if n < textures.len() {
        let pages = textures[n].staged.writeback->0;
        lemma_push_keeps(before.owners, textures[n].staged.owner->0);
        lemma_push_keeps(before.footprints, (pages.pages@, pages.page_size));
        lemma_destination_leases_hold(
            textures,
            n + 1,
            with_destination_leases(textures[n], before),
            j,
        );
    }
}

/// Requests that bind alike agree in the fragment module, the dimensions, every
/// target and, texture for texture, in extent, format and every binding's number,
/// access and stage; requests that agree in all of these bind alike.
pub proof fn law_alike_requests_agree(a: NativeRequest, b: NativeRequest)
    ensures
        binds_alike(a, b) <==> {
            &&& a.fragment == b.fragment
            &&& a.width == b.width
            &&& a.height == b.height
            &&& a.target_identity == b.target_identity
            &&& a.secondary_targets@ == b.secondary_targets@
            &&& a.storage_textures@.len() == b.storage_textures@.len()
            &&& forall|i: int|
                #![trigger a.storage_textures@[i]]
                0 <= i < a.storage_textures@.len() ==> same_storage_texture(
                    a.storage_textures@[i],
                    b.storage_textures@[i],
                )
        },
{
    let one = request_targets(a);
    let other = request_targets(b);
    assert(one[0] == a.target_identity && other[0] == b.target_identity);
    assert forall|i: int| 0 <= i < a.secondary_targets@.len() implies Some(
        #[trigger] a.secondary_targets@[i],
    ) == one[i + 1] by {}
    assert forall|i: int| 0 <= i < b.secondary_targets@.len() implies Some(
        #[trigger] b.secondary_targets@[i],
    ) == other[i + 1] by {}
    if one == other {
        assert(one.len() == a.secondary_targets@.len() + 1);
        assert(other.len() == b.secondary_targets@.len() + 1);
        assert forall|i: int| 0 <= i < a.secondary_targets@.len() implies (
        #[trigger] a.secondary_targets@[i]) == b.secondary_targets@[i] by {
            assert(one[i + 1] == other[i + 1]);
        }
        assert(a.secondary_targets@ =~= b.secondary_targets@);
    }
    if a.target_identity == b.target_identity && a.secondary_targets@ == b.secondary_targets@ {
        assert(one =~= other);
    }
    assert forall|i: int|
        #![trigger a.storage_textures@[i]]
        0 <= i < a.storage_textures@.len() && i < b.storage_textures@.len() implies (
    texture_signature(a.storage_textures@[i]) == texture_signature(b.storage_textures@[i])
        <==> same_storage_texture(a.storage_textures@[i], b.storage_textures@[i])) by {
        lemma_same_texture(a.storage_textures@[i], b.storage_textures@[i]);
    }
    if request_signature(a) == request_signature(b) {
        assert(request_signature(a).len() == a.storage_textures@.len());
        assert(request_signature(b).len() == b.storage_textures@.len());
        assert forall|i: int|
            #![trigger a.storage_textures@[i]]
            0 <= i < a.storage_textures@.len() implies same_storage_texture(
            a.storage_textures@[i],
            b.storage_textures@[i],
        ) by {
            assert(request_signature(a)[i] == request_signature(b)[i]);
        }
    }
    if a.storage_textures@.len() == b.storage_textures@.len() && (forall|i: int|
        #![trigger a.storage_textures@[i]]
        0 <= i < a.storage_textures@.len() ==> same_storage_texture(
            a.storage_textures@[i],
            b.storage_textures@[i],
        )) {
        assert(request_signature(a) =~= request_signature(b));
    }
}

/// Two storage textures are bound the same way.
pub open spec fn same_storage_texture(a: GraphicsStorageTexture, b: GraphicsStorageTexture) -> bool {
    &&& a.width == b.width
    &&& a.height == b.height
    &&& a.format == b.format
    &&& a.bindings@.len() == b.bindings@.len()
    &&& forall|k: int|
        #![trigger a.bindings@[k]]
        0 <= k < a.bindings@.len() ==> a.bindings@[k].binding == b.bindings@[k].binding
            && a.bindings@[k].access == b.bindings@[k].access && a.bindings@[k].stage
            == b.bindings@[k].stage
}

proof fn lemma_same_texture(a: GraphicsStorageTexture, b: GraphicsStorageTexture)
    ensures
        texture_signature(a) == texture_signature(b) <==> same_storage_texture(a, b),
{
    let one = texture_signature(a).bindings;
    let other = texture_signature(b).bindings;
    if one == other {
        assert forall|k: int|
            #![trigger a.bindings@[k]]
            0 <= k < a.bindings@.len() implies a.bindings@[k].binding == b.bindings@[k].binding
            && a.bindings@[k].access == b.bindings@[k].access && a.bindings@[k].stage
            == b.bindings@[k].stage by {
            assert(one[k] == other[k]);
        }
    }
    if same_storage_texture(a, b) {
        assert forall|k: int| 0 <= k < one.len() implies #[trigger] one[k] == other[k] by {
            assert(a.bindings@[k].binding == b.bindings@[k].binding);
        }
        assert(one =~= other);
    }
}

proof fn lemma_pages_apart(a: GuestPageFootprint, b: GuestPageFootprint, i: int, j: int)
    requires
        a.page_size > 0,
        b.page_size > 0,
        0 <= i < a.pages@.len(),
        0 <= j < b.pages@.len(),
        !meet(page_set(a.pages@, a.page_size), page_set(b.pages@, b.page_size)),
    ensures
        a.pages@[i] + a.page_size <= b.pages@[j] || b.pages@[j] + b.page_size <= a.pages@[i],
{
    let p = a.pages@[i];
    let q = b.pages@[j];
    if p < q + b.page_size && q < p + a.page_size {
        let x: int = if p < q {
            q as int
        } else {
            p as int
        };
        assert(in_page(p, a.page_size, x) && in_page(q, b.page_size, x));
        assert(page_set(a.pages@, a.page_size).contains(x));
        assert(page_set(b.pages@, b.page_size).contains(x));
    }
}

} // verus!
