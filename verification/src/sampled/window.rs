//! The exact guest window a surface sample reads.
use crate::gather::{same_bytes, same_numbers};
use crate::sampled::description::Description;
use vstd::prelude::*;

verus! {

/// Where a mapping's pages were walked from.
#[derive(Clone, Copy, Debug, PartialEq, Eq, Structural)]
pub struct BackingWalk {
    pub task: u32,
    pub gva: u64,
    pub map_generation: u32,
}

/// Everything that makes two windows the same one.
pub struct WindowKey {
    pub description: Description,
    pub device_descriptor: Vec<u8>,
    pub map_generation: u32,
    pub content_generation: u32,
    pub surface_content_epoch: u32,
    pub mapping_internal: u64,
    pub page_table_gpa: Option<u64>,
    pub backing: Option<BackingWalk>,
    pub page_size: u64,
    pub pages: Vec<u64>,
    pub mapped_len: u64,
    pub base: u64,
    pub pitch: u32,
    pub end: u64,
    pub guest_read_bytes: u64,
}

/// A window key as a value.
pub ghost struct WindowModel {
    pub description: Description,
    pub device_descriptor: Seq<u8>,
    pub map_generation: u32,
    pub content_generation: u32,
    pub surface_content_epoch: u32,
    pub mapping_internal: u64,
    pub page_table_gpa: Option<u64>,
    pub backing: Option<BackingWalk>,
    pub page_size: u64,
    pub pages: Seq<u64>,
    pub mapped_len: u64,
    pub base: u64,
    pub pitch: u32,
    pub end: u64,
    pub guest_read_bytes: u64,
}

impl View for WindowKey {
    type V = WindowModel;

    open spec fn view(&self) -> WindowModel {
        WindowModel {
            description: self.description,
            device_descriptor: self.device_descriptor@,
            map_generation: self.map_generation,
            content_generation: self.content_generation,
            surface_content_epoch: self.surface_content_epoch,
            mapping_internal: self.mapping_internal,
            page_table_gpa: self.page_table_gpa,
            backing: self.backing,
            page_size: self.page_size,
            pages: self.pages@,
            mapped_len: self.mapped_len,
            base: self.base,
            pitch: self.pitch,
            end: self.end,
            guest_read_bytes: self.guest_read_bytes,
        }
    }
}

/// Whether two optional addresses are the same.
pub fn same_address(a: Option<u64>, b: Option<u64>) -> (r: bool)
    ensures
        r == (a == b),
{
    match (a, b) {
        (Some(x), Some(y)) => x == y,
        (None, None) => true,
        _ => false,
    }
}

fn same_walk(a: Option<BackingWalk>, b: Option<BackingWalk>) -> (r: bool)
    ensures
        r == (a == b),
{
    match (a, b) {
        (Some(x), Some(y)) => x == y,
        (None, None) => true,
        _ => false,
    }
}

/// Whether two windows are the same.
pub fn same_window(a: &WindowKey, b: &WindowKey) -> (r: bool)
    ensures
        r == (a@ == b@),
{
    a.description == b.description && same_bytes(&a.device_descriptor, &b.device_descriptor)
        && a.map_generation == b.map_generation && a.content_generation == b.content_generation
        && a.surface_content_epoch == b.surface_content_epoch && a.mapping_internal
        == b.mapping_internal && same_address(a.page_table_gpa, b.page_table_gpa) && same_walk(
        a.backing,
        b.backing,
    ) && a.page_size == b.page_size && same_numbers(&a.pages, &b.pages) && a.mapped_len
        == b.mapped_len && a.base == b.base && a.pitch == b.pitch && a.end == b.end
        && a.guest_read_bytes == b.guest_read_bytes
}

/// What a page witness says of a mapping walked from its backing.
#[derive(Clone, Copy, Debug, PartialEq, Eq, Structural)]
pub enum PagesVerdict {
    /// The pages are still the mapping's own.
    Ours,
    /// Nothing was there to compare.
    Unwitnessed,
    /// The pages have moved, and the old list is gone.
    Drifted,
}

/// A mapping's provenance, as far as refreshing it needs.
pub struct BackingState {
    pub mapped: bool,
    pub has_backing_walk: bool,
    pub mapping_internal: u64,
    pub has_page_entries: bool,
}

/// Why a window cannot be read at all.
#[derive(Clone, Copy, Debug, PartialEq, Eq, Structural)]
pub enum WindowStatus {
    /// The mapping's backing moved and could not be walked again.
    BackingChanged,
    /// A captured import is no longer what the surface holds.
    CaptureStale,
    /// The surface changed under a captured import.
    MappingChanged,
}

impl WindowStatus {
    /// The name a status is reported under.
    pub open spec fn slug_text(self) -> Seq<char> {
        match self {
            WindowStatus::BackingChanged => "metal_packed_mapping_backing_changed"@,
            WindowStatus::CaptureStale => "metal_mapped_sample_capture_stale"@,
            WindowStatus::MappingChanged => "metal_mapped_sample_mapping_changed"@,
        }
    }

    /// The name a status is reported under.
    pub fn slug(self) -> (text: &'static str)
        ensures
            text@ == self.slug_text(),
    {
        match self {
            WindowStatus::BackingChanged => "metal_packed_mapping_backing_changed",
            WindowStatus::CaptureStale => "metal_mapped_sample_capture_stale",
            WindowStatus::MappingChanged => "metal_mapped_sample_mapping_changed",
        }
    }
}

/// Whether a mapping's pages are its own. A mapping without a backing walk
/// answers by having an owner of its own; one with a walk answers by its
/// witness, and is walked again where the pages moved or were never listed.
/// `rebuilt` is whether walking again left pages that are the mapping's own.
pub open spec fn backing_answer(
    mapping: Option<BackingState>,
    verdict: PagesVerdict,
    rebuilt: bool,
) -> Result<bool, WindowStatus> {
    match mapping {
        None => Ok(false),
        Some(m) => if !m.mapped {
            Ok(false)
        } else if !m.has_backing_walk {
            Ok(m.mapping_internal != 0)
        } else if verdict == PagesVerdict::Ours {
            Ok(true)
        } else if verdict == PagesVerdict::Unwitnessed && !(m.mapping_internal == 0
            && !m.has_page_entries) {
            Ok(false)
        } else if rebuilt {
            Ok(true)
        } else {
            Err(WindowStatus::BackingChanged)
        },
    }
}

/// Whether a mapping has to be walked again before its pages can be answered
/// for.
pub open spec fn needs_walk(mapping: Option<BackingState>, verdict: PagesVerdict) -> bool {
    &&& mapping matches Some(m)
    &&& m.mapped
    &&& m.has_backing_walk
    &&& verdict == PagesVerdict::Drifted || (verdict == PagesVerdict::Unwitnessed
        && m.mapping_internal == 0 && !m.has_page_entries)
}

/// Whether a mapping has to be walked again.
pub fn must_walk(mapping: &Option<BackingState>, verdict: PagesVerdict) -> (r: bool)
    ensures
        r == needs_walk(*mapping, verdict),
{
    match mapping {
        None => false,
        Some(m) => m.mapped && m.has_backing_walk && (verdict == PagesVerdict::Drifted || (verdict
            == PagesVerdict::Unwitnessed && m.mapping_internal == 0 && !m.has_page_entries)),
    }
}

/// Whether a mapping's pages are its own.
pub fn refresh_backing(
    mapping: &Option<BackingState>,
    verdict: PagesVerdict,
    rebuilt: bool,
) -> (r: Result<bool, WindowStatus>)
    ensures
        r == backing_answer(*mapping, verdict, rebuilt),
{
    match mapping {
        None => Ok(false),
        Some(m) => {
            if !m.mapped {
                return Ok(false);
            }
            if !m.has_backing_walk {
                return Ok(m.mapping_internal != 0);
            }
            let needs_backing: bool = m.mapping_internal == 0 && !m.has_page_entries;
            if verdict == PagesVerdict::Ours {
                return Ok(true);
            }
            if verdict == PagesVerdict::Unwitnessed && !needs_backing {
                return Ok(false);
            }
            if rebuilt {
                Ok(true)
            } else {
                Err(WindowStatus::BackingChanged)
            }
        },
    }
}

/// The decoded device surface of a mapping.
#[derive(Clone, Copy, Debug)]
pub struct DeviceSurface {
    pub plane_count: u32,
    pub alloc_size: u32,
    pub width: u32,
    pub height: u32,
    /// The pixel format the surface's own code stands for.
    pub format: u16,
}

/// A mapping, as a window is resolved from it.
pub struct SurfaceMapping {
    pub mapped: bool,
    pub has_geom: bool,
    pub width: u32,
    pub height: u32,
    pub format: u16,
    pub multiplanar: bool,
    pub map_generation: u32,
    pub content_generation: u32,
    pub surface_content_epoch: u32,
    pub mapping_internal: u64,
    pub page_table_gpa: Option<u64>,
    pub backing_walk: Option<BackingWalk>,
    /// The device descriptor, where all of it has arrived.
    pub device_descriptor: Option<Vec<u8>>,
    pub surface: Option<DeviceSurface>,
    /// First byte, row pitch and end of the sampled texels.
    pub sample_window: Option<(u64, u32, u64)>,
}

/// What resolving a window found outside.
pub struct WindowView {
    /// The contiguous view's length and pages.
    pub mapped_len: u64,
    pub pages: Vec<u64>,
    pub page_size: u64,
    /// A publication stands in for the surface's guest bytes.
    pub published: bool,
    pub mapping: Option<SurfaceMapping>,
    /// Bytes of one tightly packed row, where the format has a width.
    pub tight_row: Option<u32>,
    /// The sampled texels lie inside the view.
    pub run_fits: bool,
    /// A submitted guest write may still reach the window's pages.
    pub writes_may_reach: bool,
}

/// A window to observe: its key, and which of its pages it covers.
pub struct Window {
    pub key: WindowKey,
    pub first_page: usize,
    pub end_page: usize,
}

/// The mapping is the surface the texture describes, as a single plane.
pub open spec fn is_described(mapping: SurfaceMapping, description: Description) -> bool {
    &&& mapping.mapped
    &&& mapping.has_geom
    &&& mapping.width == description.width
    &&& mapping.height == description.height
    &&& mapping.format == description.format
    &&& !mapping.multiplanar
    &&& mapping.backing_walk matches Some(walk) ==> walk.map_generation == mapping.map_generation
}

/// The device surface is the one the texture describes, inside the view.
pub open spec fn surface_agrees(
    surface: DeviceSurface,
    description: Description,
    mapped_len: u64,
) -> bool {
    &&& surface.plane_count <= 1
    &&& surface.alloc_size != 0
    &&& surface.width == description.width
    &&& surface.height == description.height
    &&& surface.format == description.format
    &&& surface.alloc_size <= mapped_len
}

/// How many pages a byte count reaches into.
pub open spec fn pages_through(bytes: int, page_size: int) -> int {
    (bytes + page_size - 1) / page_size
}

/// The window of a description, and its page range, where the surface is
/// exactly what it describes and every page of the window is known.
pub open spec fn resolved_window(description: Description, view: WindowView) -> Option<
    (WindowModel, int, int),
> {
    if view.published {
        None
    } else {
        match view.mapping {
            None => None,
            Some(mapping) => match (
                mapping.device_descriptor,
                mapping.surface,
                mapping.sample_window,
                view.tight_row,
            ) {
                (Some(descriptor), Some(surface), Some((base, pitch, end)), Some(tight)) => {
                    let first = base as int / view.page_size as int;
                    let last = pages_through(end as int, view.page_size as int);
                    if is_described(mapping, description) && surface_agrees(
                        surface,
                        description,
                        view.mapped_len,
                    ) && base < end && end <= surface.alloc_size && pitch >= tight && view.run_fits
                        && last <= view.pages@.len() && !view.writes_may_reach {
                        Some(
                            (
                                WindowModel {
                                    description,
                                    device_descriptor: descriptor@,
                                    map_generation: mapping.map_generation,
                                    content_generation: mapping.content_generation,
                                    surface_content_epoch: mapping.surface_content_epoch,
                                    mapping_internal: mapping.mapping_internal,
                                    page_table_gpa: mapping.page_table_gpa,
                                    backing: mapping.backing_walk,
                                    page_size: view.page_size,
                                    pages: view.pages@,
                                    mapped_len: view.mapped_len,
                                    base,
                                    pitch,
                                    end,
                                    guest_read_bytes: (tight * description.height) as u64,
                                },
                                first,
                                last,
                            ),
                        )
                    } else {
                        None
                    }
                },
                _ => None,
            },
        }
    }
}

fn through(bytes: u64, page_size: u64) -> (pages: u64)
    requires
        page_size > 0,
    ensures
        pages == pages_through(bytes as int, page_size as int),
{
    let whole: u64 = bytes / page_size;
    let partial: u64 = bytes % page_size;
    proof {
        let b = bytes as int;
        let s = page_size as int;
        vstd::arithmetic::div_mod::lemma_fundamental_div_mod(b, s);
        if partial == 0 {
            vstd::arithmetic::div_mod::lemma_fundamental_div_mod_converse(
                b + s - 1,
                s,
                whole as int,
                s - 1,
            );
        } else {
            assert(s * (whole + 1) == s * whole + s) by (nonlinear_arith);
            vstd::arithmetic::div_mod::lemma_fundamental_div_mod_converse(
                b + s - 1,
                s,
                whole + 1,
                partial - 1,
            );
            assert(whole + 1 <= u64::MAX) by (nonlinear_arith)
                requires
                    s * whole + partial == b,
                    b <= u64::MAX,
                    partial >= 1,
                    s >= 1,
                    whole >= 0,
            ;
        }
    }
    if partial == 0 {
        whole
    } else {
        whole + 1
    }
}

fn copy_bytes(bytes: &Vec<u8>) -> (copy: Vec<u8>)
    ensures
        copy@ == bytes@,
{
    let mut copy: Vec<u8> = Vec::with_capacity(bytes.len());
    let mut n: usize = 0;
    while n < bytes.len()
        invariant
            0 <= n <= bytes@.len(),
            copy@ == bytes@.take(n as int),
        decreases bytes@.len() - n,
    {
        copy.push(bytes[n]);
        n += 1;
        assert(copy@ =~= bytes@.take(n as int));
    }
    assert(copy@ =~= bytes@);
    copy
}

fn described_by(mapping: &SurfaceMapping, description: Description) -> (r: bool)
    ensures
        r == is_described(*mapping, description),
{
    let walked: bool = match mapping.backing_walk {
        Some(walk) => walk.map_generation == mapping.map_generation,
        None => true,
    };
    mapping.mapped && mapping.has_geom && mapping.width == description.width && mapping.height
        == description.height && mapping.format == description.format && !mapping.multiplanar
        && walked
}

/// The window of a description. A publication is a different source even when
/// its bytes happen to match; a surface that is not exactly what the texture
/// describes, a page that is not known, or a write that can still reach keeps
/// the texture on ordinary staging.
pub fn resolve(description: Description, view: WindowView) -> (window: Option<Window>)
    requires
        view.page_size > 0,
    ensures
        match resolved_window(description, view) {
            None => window is None,
            Some((key, first, last)) => window matches Some(w) && w.key@ == key && w.first_page
                == first && w.end_page == last && first <= last <= view.pages@.len(),
        },
{
    if view.published {
        return None;
    }
    let mapping: SurfaceMapping = match view.mapping {
        None => {
            return None;
        },
        Some(mapping) => mapping,
    };
    if !described_by(&mapping, description) {
        return None;
    }
    let descriptor: Vec<u8> = match &mapping.device_descriptor {
        None => {
            return None;
        },
        Some(descriptor) => copy_bytes(descriptor),
    };
    let surface: DeviceSurface = match mapping.surface {
        None => {
            return None;
        },
        Some(surface) => surface,
    };
    if surface.plane_count > 1 || surface.alloc_size == 0 || surface.width != description.width
        || surface.height != description.height || surface.format != description.format
        || surface.alloc_size as u64 > view.mapped_len {
        return None;
    }
    let (base, pitch, end): (u64, u32, u64) = match mapping.sample_window {
        None => {
            return None;
        },
        Some(window) => window,
    };
    if end <= base || end > surface.alloc_size as u64 {
        return None;
    }
    let tight: u32 = match view.tight_row {
        None => {
            return None;
        },
        Some(tight) => tight,
    };
    if pitch < tight || !view.run_fits {
        return None;
    }
    let first: u64 = base / view.page_size;
    let last: u64 = through(end, view.page_size);
    if last > view.pages.len() as u64 || view.writes_may_reach {
        return None;
    }
    proof {
        let b = base as int;
        let e = end as int;
        let s = view.page_size as int;
        vstd::arithmetic::div_mod::lemma_div_is_ordered(b, e + s - 1, s);
    }
    let height: u32 = description.height;
    assert(tight * height <= u64::MAX) by (nonlinear_arith)
        requires
            tight <= u32::MAX,
            height <= u32::MAX,
    ;
    Some(
        Window {
            key: WindowKey {
                description,
                device_descriptor: descriptor,
                map_generation: mapping.map_generation,
                content_generation: mapping.content_generation,
                surface_content_epoch: mapping.surface_content_epoch,
                mapping_internal: mapping.mapping_internal,
                page_table_gpa: mapping.page_table_gpa,
                backing: mapping.backing_walk,
                page_size: view.page_size,
                pages: view.pages,
                mapped_len: view.mapped_len,
                base,
                pitch,
                end,
                guest_read_bytes: tight as u64 * height as u64,
            },
            first_page: first as usize,
            end_page: last as usize,
        },
    )
}

/// The pages of a resolved window hold every byte it reads.
pub proof fn law_window_pages_cover_its_bytes(description: Description, view: WindowView, x: int)
    requires
        view.page_size > 0,
        resolved_window(description, view) is Some,
        ({
            let key = (resolved_window(description, view)->0).0;
            key.base <= x < key.end
        }),
    ensures
        ({
            let (key, first, last) = resolved_window(description, view)->0;
            &&& first <= x / view.page_size as int
            &&& x / (view.page_size as int) < last
            &&& last <= key.pages.len()
            &&& key.end <= key.mapped_len
        }),
{
    let (key, first, last) = resolved_window(description, view)->0;
    let s = view.page_size as int;
    vstd::arithmetic::div_mod::lemma_div_is_ordered(key.base as int, x, s);
    vstd::arithmetic::div_mod::lemma_div_is_ordered(x + s, key.end + s - 1, s);
    assert((x + s) / s == x / s + 1) by {
        vstd::arithmetic::div_mod::lemma_div_plus_one(x, s);
    }
}

/// A window is resolved exactly when nothing stands in for the surface's bytes and
/// the surface, as the mapping and as the device decode it, is the single plane
/// that the texture describes, with every sampled row whole, every page known and
/// no write that can still reach it.
pub proof fn law_a_window_is_the_described_surface(description: Description, view: WindowView)
    requires
        view.page_size > 0,
    ensures
        resolved_window(description, view) is Some <==> {
            &&& !view.published
            &&& !view.writes_may_reach
            &&& view.run_fits
            &&& view.tight_row is Some
            &&& view.mapping is Some
            &&& {
                let m = view.mapping->0;
                &&& m.mapped && m.has_geom && !m.multiplanar
                &&& m.width == description.width && m.height == description.height && m.format
                    == description.format
                &&& m.backing_walk is None || (m.backing_walk->0).map_generation
                    == m.map_generation
                &&& m.device_descriptor is Some && m.surface is Some && m.sample_window is Some
                &&& m.surface->0.plane_count < 2
                &&& m.surface->0.width == m.width && m.surface->0.height == m.height
                    && m.surface->0.format == m.format
                &&& 0 < m.surface->0.alloc_size <= view.mapped_len
                &&& (m.sample_window->0).0 < (m.sample_window->0).2 <= m.surface->0.alloc_size
                &&& view.tight_row->0 <= (m.sample_window->0).1
                &&& (m.sample_window->0).2 <= view.pages@.len() * view.page_size
            }
        },
{
    if let Some(m) = view.mapping {
        if let Some((base, pitch, end)) = m.sample_window {
            let size = view.page_size as int;
            let last = pages_through(end as int, size);
            let count = view.pages@.len() as int;
            vstd::arithmetic::div_mod::lemma_fundamental_div_mod(end + size - 1, size);
            vstd::arithmetic::div_mod::lemma_mod_bound(end + size - 1, size);
            if last <= count {
                assert(size * last <= count * size) by (nonlinear_arith)
                    requires
                        last <= count,
                        size > 0,
                ;
            } else {
                assert(size * last >= count * size + size) by (nonlinear_arith)
                    requires
                        last >= count + 1,
                        size > 0,
                ;
            }
        }
    }
}

/// A window's key says of the surface everything that can change: two resolved
/// windows with one key were read from surfaces with the same descriptor,
/// generations, owner, page table, backing, pages and texels.
pub proof fn law_a_window_key_names_its_surface(
    first: Description,
    view: WindowView,
    second: Description,
    other: WindowView,
)
    requires
        resolved_window(first, view) is Some,
        resolved_window(second, other) is Some,
    ensures
        (resolved_window(first, view)->0).0 == (resolved_window(second, other)->0).0 <==> {
            let a = view.mapping->0;
            let b = other.mapping->0;
            &&& first == second
            &&& a.device_descriptor->0@ == b.device_descriptor->0@
            &&& a.map_generation == b.map_generation
            &&& a.content_generation == b.content_generation
            &&& a.surface_content_epoch == b.surface_content_epoch
            &&& a.mapping_internal == b.mapping_internal
            &&& a.page_table_gpa == b.page_table_gpa
            &&& a.backing_walk == b.backing_walk
            &&& a.sample_window == b.sample_window
            &&& view.page_size == other.page_size
            &&& view.pages@ == other.pages@
            &&& view.mapped_len == other.mapped_len
            &&& (view.tight_row->0 * first.height) as u64 == (other.tight_row->0
                * second.height) as u64
        },
        ({
            let (key, from, to) = resolved_window(first, view)->0;
            &&& key.guest_read_bytes == view.tight_row->0 * first.height
            &&& (key.base, key.pitch, key.end) == view.mapping->0.sample_window->0
            &&& key.content_generation == view.mapping->0.content_generation
            &&& key.map_generation == view.mapping->0.map_generation
            &&& key.surface_content_epoch == view.mapping->0.surface_content_epoch
        }),
{
    let (row, height) = (view.tight_row->0, first.height);
    assert(0 <= row * height <= u64::MAX) by (nonlinear_arith)
        requires
            0 <= row <= u32::MAX,
            0 <= height <= u32::MAX,
    ;
}

/// A window covers no page before the one its first byte is on, and none behind
/// the one its last byte is on.
pub proof fn law_a_window_covers_no_other_page(description: Description, view: WindowView)
    requires
        view.page_size > 0,
        resolved_window(description, view) is Some,
    ensures
        ({
            let (key, first, last) = resolved_window(description, view)->0;
            &&& first == key.base as int / view.page_size as int
            &&& (last - 1) * view.page_size < key.end <= last * view.page_size
        }),
{
    let (key, first, last) = resolved_window(description, view)->0;
    let size = view.page_size as int;
    vstd::arithmetic::div_mod::lemma_fundamental_div_mod(key.end + size - 1, size);
    vstd::arithmetic::div_mod::lemma_mod_bound(key.end + size - 1, size);
    assert((last - 1) * size == size * last - size && last * size == size * last)
        by (nonlinear_arith);
}

/// Walking a mapping again matters only where its pages moved or were never
/// listed, and only then can the answer be a refusal; a mapping that is gone
/// never has pages of its own.
pub proof fn law_a_refused_backing_was_walked_again(
    mapping: Option<BackingState>,
    verdict: PagesVerdict,
    rebuilt: bool,
)
    ensures
        backing_answer(mapping, verdict, rebuilt) is Err <==> needs_walk(mapping, verdict)
            && !rebuilt,
        !needs_walk(mapping, verdict) ==> backing_answer(mapping, verdict, true)
            == backing_answer(mapping, verdict, false),
        needs_walk(mapping, verdict) && rebuilt ==> backing_answer(mapping, verdict, rebuilt)
            == Ok::<bool, WindowStatus>(true),
        mapping is None || !mapping->0.mapped ==> backing_answer(mapping, verdict, rebuilt) == Ok::<
            bool,
            WindowStatus,
        >(false),
        mapping matches Some(m) && m.mapped && m.has_backing_walk && verdict == PagesVerdict::Ours
            ==> backing_answer(mapping, verdict, rebuilt) == Ok::<bool, WindowStatus>(true),
        mapping matches Some(m) && m.mapped && m.has_backing_walk && verdict
            == PagesVerdict::Drifted ==> needs_walk(mapping, verdict),
        mapping matches Some(m) && m.mapped && m.has_backing_walk && verdict
            == PagesVerdict::Unwitnessed && (m.mapping_internal != 0 || m.has_page_entries)
            ==> backing_answer(mapping, verdict, rebuilt) == Ok::<bool, WindowStatus>(false),
        mapping matches Some(m) && m.mapped && !m.has_backing_walk ==> backing_answer(
            mapping,
            verdict,
            rebuilt,
        ) == Ok::<bool, WindowStatus>(mapping->0.mapping_internal != 0),
{
}

/// No two statuses are reported under one name.
pub proof fn law_every_window_status_has_a_name_of_its_own(a: WindowStatus, b: WindowStatus)
    ensures
        a.slug_text() == b.slug_text() ==> a == b,
{
    reveal_strlit("metal_packed_mapping_backing_changed");
    reveal_strlit("metal_mapped_sample_capture_stale");
    reveal_strlit("metal_mapped_sample_mapping_changed");
    assert("metal_packed_mapping_backing_changed"@.len() == 36);
    assert("metal_mapped_sample_capture_stale"@.len() == 33);
    assert("metal_mapped_sample_mapping_changed"@.len() == 35);
}

} // verus!
