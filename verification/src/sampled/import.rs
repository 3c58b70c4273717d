//! Surface textures read in place through an owned import.
//!
//! An import is a mutable guest read, not a retained pixel value: it is checked
//! against the surface when it is captured and again before it is encoded.
use crate::gather::same_bytes;
use crate::sampled::window::{
    same_address, same_window, Window, WindowKey, WindowStatus,
};
use std::sync::Arc;
use vstd::prelude::*;

verus! {

/// A captured in-place read: its window, the import it goes through and the page
/// allocation that import stands for.
pub struct ImportedSample {
    pub key: WindowKey,
    pub import: u64,
    pub footprint: u64,
}

/// The surface as it stands when a capture is checked against it.
pub struct LiveSurface {
    /// The native image over the import still exists.
    pub image_live: bool,
    pub mapping: Option<LiveMapping>,
}

/// The mapping a capture is checked against.
pub struct LiveMapping {
    pub mapped: bool,
    pub has_geom: bool,
    pub map_generation: u32,
    pub mapping_internal: u64,
    pub page_table_gpa: Option<u64>,
    pub width: u32,
    pub height: u32,
    pub format: u16,
    pub device_descriptor: Option<Vec<u8>>,
    /// The import that is in use, unless it is retired.
    pub import: Option<u64>,
    /// The page allocation of the contiguous view.
    pub footprint: Option<u64>,
    /// First byte, row pitch and end of the sampled texels.
    pub sample_window: Option<(u64, u32, u64)>,
}

/// The mapping still is what the capture was made from.
pub open spec fn still_captured(capture: ImportedSample, mapping: LiveMapping) -> bool {
    let key = capture.key;
    &&& mapping.mapped
    &&& mapping.has_geom
    &&& mapping.map_generation == key.map_generation
    &&& mapping.mapping_internal == key.mapping_internal
    &&& mapping.page_table_gpa == key.page_table_gpa
    &&& mapping.width == key.description.width
    &&& mapping.height == key.description.height
    &&& mapping.format == key.description.format
    &&& mapping.device_descriptor matches Some(bytes) && bytes@ == key.device_descriptor@
    &&& mapping.import == Some(capture.import)
    &&& mapping.footprint == Some(capture.footprint)
    &&& mapping.sample_window == Some((key.base, key.pitch, key.end))
}

/// The capture still stands.
pub open spec fn current(capture: ImportedSample, live: LiveSurface) -> bool {
    live.image_live && (live.mapping matches Some(mapping) && still_captured(capture, mapping))
}

/// What admitting an in-place read asked outside.
#[derive(Clone, Copy, Debug)]
pub struct ImportFacts {
    /// In-place reads are enabled, and mapped pages are owned.
    pub enabled: bool,
    pub map_pages_owned: bool,
    /// The format is one a native texture reads.
    pub native_format: bool,
    /// Bytes the native texture spans at the window's pitch.
    pub layout_span: Option<u64>,
    /// Bytes the device surface holds.
    pub alloc_size: u32,
    /// The owned import and its page allocation.
    pub import: Option<(u64, u64)>,
    /// The import can be sliced there.
    pub slice_ok: bool,
    pub device_available: bool,
    /// The native texture could be made.
    pub image_ok: bool,
}

/// What an in-place read counts.
#[derive(Clone, Copy, Debug, PartialEq, Eq, Structural)]
pub enum ImportNote {
    Fallback,
    Reads,
    GuestBytes { bytes: u64 },
}

impl ImportNote {
    /// The name of the counter.
    pub open spec fn slug_text(self) -> Seq<char> {
        match self {
            ImportNote::Fallback => "metal_mapped_sample_fallback"@,
            ImportNote::Reads => "metal_mapped_sample_reads"@,
            ImportNote::GuestBytes { .. } => "metal_mapped_sample_guest_bytes"@,
        }
    }

    /// The name of the counter.
    pub fn slug(self) -> (text: &'static str)
        ensures
            text@ == self.slug_text(),
    {
        match self {
            ImportNote::Fallback => "metal_mapped_sample_fallback",
            ImportNote::Reads => "metal_mapped_sample_reads",
            ImportNote::GuestBytes { .. } => "metal_mapped_sample_guest_bytes",
        }
    }
}

/// The window is resolved at all.
pub open spec fn asks_window(facts: ImportFacts) -> bool {
    facts.enabled && facts.map_pages_owned && facts.native_format
}

/// Every answer before the native texture is made admits the read.
pub open spec fn reaches_native(
    facts: ImportFacts,
    window: Result<Option<Window>, WindowStatus>,
) -> bool {
    &&& asks_window(facts)
    &&& window matches Ok(Some(w))
    &&& facts.layout_span matches Some(span)
    &&& w.key.base + span <= facts.alloc_size
    &&& facts.import is Some
    &&& facts.slice_ok
    &&& facts.device_available
}

fn same_sample_window(a: Option<(u64, u32, u64)>, b: (u64, u32, u64)) -> (r: bool)
    ensures
        r == (a == Some(b)),
{
    match a {
        Some(w) => w.0 == b.0 && w.1 == b.1 && w.2 == b.2,
        None => false,
    }
}

fn mapping_agrees(capture: &ImportedSample, mapping: &LiveMapping) -> (r: bool)
    ensures
        r == still_captured(*capture, *mapping),
{
    let key: &WindowKey = &capture.key;
    let descriptor: bool = match &mapping.device_descriptor {
        Some(bytes) => same_bytes(bytes, &key.device_descriptor),
        None => false,
    };
    mapping.mapped && mapping.has_geom && mapping.map_generation == key.map_generation
        && mapping.mapping_internal == key.mapping_internal && same_address(
        mapping.page_table_gpa,
        key.page_table_gpa,
    ) && mapping.width == key.description.width && mapping.height == key.description.height
        && mapping.format == key.description.format && descriptor && same_address(
        mapping.import,
        Some(capture.import),
    ) && same_address(mapping.footprint, Some(capture.footprint)) && same_sample_window(
        mapping.sample_window,
        (key.base, key.pitch, key.end),
    )
}

impl ImportedSample {
    /// Whether two captures read the same window through the same import.
    pub open spec fn reads_alike(self, other: ImportedSample) -> bool {
        self.import == other.import && self.key@ == other.key@
    }

    /// Whether two captures read the same window through the same import.
    pub fn same_view(&self, other: &ImportedSample) -> (r: bool)
        ensures
            r == self.reads_alike(*other),
    {
        self.import == other.import && same_window(&self.key, &other.key)
    }

    /// The guest bytes one read covers.
    pub fn byte_len(&self) -> (n: u64)
        ensures
            n == self.key.guest_read_bytes,
    {
        self.key.guest_read_bytes
    }

    /// Whether the capture still stands.
    pub fn check(&self, live: &LiveSurface) -> (r: Result<(), WindowStatus>)
        ensures
            r == if current(*self, *live) {
                Ok::<(), WindowStatus>(())
            } else {
                Err::<(), WindowStatus>(WindowStatus::CaptureStale)
            },
    {
        let agrees: bool = match &live.mapping {
            Some(mapping) => mapping_agrees(self, mapping),
            None => false,
        };
        if live.image_live && agrees {
            Ok(())
        } else {
            Err(WindowStatus::CaptureStale)
        }
    }

    /// Admits an in-place read. Anything short of a native texture over the
    /// whole window leaves the texture to ordinary staging; a window that could
    /// not be resolved, and a surface that moved while the read was admitted, are
    /// refused.
    pub fn prepare(
        facts: ImportFacts,
        window: Result<Option<Window>, WindowStatus>,
        live: &LiveSurface,
    ) -> (r: (Result<Option<ImportedSample>, WindowStatus>, Vec<ImportNote>))
        ensures
            asks_window(facts) && window is Err ==> {
                &&& r.0 matches Err(status) && status == window->Err_0
                &&& r.1@ == Seq::<ImportNote>::empty()
            },
            !reaches_native(facts, window) && !(asks_window(facts) && window is Err) ==> {
                &&& r.0 matches Ok(sample) && sample is None
                &&& r.1@ == Seq::<ImportNote>::empty()
            },
            reaches_native(facts, window) && !facts.image_ok ==> {
                &&& r.0 matches Ok(sample) && sample is None
                &&& r.1@ == seq![ImportNote::Fallback]
            },
            reaches_native(facts, window) && facts.image_ok ==> {
                let capture = ImportedSample {
                    key: window->Ok_0->0.key,
                    import: (facts.import->0).0,
                    footprint: (facts.import->0).1,
                };
                if current(capture, *live) {
                    &&& r.0 matches Ok(sample) && sample == Some(capture)
                    &&& r.1@ == seq![
                        ImportNote::Reads,
                        ImportNote::GuestBytes { bytes: capture.key.guest_read_bytes },
                    ]
                } else {
                    &&& r.0 matches Err(status) && status == WindowStatus::CaptureStale
                    &&& r.1@ == Seq::<ImportNote>::empty()
                }
            },
    {
        let mut notes: Vec<ImportNote> = Vec::new();
        if !facts.enabled || !facts.map_pages_owned || !facts.native_format {
            return (Ok(None), notes);
        }
        let window: Window = match window {
            Ok(Some(window)) => window,
            Ok(None) => {
                return (Ok(None), notes);
            },
            Err(status) => {
                return (Err(status), notes);
            },
        };
        let span: u64 = match facts.layout_span {
            Some(span) => span,
            None => {
                return (Ok(None), notes);
            },
        };
        match window.key.base.checked_add(span) {
            None => {
                return (Ok(None), notes);
            },
            Some(end) => {
                if end > facts.alloc_size as u64 {
                    return (Ok(None), notes);
                }
            },
        }
        let (import, footprint): (u64, u64) = match facts.import {
            Some(pair) => pair,
            None => {
                return (Ok(None), notes);
            },
        };
        if !facts.slice_ok || !facts.device_available {
            return (Ok(None), notes);
        }
        if !facts.image_ok {
            notes.push(ImportNote::Fallback);
            assert(notes@ =~= seq![ImportNote::Fallback]);
            return (Ok(None), notes);
        }
        let capture: ImportedSample = ImportedSample { key: window.key, import, footprint };
        if let Err(status) = capture.check(live) {
            return (Err(status), notes);
        }
        let bytes: u64 = capture.byte_len();
        notes.push(ImportNote::Reads);
        notes.push(ImportNote::GuestBytes { bytes });
        assert(notes@ =~= seq![ImportNote::Reads, ImportNote::GuestBytes { bytes }]);
        (Ok(Some(capture)), notes)
    }

    /// Whether a capture may be encoded: its mapping's backing is refreshed and
    /// its pages validated before it is checked.
    pub fn revalidate(&self, fresh: &Revalidation) -> (r: Result<(), WindowStatus>)
        ensures
            r == revalidated(*self, *fresh),
    {
        match fresh.backing {
            Err(status) => {
                return Err(status);
            },
            Ok(ours) => {
                if !ours || !fresh.pages_valid {
                    return Err(WindowStatus::MappingChanged);
                }
            },
        }
        self.check(&fresh.live)
    }
}

/// What revalidating a capture found.
pub struct Revalidation {
    /// The answer of the mapping's backing.
    pub backing: Result<bool, WindowStatus>,
    pub pages_valid: bool,
    pub live: LiveSurface,
}

/// Whether a capture may be encoded.
pub open spec fn revalidated(capture: ImportedSample, fresh: Revalidation) -> Result<
    (),
    WindowStatus,
> {
    match fresh.backing {
        Err(status) => Err(status),
        Ok(ours) => if !ours || !fresh.pages_valid {
            Err(WindowStatus::MappingChanged)
        } else if current(capture, fresh.live) {
            Ok(())
        } else {
            Err(WindowStatus::CaptureStale)
        },
    }
}

/// The in-place reads of one encode, each listed once.
pub struct ImportedReads {
    pub sources: Vec<Arc<ImportedSample>>,
}

/// The read is listed.
pub open spec fn listed(sources: Seq<Arc<ImportedSample>>, source: ImportedSample) -> bool {
    exists|k: int| 0 <= k < sources.len() && (#[trigger] sources[k]).reads_alike(source)
}

/// The first refusal among the reads from `n` on, revalidated one by one.
pub open spec fn revalidation_refusal(
    sources: Seq<Arc<ImportedSample>>,
    fresh: Seq<Revalidation>,
    n: int,
) -> Option<WindowStatus>
    decreases sources.len() - n,
{
    if n < 0 || n >= sources.len() {
        None
    } else {
        match revalidated(*sources[n], fresh[n]) {
            Err(status) => Some(status),
            Ok(_) => revalidation_refusal(sources, fresh, n + 1),
        }
    }
}

/// Every read still stands.
pub open spec fn all_current(sources: Seq<Arc<ImportedSample>>, live: Seq<LiveSurface>) -> bool {
    forall|k: int| 0 <= k < sources.len() ==> current(*(#[trigger] sources[k]), live[k])
}

impl ImportedReads {
    /// No reads.
    pub fn new() -> (reads: ImportedReads)
        ensures
            reads.sources@.len() == 0,
    {
        ImportedReads { sources: Vec::new() }
    }

    fn holds(&self, source: &ImportedSample) -> (r: bool)
        ensures
            r == listed(self.sources@, *source),
    {
        let mut n: usize = 0;
        while n < self.sources.len()
            invariant
                0 <= n <= self.sources@.len(),
                forall|k: int|
                    0 <= k < n ==> !(#[trigger] self.sources@[k]).reads_alike(*source),
            decreases self.sources@.len() - n,
        {
            if self.sources[n].same_view(source) {
                return true;
            }
            n += 1;
        }
        false
    }

    /// Lists a read unless the same one is listed already.
    pub fn retain(&mut self, source: &Arc<ImportedSample>)
        ensures
            final(self).sources@ == if listed(old(self).sources@, **source) {
                old(self).sources@
            } else {
                old(self).sources@.push(*source)
            },
    {
        if !self.holds(source) {
            self.sources.push(source.clone());
        }
    }

    /// Whether the whole set may be encoded. Revalidating one read may retire
    /// another's alias, so every read is checked once more at the end: `fresh`
    /// is what revalidating each found, `live` how each surface stands after
    /// the last of them.
    pub fn validate(&self, fresh: &Vec<Revalidation>, live: &Vec<LiveSurface>) -> (r: Result<
        (),
        WindowStatus,
    >)
        requires
            fresh@.len() == self.sources@.len(),
            live@.len() == self.sources@.len(),
        ensures
            match revalidation_refusal(self.sources@, fresh@, 0) {
                Some(status) => r == Err::<(), WindowStatus>(status),
                None => r == if all_current(self.sources@, live@) {
                    Ok::<(), WindowStatus>(())
                } else {
                    Err::<(), WindowStatus>(WindowStatus::CaptureStale)
                },
            },
    {
        let mut n: usize = 0;
        while n < self.sources.len()
            invariant
                0 <= n <= self.sources@.len(),
                fresh@.len() == self.sources@.len(),
                revalidation_refusal(self.sources@, fresh@, 0) == revalidation_refusal(
                    self.sources@,
                    fresh@,
                    n as int,
                ),
            decreases self.sources@.len() - n,
        {
            if let Err(status) = self.sources[n].revalidate(&fresh[n]) {
                return Err(status);
            }
            n += 1;
        }
        let mut k: usize = 0;
        while k < self.sources.len()
            invariant
                0 <= k <= self.sources@.len(),
                live@.len() == self.sources@.len(),
                revalidation_refusal(self.sources@, fresh@, 0) is None,
                forall|i: int|
                    0 <= i < k ==> current(*(#[trigger] self.sources@[i]), live@[i]),
            decreases self.sources@.len() - k,
        {
            if let Err(status) = self.sources[k].check(&live[k]) {
                assert(!current(*self.sources@[k as int], live@[k as int]));
                return Err(status);
            }
            k += 1;
        }
        Ok(())
    }

    /// Forgets every read.
    pub fn clear(&mut self)
        ensures
            final(self).sources@.len() == 0,
    {
        self.sources.clear();
    }
}

/// A surface pins its capture: two captures that both still stand on one surface
/// go through the same import and pages and read the same texels of the same
/// surface, in every generation and byte that they recorded of it.
pub proof fn law_a_surface_pins_its_capture(
    first: ImportedSample,
    second: ImportedSample,
    live: LiveSurface,
)
    requires
        current(first, live),
        current(second, live),
    ensures
        first.import == second.import,
        first.footprint == second.footprint,
        first.key.map_generation == second.key.map_generation,
        first.key.mapping_internal == second.key.mapping_internal,
        first.key.page_table_gpa == second.key.page_table_gpa,
        first.key.description.width == second.key.description.width,
        first.key.description.height == second.key.description.height,
        first.key.description.format == second.key.description.format,
        first.key.device_descriptor@ == second.key.device_descriptor@,
        first.key.base == second.key.base,
        first.key.pitch == second.key.pitch,
        first.key.end == second.key.end,
{
}

/// A capture stands on a surface that is mapped with its native image alive and
/// still has what the capture recorded; nothing else is asked of it.
pub proof fn law_an_unchanged_surface_keeps_its_capture(
    capture: ImportedSample,
    live: LiveSurface,
)
    ensures
        current(capture, live) ==> live.image_live && live.mapping is Some
            && live.mapping->0.mapped && live.mapping->0.has_geom,
        live.image_live && (live.mapping matches Some(m) && m.mapped && m.has_geom && m.import
            == Some(capture.import) && m.footprint == Some(capture.footprint) && m.map_generation
            == capture.key.map_generation && m.mapping_internal == capture.key.mapping_internal
            && m.page_table_gpa == capture.key.page_table_gpa && m.width
            == capture.key.description.width && m.height == capture.key.description.height
            && m.format == capture.key.description.format && m.device_descriptor is Some
            && m.device_descriptor->0@ == capture.key.device_descriptor@ && m.sample_window == Some(
            (capture.key.base, capture.key.pitch, capture.key.end),
        )) ==> current(capture, live),
{
}

/// A capture is encoded only with pages that are its mapping's own and valid, on
/// a surface it still stands on.
pub proof fn law_a_capture_is_encoded_only_while_it_stands(
    capture: ImportedSample,
    fresh: Revalidation,
)
    ensures
        revalidated(capture, fresh) is Ok <==> {
            &&& fresh.backing == Ok::<bool, WindowStatus>(true)
            &&& fresh.pages_valid
            &&& current(capture, fresh.live)
        },
        fresh.backing is Err ==> revalidated(capture, fresh) == Err::<(), WindowStatus>(
            fresh.backing->Err_0,
        ),
        revalidated(capture, fresh) == Err::<(), WindowStatus>(WindowStatus::CaptureStale)
            && fresh.backing is Ok ==> !current(capture, fresh.live) && fresh.pages_valid,
{
}

/// The read at `n` passes revalidation.
spec fn passes_at(
    sources: Seq<Arc<ImportedSample>>,
    fresh: Seq<Revalidation>,
    n: int,
) -> bool {
    revalidated(*sources[n], fresh[n]) is Ok
}

/// A set of reads passes revalidation exactly when each of them does, and is
/// refused for the first that does not.
pub proof fn law_every_read_is_revalidated(
    sources: Seq<Arc<ImportedSample>>,
    fresh: Seq<Revalidation>,
    n: int,
)
    requires
        0 <= n <= sources.len(),
    ensures
        revalidation_refusal(sources, fresh, n) is None <==> forall|k: int|
            n <= k < sources.len() ==> revalidated(*(#[trigger] sources[k]), fresh[k]) is Ok,
        revalidation_refusal(sources, fresh, n) matches Some(status) ==> exists|k: int|
            n <= k < sources.len() && revalidated(*(#[trigger] sources[k]), fresh[k]) == Err::<
                (),
                WindowStatus,
            >(status) && forall|j: int|
                n <= j < k ==> revalidated(*(#[trigger] sources[j]), fresh[j]) is Ok,
    decreases sources.len() - n,
{
    if n < sources.len() {
        law_every_read_is_revalidated(sources, fresh, n + 1);
        if let Some(status) = revalidation_refusal(sources, fresh, n) {
            if passes_at(sources, fresh, n) {
                let k = choose|k: int|
                    n + 1 <= k < sources.len() && revalidated(*(#[trigger] sources[k]), fresh[k])
                        == Err::<(), WindowStatus>(status) && forall|j: int|
                        n + 1 <= j < k ==> revalidated(*(#[trigger] sources[j]), fresh[j]) is Ok;
                assert(revalidated(*sources[k], fresh[k]) is Err);
            } else {
                assert(revalidated(*sources[n], fresh[n]) == Err::<(), WindowStatus>(status));
            }
        } else {
            assert(revalidated(*sources[n], fresh[n]) is Ok);
        }
    }
}

/// A native texture is made only over an enabled, owned and resolved window whose
/// texels it can read, and only where all the bytes it spans are the surface's.
pub proof fn law_a_native_texture_stays_in_its_surface(
    facts: ImportFacts,
    window: Result<Option<Window>, WindowStatus>,
)
    ensures
        reaches_native(facts, window) <==> {
            &&& facts.enabled && facts.map_pages_owned && facts.native_format
            &&& window is Ok && window->Ok_0 is Some
            &&& facts.layout_span is Some
            &&& (window->Ok_0->0).key.base + facts.layout_span->0 <= facts.alloc_size
            &&& facts.import is Some
            &&& facts.slice_ok
            &&& facts.device_available
        },
{
}

/// Two captures read alike exactly when they have the import and every part of the
/// window in common.
pub proof fn law_alike_reads_are_one_window(a: ImportedSample, b: ImportedSample)
    ensures
        a.reads_alike(b) == b.reads_alike(a),
        a.reads_alike(a),
        a.reads_alike(b) ==> a.import == b.import && a.key.description == b.key.description
            && a.key.pages@ == b.key.pages@ && a.key.base == b.key.base && a.key.end == b.key.end
            && a.key.pitch == b.key.pitch && a.key.content_generation == b.key.content_generation
            && a.key.map_generation == b.key.map_generation,
{
}

/// A set of reads stands only while each of its reads does, on its own surface.
pub proof fn law_a_set_stands_with_each_of_its_reads(
    sources: Seq<Arc<ImportedSample>>,
    live: Seq<LiveSurface>,
    k: int,
)
    requires
        0 <= k < sources.len(),
    ensures
        all_current(sources, live) ==> current(*sources[k], live[k]),
        !current(*sources[k], live[k]) ==> !all_current(sources, live),
        sources.len() == 1 && current(*sources[0], live[0]) ==> all_current(sources, live),
{
    assert(all_current(sources, live) ==> current(*sources[k], live[k]));
}

/// No two notes are counted under one name.
pub proof fn law_every_import_note_has_a_counter_of_its_own(a: ImportNote, b: ImportNote)
    ensures
        a.slug_text() == b.slug_text() ==> (a is Fallback <==> b is Fallback),
        a.slug_text() == b.slug_text() ==> (a is Reads <==> b is Reads),
        a.slug_text() == b.slug_text() ==> (a is GuestBytes <==> b is GuestBytes),
{
    reveal_strlit("metal_mapped_sample_fallback");
    reveal_strlit("metal_mapped_sample_reads");
    reveal_strlit("metal_mapped_sample_guest_bytes");
    assert("metal_mapped_sample_fallback"@.len() == 28);
    assert("metal_mapped_sample_reads"@.len() == 25);
    assert("metal_mapped_sample_guest_bytes"@.len() == 31);
}

} // verus!
