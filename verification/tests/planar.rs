use reims_vgpu::gather::{GatherOutcome, GatheredIdentity};
use reims_vgpu::planar::{
    resolve, ComputeStatus, Layout, Plane, PlanarMapping, PlanarNote, PlanarSource, PlanarStep,
    ResolvedView, RetainedPlanar, SourceKey, TextureDescription,
};
use reims_vgpu::scope::{BufferSnapshotScope, ScopeRegistry, SnapshotScopeRef};
use std::collections::HashMap;
use std::sync::Arc;

const PAGE_SHIFT_X86: u32 = 12;
const PAGE_SHIFT_ARM64E: u32 = 14;
const AUDIT_STRIDE: u32 = 17;
const VIDEO_RANGE: u32 = 1;
const FULL_RANGE: u32 = 2;
const RGB10_420: u16 = 0x1f0;
const YCBCR10_420: u16 = 0x1f1;

fn layout(backing_format: u32, first_offset: u32) -> Layout {
    Layout {
        allocation_size: 4096,
        backing_format,
        planes: vec![
            Plane {
                offset: first_offset,
                base: 0,
                size: 1024,
                width: 8,
                height: 4,
                bytes_per_row: 64,
                bytes_per_element: 2,
            },
            Plane {
                offset: 2048 + 128,
                base: 2048,
                size: 1024,
                width: 4,
                height: 2,
                bytes_per_row: 64,
                bytes_per_element: 4,
            },
        ],
    }
}

/// Guest memory with the write tracking a host offers over it.
#[derive(Default)]
struct Guest {
    memory: HashMap<u64, Vec<u8>>,
    guest_writes: HashMap<u64, u64>,
    host_writes: HashMap<u64, u64>,
    unnamed_writes: u64,
    guest_writes_unobservable: bool,
    guest_write_startup_window: bool,
    guest_write_current_supported: bool,
    guest_write_current_unavailable: bool,
    seen: HashMap<(Vec<u64>, u64), u64>,
    observations: u32,
    audited: Option<Vec<u8>>,
    revocations: u64,
}

impl Guest {
    fn guest_wrote_page(&mut self, page: u64) {
        *self.guest_writes.entry(page).or_default() += 1;
        self.guest_write_startup_window = false;
    }

    fn note_host_wrote_pages(&mut self, pages: Vec<u64>) {
        for page in pages {
            *self.host_writes.entry(page).or_default() += 1;
        }
    }

    fn note_host_wrote_guest_ram(&mut self) {
        self.unnamed_writes += 1;
    }

    fn host_epoch(&self) -> u64 {
        self.unnamed_writes + self.host_writes.values().sum::<u64>()
    }

    fn observe(&mut self, pages: &[u64], scope: u64) -> GatherOutcome {
        let current = self.guest_write_current_supported && !self.guest_write_current_unavailable;
        let token = if current { 1 } else { 2 + scope };
        self.observations += 1;
        let mut audit_bytes = 0;
        if self.observations % AUDIT_STRIDE == 0 {
            let bytes: Vec<u8> = pages.iter().flat_map(|p| self.memory[p].clone()).collect();
            audit_bytes = bytes.len() as u64;
            if self.audited.as_ref().is_some_and(|last| *last != bytes) {
                self.revocations += 1;
            }
            self.audited = Some(bytes);
        }
        let generation = self.unnamed_writes
            + (self.revocations << 32)
            + pages
                .iter()
                .map(|p| {
                    self.guest_writes.get(p).unwrap_or(&0) + self.host_writes.get(p).unwrap_or(&0)
                })
                .sum::<u64>();
        let before = self.seen.insert((pages.to_vec(), token), generation);
        GatherOutcome {
            vouched: before == Some(generation)
                && !self.guest_writes_unobservable
                && !self.guest_write_startup_window,
            cpu_read_settled: true,
            identity: GatheredIdentity { token, generation },
            audit_bytes,
        }
    }
}

struct Image {
    planes: [Vec<u8>; 2],
    layout: Layout,
    description: TextureDescription,
}

impl Image {
    fn plane_bytes(&self, plane: usize) -> &[u8] {
        &self.planes[plane]
    }
}

struct Fixture {
    guest: Guest,
    shift: u32,
    scopes: ScopeRegistry,
    scope: Option<BufferSnapshotScope>,
    held: RetainedPlanar<Image>,
    pages: Vec<u64>,
    map_generation: u32,
    content_generation: u32,
    backing_format: u32,
    first_offset: u32,
    format: u16,
    notes: Vec<PlanarNote>,
}

impl Fixture {
    fn new(shift: u32) -> Self {
        let mut scopes = ScopeRegistry::new();
        let scope = scopes.open();
        let mut f = Self {
            guest: Guest::default(),
            shift,
            scopes,
            scope: Some(scope),
            held: RetainedPlanar::new(),
            pages: vec![0x20 << shift],
            map_generation: 1,
            content_generation: 1,
            backing_format: VIDEO_RANGE,
            first_offset: 128,
            format: RGB10_420,
            notes: Vec::new(),
        };
        f.map_range(0x20 << shift, 0x5a);
        f
    }

    fn page(&self) -> u64 {
        1 << self.shift
    }

    fn gpa(&self) -> u64 {
        0x20 << self.shift
    }

    fn map_range(&mut self, gpa: u64, byte: u8) {
        let size = self.page() as usize;
        self.guest.memory.insert(gpa, vec![byte; size]);
    }

    fn next_scope(&mut self) {
        if let Some(scope) = self.scope.take() {
            self.scopes.close(scope);
        }
        self.scope = Some(self.scopes.open());
    }

    fn reference(&self) -> SnapshotScopeRef {
        self.scope.as_ref().unwrap().reference()
    }

    fn description(&self) -> TextureDescription {
        TextureDescription {
            mapping_id: 5,
            width: 8,
            height: 4,
            format: self.format,
        }
    }

    fn resolve(&self, source: &PlanarSource) -> Result<Option<SourceKey>, ComputeStatus> {
        resolve(
            source,
            Some(ResolvedView {
                pages: self.pages.clone(),
                page_size: self.page(),
                mapping: Some(PlanarMapping {
                    mapped: true,
                    map_generation: self.map_generation,
                    content_generation: self.content_generation,
                    layout: Some(layout(self.backing_format, self.first_offset)),
                }),
                writes_may_reach: false,
                run_fits: true,
            }),
        )
    }

    fn source(&self) -> PlanarSource {
        PlanarSource {
            description: self.description(),
            layout: layout(self.backing_format, self.first_offset),
            map_generation: self.map_generation,
        }
    }

    fn observe(
        &mut self,
        source: &PlanarSource,
        scope: u64,
    ) -> Result<Option<(SourceKey, GatherOutcome)>, ComputeStatus> {
        let Some(key) = self.resolve(source)? else {
            return Ok(None);
        };
        let outcome = self.guest.observe(&key.pages, scope);
        Ok(Some((key, outcome)))
    }

    fn fill(&mut self) -> Result<Image, ComputeStatus> {
        let bytes = &self.guest.memory[&self.pages[0]];
        Ok(Image {
            planes: [bytes[..1024].to_vec(), bytes[2048..3072].to_vec()],
            layout: layout(self.backing_format, self.first_offset),
            description: self.description(),
        })
    }

    fn stage_with(
        &mut self,
        scope: Option<SnapshotScopeRef>,
        fill: impl FnOnce(&mut Fixture) -> Result<Image, ComputeStatus>,
    ) -> Result<Arc<Image>, ComputeStatus> {
        let source = self.source();
        let scope_id = scope.and_then(|s| s.current(&self.scopes));
        let before = match scope_id {
            None => None,
            Some(id) => Some((id, self.observe(&source, id)?)),
        };
        let now = scope.and_then(|s| s.current(&self.scopes));
        let pending = match self.held.stage(&source.layout, before, now) {
            PlanarStep::Reuse { image, notes } => {
                self.notes.extend(notes);
                return Ok(image);
            }
            PlanarStep::Fill { pending, notes } => {
                self.notes.extend(notes);
                pending
            }
        };
        let image = Arc::new(fill(self)?);
        let after = match (&pending, scope_id) {
            (Some(_), Some(id)) => self.observe(&source, id)?,
            _ => None,
        };
        let now = scope.and_then(|s| s.current(&self.scopes));
        let notes = self.held.finish(true, pending, after, now, &image);
        self.notes.extend(notes);
        Ok(image)
    }

    fn capture(&mut self) -> Arc<Image> {
        let scope = Some(self.reference());
        self.stage_with(scope, Fixture::fill).unwrap()
    }

    fn fragment(&mut self) -> Arc<Image> {
        self.capture()
    }

    fn write(&mut self, byte: u8) {
        let page = self.pages[0];
        self.guest.memory.get_mut(&page).unwrap().fill(byte);
    }

    fn delete_object(&mut self) {
        self.held = RetainedPlanar::new();
    }
}

#[test]
fn both_quiet_reuses_within_render_scope_but_not_for_unscoped_compute() {
    let mut f = Fixture::new(PAGE_SHIFT_ARM64E);
    let first = f.fragment();
    for _ in 0..128 {
        let scope = Some(f.reference());
        let second = f
            .stage_with(scope, |_| {
                panic!("a vouched hit must not allocate or fill an IOSurface")
            })
            .unwrap();
        assert!(Arc::ptr_eq(&first, &second));
    }
    let compute = f.stage_with(None, Fixture::fill).unwrap();
    assert!(!Arc::ptr_eq(&first, &compute));
    assert!(f.held.is_empty());
    assert_eq!(first.plane_bytes(0), &[0x5a; 1024]);
    assert_eq!(first.plane_bytes(1), &[0x5a; 1024]);
}

#[test]
fn guest_cpu_write_restages_even_when_host_epochs_are_quiet() {
    let mut f = Fixture::new(PAGE_SHIFT_ARM64E);
    let first = f.fragment();
    let epoch = f.guest.host_epoch();
    f.write(0x61);
    f.guest.guest_wrote_page(f.gpa());
    assert_eq!(f.guest.host_epoch(), epoch);
    let second = f.fragment();
    assert!(!Arc::ptr_eq(&first, &second));
    assert_eq!(first.plane_bytes(0), &[0x5a; 1024]);
    assert_eq!(second.plane_bytes(1), &[0x61; 1024]);
    assert!(Arc::ptr_eq(&second, &f.fragment()));
}

#[test]
fn current_write_observations_reuse_across_passes_but_never_trust_unharvested_writes() {
    let mut f = Fixture::new(PAGE_SHIFT_ARM64E);
    f.guest.guest_write_current_supported = true;
    let first = f.fragment();
    f.next_scope();
    assert!(Arc::ptr_eq(&first, &f.fragment()));
    f.write(0x73);
    f.guest.guest_write_current_unavailable = true;
    let changed = f.fragment();
    assert!(!Arc::ptr_eq(&first, &changed));
    assert_eq!(changed.plane_bytes(0), &[0x73; 1024]);
    assert_eq!(first.plane_bytes(0), &[0x5a; 1024]);
    f.guest.guest_wrote_page(f.gpa());
    f.guest.guest_write_current_unavailable = false;
    let current = f.fragment();
    f.next_scope();
    assert!(Arc::ptr_eq(&current, &f.fragment()));
    f.guest.guest_write_current_supported = false;
    f.next_scope();
    f.write(0x91);
    let deferred = f.fragment();
    assert!(!Arc::ptr_eq(&current, &deferred));
    assert_eq!(deferred.plane_bytes(1), &[0x91; 1024]);
}

#[test]
fn exact_host_page_write_restages_but_disjoint_writes_do_not() {
    let mut f = Fixture::new(PAGE_SHIFT_ARM64E);
    let first = f.fragment();
    f.guest.note_host_wrote_pages(vec![f.gpa() + f.page()]);
    assert!(Arc::ptr_eq(&first, &f.fragment()));
    f.guest.note_host_wrote_pages(vec![f.gpa()]);
    f.write(0x62);
    let second = f.fragment();
    assert!(!Arc::ptr_eq(&first, &second));
    assert_eq!(second.plane_bytes(0), &[0x62; 1024]);
    assert!(Arc::ptr_eq(&second, &f.fragment()));
    f.guest.note_host_wrote_guest_ram();
    assert!(
        !Arc::ptr_eq(&second, &f.fragment()),
        "an unnamed write fails closed"
    );
}

#[test]
fn planar_expired_or_absent_scope_always_reads_fresh_planes() {
    let mut f = Fixture::new(PAGE_SHIFT_ARM64E);
    f.fragment();
    let expired = f.reference();
    f.next_scope();
    assert!(expired.current(&f.scopes).is_none());
    for scope in [Some(expired), None] {
        for byte in [0x61, 0x72] {
            f.write(byte);
            let image = f.stage_with(scope, Fixture::fill).unwrap();
            for plane in 0..2 {
                assert_eq!(image.plane_bytes(plane), &[byte; 1024]);
            }
            assert!(f.held.latest.is_none());
        }
    }
}

#[test]
fn planar_scope_ending_during_fill_cannot_retain_an_image() {
    let mut f = Fixture::new(PAGE_SHIFT_ARM64E);
    let owner = f.scopes.open();
    let scope = Some(owner.reference());
    let image = f
        .stage_with(scope, |f| {
            let image = f.fill()?;
            f.scopes.close(owner);
            Ok(image)
        })
        .unwrap();
    assert_eq!(image.plane_bytes(0), &[0x5a; 1024]);
    assert!(f.held.latest.is_none());
}

#[test]
fn unobservable_or_unreadable_guest_tracking_never_retains() {
    for unobservable in [true, false] {
        let mut f = Fixture::new(PAGE_SHIFT_ARM64E);
        f.guest.guest_writes_unobservable = unobservable;
        f.guest.guest_write_startup_window = !unobservable;
        let first = f.fragment();
        f.write(0x63);
        let second = f.fragment();
        assert!(!Arc::ptr_eq(&first, &second));
        assert_eq!(second.plane_bytes(1), &[0x63; 1024]);
        assert!(f.held.latest.is_none());
        if !unobservable {
            // The first observable write closes the arming window.
            f.guest.guest_wrote_page(f.gpa());
            let armed = f.fragment();
            assert!(!Arc::ptr_eq(&second, &armed));
            assert!(Arc::ptr_eq(&armed, &f.fragment()));
        }
    }
}

#[test]
fn remapped_physical_pages_and_stated_content_generation_cannot_hit() {
    let mut f = Fixture::new(PAGE_SHIFT_ARM64E);
    let first = f.fragment();
    f.map_generation += 1;
    let moved = f.gpa() + f.page();
    f.map_range(moved, 0x64);
    f.pages = vec![moved];
    let second = f.fragment();
    assert!(!Arc::ptr_eq(&first, &second));
    assert_eq!(second.plane_bytes(1), &[0x64; 1024]);
    assert!(Arc::ptr_eq(&second, &f.fragment()));
    f.content_generation += 1;
    assert!(!Arc::ptr_eq(&second, &f.fragment()));
}

#[test]
fn complete_layout_and_texture_description_are_cache_identity() {
    let mut f = Fixture::new(PAGE_SHIFT_ARM64E);
    let first = f.fragment();
    // Same bytes, dimensions and allocation size, different native conversion.
    f.backing_format = FULL_RANGE;
    let second = f.fragment();
    assert!(!Arc::ptr_eq(&first, &second));
    assert_eq!(second.layout.backing_format, FULL_RANGE);
    // Offset is independent of base/size: a compact key must not lose it.
    f.first_offset = 192;
    let third = f.fragment();
    assert!(!Arc::ptr_eq(&second, &third));
    assert_eq!(third.layout.planes[0].offset, 192);
    f.format = YCBCR10_420;
    let fourth = f.fragment();
    assert!(!Arc::ptr_eq(&third, &fourth));
    assert_eq!(fourth.description.format, YCBCR10_420);
    assert!(Arc::ptr_eq(&fourth, &f.fragment()));
}

#[test]
fn writes_during_fill_cannot_publish_under_the_post_write_generation() {
    for guest in [false, true] {
        let mut f = Fixture::new(PAGE_SHIFT_ARM64E);
        let scope = Some(f.reference());
        let image = f
            .stage_with(scope, |f| {
                let first = f.fill()?.planes[0].clone();
                if guest {
                    f.guest.guest_wrote_page(f.gpa());
                } else {
                    f.guest.note_host_wrote_pages(vec![f.gpa()]);
                }
                f.write(0x65);
                let mut image = f.fill()?;
                image.planes[0] = first;
                Ok(image)
            })
            .unwrap();
        assert!(f.held.latest.is_none());
        assert_eq!(image.plane_bytes(0), &[0x5a; 1024]);
        assert_eq!(image.plane_bytes(1), &[0x65; 1024]);
        let next = f.fragment();
        assert!(!Arc::ptr_eq(&image, &next));
        assert_eq!(next.plane_bytes(1), &[0x65; 1024]);
        assert!(Arc::ptr_eq(&next, &f.fragment()));
    }
}

#[test]
fn failed_fill_drops_the_previous_entry_without_touching_inflight_images() {
    let mut f = Fixture::new(PAGE_SHIFT_ARM64E);
    let first = f.fragment();
    f.guest.guest_wrote_page(f.gpa());
    let scope = Some(f.reference());
    let result = f.stage_with(scope, |_| Err(ComputeStatus::MappingRead));
    let status = result.err().unwrap();
    assert_eq!(status, ComputeStatus::MappingRead);
    assert_eq!(status.slug(), "planar_mapping_read");
    assert_eq!(Arc::strong_count(&first), 1);
    assert_eq!(first.plane_bytes(1), &[0x5a; 1024]);
    assert!(!Arc::ptr_eq(&first, &f.fragment()));
}

#[test]
fn resource_deletion_and_reset_release_the_entry_but_not_inflight_arc() {
    for reset in [false, true] {
        let mut f = Fixture::new(PAGE_SHIFT_ARM64E);
        let inflight = f.fragment();
        let weak = Arc::downgrade(&inflight);
        assert_eq!(Arc::strong_count(&inflight), 2);
        if reset {
            drop(f);
        } else {
            f.delete_object();
            assert!(f.held.is_empty());
        }
        assert_eq!(Arc::strong_count(&inflight), 1);
        assert_eq!(inflight.plane_bytes(0), &[0x5a; 1024]);
        drop(inflight);
        assert!(weak.upgrade().is_none());
    }
}

#[test]
fn separate_devices_never_share_images_for_equal_numeric_keys() {
    let mut a = Fixture::new(PAGE_SHIFT_ARM64E);
    let mut b = Fixture::new(PAGE_SHIFT_ARM64E);
    b.write(0x66);
    let first = a.fragment();
    let second = b.fragment();
    assert!(!Arc::ptr_eq(&first, &second));
    assert_eq!(first.plane_bytes(0), &[0x5a; 1024]);
    assert_eq!(second.plane_bytes(0), &[0x66; 1024]);
}

#[test]
fn audit_folds_actual_guest_bytes_not_the_cached_image() {
    let mut f = Fixture::new(PAGE_SHIFT_ARM64E);
    let first = f.fragment();
    // A continuing escaping writer: every audit pair sees different guest bytes
    // but the immutable cached image never moves.
    for bind in 0..=2 * AUDIT_STRIDE {
        let byte = 0x67 + (bind % 2) as u8;
        f.write(byte);
        let next = f.fragment();
        if !Arc::ptr_eq(&first, &next) {
            assert_eq!(next.plane_bytes(1), &[byte; 1024]);
            return;
        }
    }
    panic!("the guest-content audit never invalidated the stale image");
}

#[test]
fn planar_snapshot_quiet_scope_reuses_without_filling_on_both_page_geometries() {
    for shift in [PAGE_SHIFT_X86, PAGE_SHIFT_ARM64E] {
        let mut f = Fixture::new(shift);
        let first = f.capture();
        for _ in 0..128 {
            let scope = Some(f.reference());
            let next = f
                .stage_with(scope, |_| {
                    panic!("a vouched hit must not read or convert planes")
                })
                .unwrap();
            assert!(Arc::ptr_eq(&first, &next));
        }
        assert_eq!(first.planes[0], vec![0x5a; 1024]);
        assert_eq!(first.planes[1], vec![0x5a; 1024]);
    }
}

#[test]
fn planar_snapshot_current_proof_crosses_passes_but_delayed_proof_does_not() {
    for shift in [PAGE_SHIFT_X86, PAGE_SHIFT_ARM64E] {
        for current in [false, true] {
            let mut f = Fixture::new(shift);
            f.guest.guest_write_current_supported = current;
            let first = f.capture();
            f.next_scope();
            assert_eq!(Arc::ptr_eq(&first, &f.capture()), current);
        }
    }
}

#[test]
fn planar_snapshot_observation_quality_changes_force_fresh_capture() {
    let mut f = Fixture::new(PAGE_SHIFT_ARM64E);
    f.guest.guest_write_current_supported = true;
    let first = f.capture();
    f.guest.guest_write_current_unavailable = true;
    f.write(0x61);
    let delayed = f.capture();
    assert!(!Arc::ptr_eq(&first, &delayed));
    assert_eq!(delayed.planes[0], vec![0x61; 1024]);
    f.guest.guest_write_current_unavailable = false;
    f.write(0x62);
    let current = f.capture();
    assert!(!Arc::ptr_eq(&delayed, &current));
    assert_eq!(current.planes[0], vec![0x62; 1024]);
}

#[test]
fn planar_snapshot_guest_and_overlapping_host_writes_invalidate_but_disjoint_writes_do_not() {
    for shift in [PAGE_SHIFT_X86, PAGE_SHIFT_ARM64E] {
        let mut f = Fixture::new(shift);
        let first = f.capture();
        f.guest.note_host_wrote_pages(vec![0x21 << shift]);
        assert!(Arc::ptr_eq(&first, &f.capture()));
        f.write(0x63);
        f.guest.note_host_wrote_pages(vec![0x20 << shift]);
        let host_written = f.capture();
        assert!(!Arc::ptr_eq(&first, &host_written));
        assert_eq!(host_written.planes[0], vec![0x63; 1024]);
        f.write(0x64);
        f.guest.guest_wrote_page(0x20 << shift);
        assert_eq!(f.capture().planes[1], vec![0x64; 1024]);
    }
}

#[test]
fn planar_snapshot_unscoped_or_expired_capture_never_tracks_or_retains() {
    let mut f = Fixture::new(PAGE_SHIFT_X86);
    let first = f.capture();
    let expired = f.reference();
    f.next_scope();
    for scope in [Some(expired), None] {
        f.write(0x65);
        let image = f.stage_with(scope, Fixture::fill).unwrap();
        assert!(!Arc::ptr_eq(&first, &image));
        assert_eq!(image.planes[1], vec![0x65; 1024]);
        assert!(f.held.is_empty());
    }
    let mut fresh = Fixture::new(PAGE_SHIFT_X86);
    fresh.stage_with(None, Fixture::fill).unwrap();
    assert_eq!(fresh.guest.seen.len(), 0);
}

#[test]
fn planar_snapshot_backing_and_layout_changes_cannot_hit() {
    let mut f = Fixture::new(PAGE_SHIFT_X86);
    let first = f.capture();
    f.map_range(0x21 << PAGE_SHIFT_X86, 0x68);
    f.map_generation += 1;
    f.pages = vec![0x21 << PAGE_SHIFT_X86];
    let remapped = f.capture();
    assert!(!Arc::ptr_eq(&first, &remapped));
    assert_eq!(remapped.planes[0], vec![0x68; 1024]);
    f.backing_format = FULL_RANGE;
    let changed_layout = f.capture();
    assert!(!Arc::ptr_eq(&remapped, &changed_layout));
    f.content_generation += 1;
    assert!(!Arc::ptr_eq(&changed_layout, &f.capture()));
}

#[test]
fn planar_snapshot_unobservable_guest_writes_never_reuse() {
    let mut f = Fixture::new(PAGE_SHIFT_X86);
    f.guest.guest_writes_unobservable = true;
    let first = f.capture();
    f.write(0x66);
    let second = f.capture();
    assert!(!Arc::ptr_eq(&first, &second));
    assert_eq!(second.planes[0], vec![0x66; 1024]);
}

#[test]
fn planar_snapshot_failed_fill_discards_candidate_but_preserves_submitted_copy() {
    let mut f = Fixture::new(PAGE_SHIFT_X86);
    let first = f.capture();
    f.guest.guest_wrote_page(0x20 << PAGE_SHIFT_X86);
    let scope = Some(f.reference());
    let result = f.stage_with(scope, |_| Err(ComputeStatus::MappingRead));
    assert_eq!(result.err().unwrap().slug(), "planar_mapping_read");
    assert_eq!(Arc::strong_count(&first), 1);
    assert_eq!(first.planes[1], vec![0x5a; 1024]);
}

#[test]
fn planar_snapshot_mutation_or_scope_end_during_fill_cannot_publish_candidate() {
    for mutate in [false, true] {
        let mut f = Fixture::new(PAGE_SHIFT_ARM64E);
        let scope = Some(f.reference());
        f.stage_with(scope, |f| {
            let result = f.fill()?;
            if mutate {
                f.guest.guest_wrote_page(0x20 << PAGE_SHIFT_ARM64E);
            } else {
                let scope = f.scope.take().unwrap();
                f.scopes.close(scope);
            }
            Ok(result)
        })
        .unwrap();
        assert!(f.held.is_empty());
    }
}

#[test]
fn planar_snapshot_resource_retirement_drops_cache_not_inflight_bytes() {
    for reset in [false, true] {
        let mut f = Fixture::new(PAGE_SHIFT_X86);
        let image = f.capture();
        assert_eq!(Arc::strong_count(&image), 2);
        if reset {
            drop(f);
        } else {
            f.delete_object();
        }
        assert_eq!(Arc::strong_count(&image), 1);
        assert_eq!(image.planes[0], vec![0x5a; 1024]);
    }
}

#[test]
fn vulkan_planar_snapshot_keeps_exact_expansion_and_fresh_compute_staging() {
    for shift in [PAGE_SHIFT_X86, PAGE_SHIFT_ARM64E] {
        let mut f = Fixture::new(shift);
        let stage = |f: &mut Fixture, scoped: bool| {
            let scope = if scoped { Some(f.reference()) } else { None };
            f.stage_with(scope, Fixture::fill).unwrap()
        };
        let first = stage(&mut f, true);
        assert!(Arc::ptr_eq(&first, &stage(&mut f, true)));
        let compute = stage(&mut f, false);
        assert!(!Arc::ptr_eq(&first, &compute));
        assert_eq!(first.planes, compute.planes);
        f.write(0x67);
        f.guest.guest_wrote_page(0x20 << shift);
        let fresh = stage(&mut f, true);
        assert_ne!(first.planes, fresh.planes);
        let checked = stage(&mut f, false);
        assert_eq!(fresh.planes, checked.planes);
    }
}

#[test]
fn planar_staging_counts_each_route_it_takes() {
    let mut f = Fixture::new(PAGE_SHIFT_X86);
    f.capture();
    assert_eq!(f.notes, vec![PlanarNote::Misses]);
    f.notes.clear();
    f.capture();
    assert_eq!(
        f.notes,
        vec![PlanarNote::Reuses, PlanarNote::ReuseBytes { bytes: 2048 }]
    );
    f.notes.clear();
    f.stage_with(None, Fixture::fill).unwrap();
    assert_eq!(
        f.notes,
        vec![PlanarNote::Unscoped, PlanarNote::Misses, PlanarNote::Unretained]
    );
}

#[test]
fn resolving_refuses_a_mapping_that_is_gone_or_is_another_one() {
    let f = Fixture::new(PAGE_SHIFT_X86);
    let view = |mapping: Option<PlanarMapping>, writes_may_reach: bool, run_fits: bool| {
        Some(ResolvedView {
            pages: vec![0x20_000],
            page_size: 4096,
            mapping,
            writes_may_reach,
            run_fits,
        })
    };
    let mapping = |map_generation: u32, offset: u32| {
        Some(PlanarMapping {
            mapped: true,
            map_generation,
            content_generation: 1,
            layout: Some(layout(VIDEO_RANGE, offset)),
        })
    };
    assert!(matches!(
        resolve(&f.source(), view(None, false, true)),
        Err(ComputeStatus::MappingMissing)
    ));
    assert_eq!(ComputeStatus::MappingMissing.slug(), "planar_mapping_missing");
    for changed in [mapping(2, 128), mapping(1, 192)] {
        assert!(matches!(
            resolve(&f.source(), view(changed, false, true)),
            Err(ComputeStatus::MappingChanged)
        ));
    }
    assert_eq!(ComputeStatus::MappingChanged.slug(), "planar_mapping_changed");
    // No contiguous view, a write in flight, or a run outside the view: no key.
    assert!(matches!(resolve(&f.source(), None), Ok(None)));
    assert!(matches!(
        resolve(&f.source(), view(mapping(1, 128), true, true)),
        Ok(None)
    ));
    assert!(matches!(
        resolve(&f.source(), view(mapping(1, 128), false, false)),
        Ok(None)
    ));
    let key = resolve(&f.source(), view(mapping(1, 128), false, true))
        .unwrap_or(None)
        .unwrap();
    assert_eq!((key.map_generation, key.content_generation), (1, 1));
    assert_eq!(key.pages, vec![0x20_000]);
    assert_eq!(key.layout.planes[1].base, 2048);
}
