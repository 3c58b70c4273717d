use reims_vgpu::gather::{GatherOutcome, GatheredIdentity};
use reims_vgpu::planar::{Layout, Plane, TextureDescription};
use reims_vgpu::sampled::description::{Description, Fallback, NarrowBody, SurfaceTexture, TextureResource};
use reims_vgpu::sampled::load::{
    direct_surface, load_resident, load_step, retain_packed, surface_step, LoadAction, LoadEvent,
    LoadObject, LoadRefusal, LoadShape, MappingAnswer, PackedOwner, RawTexels, ResidentNote,
    RetainReport, SurfaceAction, SurfaceEvent,
};
use reims_vgpu::sampled::packed::{
    MappingNote, MappingStep, PackedImage, PackedLayout, PackedNote, PackedStatus, RetainedPacked,
};
use reims_vgpu::sampled::upload::{
    PlanarImage, PublishedSample, ResidentImage, SampledBinding, SampledUpload,
};
use reims_vgpu::sampled::window::{
    must_walk, refresh_backing, resolve, BackingState, BackingWalk, DeviceSurface, PagesVerdict,
    SurfaceMapping, Window, WindowKey, WindowStatus, WindowView,
};
use reims_vgpu::scope::{BufferSnapshotScope, ScopeRegistry, SnapshotScopeRef};
use std::collections::HashMap;
use std::sync::Arc;

const PAGE_SHIFT_ARM64E: u32 = 14;
const AUDIT_STRIDE: u32 = 17;
const MTL_FORMAT_RGBA8_UNORM: u16 = 70;
const MTL_FORMAT_BGRA8_UNORM: u16 = 80;
const MTL_FORMAT_RGBA16_FLOAT: u16 = 115;
const TEXTURE_BINDING_BASE: u32 = 32;

const MID: u32 = 5;
const REF: u32 = 11;
const PAGE: usize = 1 << PAGE_SHIFT_ARM64E;
const GPA: u64 = 9 << PAGE_SHIFT_ARM64E;
const BASE: usize = 64;
const PITCH: usize = 48;
const PIXEL: [u8; 4] = [11, 37, 89, 255];

const USAGE_SHADER_READ: u8 = 1;
const USAGE_SHADER_WRITE: u8 = 2;
const USAGE_RENDER_TARGET: u8 = 4;
const USAGE_DECLARED: u8 = 0x37;

/// Guest memory with the write tracking a host offers over it.
#[derive(Default)]
struct Guest {
    memory: HashMap<u64, Vec<u8>>,
    guest_writes: HashMap<u64, u64>,
    host_writes: HashMap<u64, u64>,
    unnamed_writes: u64,
    guest_writes_unobservable: bool,
    guest_write_startup_window: bool,
    seen: HashMap<(Vec<u64>, u64), u64>,
    observations: u32,
    audited: Option<Vec<u8>>,
    revocations: u64,
}

impl Guest {
    fn guest_wrote_page(&mut self, page: u64) {
        *self.guest_writes.entry(page).or_default() += 1;
        self.guest_write_startup_window = false;
    }

    fn note_host_wrote_pages(&mut self, pages: Vec<u64>) {
        for page in pages {
            *self.host_writes.entry(page).or_default() += 1;
        }
    }

    fn observe(&mut self, window: &Window, scope: Option<u64>) -> GatherOutcome {
        let key = &window.key;
        let pages = &key.pages[window.first_page..window.end_page];
        let token = 2 + scope.unwrap_or(0);
        self.observations += 1;
        let mut audit_bytes = 0;
        if self.observations % AUDIT_STRIDE == 0 {
            let whole: Vec<u8> = key.pages.iter().flat_map(|p| self.memory[p].clone()).collect();
            let bytes = whole[key.base as usize..key.end as usize].to_vec();
            audit_bytes = bytes.len() as u64;
            if self.audited.as_ref().is_some_and(|last| *last != bytes) {
                self.revocations += 1;
            }
            self.audited = Some(bytes);
        }
        let generation = self.unnamed_writes
            + (self.revocations << 32)
            + pages
                .iter()
                .map(|p| {
                    self.guest_writes.get(p).unwrap_or(&0) + self.host_writes.get(p).unwrap_or(&0)
                })
                .sum::<u64>();
        let before = self.seen.insert((pages.to_vec(), token), generation);
        GatherOutcome {
            vouched: before == Some(generation)
                && scope.is_some()
                && !self.guest_writes_unobservable
                && !self.guest_write_startup_window,
            cpu_read_settled: true,
            identity: GatheredIdentity { token, generation },
            audit_bytes,
        }
    }
}

struct Fixture {
    guest: Guest,
    scopes: ScopeRegistry,
    scope: Option<BufferSnapshotScope>,
    held: RetainedPacked,
    descriptor: Vec<u8>,
    mapped: bool,
    map_generation: u32,
    content_generation: u32,
    surface_content_epoch: u32,
    mapping_internal: u64,
    width: u32,
    format: u16,
    declared_format: u16,
    alloc_size: u32,
    base: usize,
    pitch: usize,
    bpp: usize,
    pages: Vec<u64>,
    /// The page table a backing walk reads; zero is an absent entry.
    table: Option<Vec<u64>>,
    next_id: u64,
    notes: Vec<MappingNote>,
}

impl Fixture {
    fn new() -> Self {
        let mut scopes = ScopeRegistry::new();
        let scope = scopes.open();
        let mut descriptor = vec![0u8; 56];
        descriptor[0] = MID as u8;
        descriptor[8] = 0x2f;
        descriptor[12] = 48;
        descriptor[16] = REF as u8;
        descriptor[20] = 0x42;
        descriptor[21] = 1;
        descriptor[22] = MTL_FORMAT_BGRA8_UNORM as u8;
        descriptor[24] = 8;
        descriptor[28] = 4;
        descriptor[32] = 1;
        descriptor[36] = 1;
        descriptor[38] = 1;
        descriptor[40] = 1;
        descriptor[42] = 0x10;
        let mut f = Self {
            guest: Guest::default(),
            scopes,
            scope: Some(scope),
            held: RetainedPacked::new(),
            descriptor,
            mapped: true,
            map_generation: 1,
            content_generation: 1,
            surface_content_epoch: 1,
            mapping_internal: 1,
            width: 8,
            format: MTL_FORMAT_BGRA8_UNORM,
            declared_format: MTL_FORMAT_BGRA8_UNORM,
            alloc_size: PAGE as u32,
            base: BASE,
            pitch: PITCH,
            bpp: 4,
            pages: vec![GPA],
            table: None,
            next_id: 1,
            notes: Vec::new(),
        };
        f.map_range(GPA);
        f.write(PIXEL);
        f
    }

    fn map_range(&mut self, gpa: u64) {
        self.guest.memory.insert(gpa, vec![0; PAGE]);
    }

    fn write_at(&mut self, gpa: u64, pixel: [u8; 4]) {
        let (base, pitch) = (self.base, self.pitch);
        let memory = self.guest.memory.get_mut(&gpa).unwrap();
        for y in 0..4 {
            memory[base + y * pitch..base + y * pitch + 32].copy_from_slice(&pixel.repeat(8));
        }
    }

    fn write(&mut self, pixel: [u8; 4]) {
        self.write_at(GPA, pixel);
    }

    fn resource(&self) -> TextureResource {
        let b = &self.descriptor;
        let half = |at: usize| u32::from(b[at]) | u32::from(b[at + 1]) << 8;
        TextureResource {
            mapper_ref_texture: true,
            surface: Some(SurfaceTexture {
                mapping_id: MID,
                object_ref: half(16),
                pixel_format: self.declared_format,
                width: half(24),
                height: half(28),
            }),
            descriptor: b.clone(),
            view_only: false,
            body: Some(NarrowBody {
                object_ref: half(16),
                plane: half(52),
                texture_type: u32::from(b[20] & 0xf),
                depth: half(32),
                mipmap_level_count: half(36),
                sample_count: half(38),
                array_length: half(40),
                undeclared_usage: u32::from(b[21] & !USAGE_DECLARED),
                unidentified_flags: 0,
                unidentified_u64: 0,
                resource_options: half(42) as u16,
                cpu_cache_mode: 0,
                storage_mode: 1,
                hazard_tracking_mode: 0,
            }),
            planar_format: false,
            extent_ok: true,
            converts_to_rgba8: true,
        }
    }

    fn source(&self) -> Description {
        Description::decode(&self.resource(), REF).unwrap()
    }

    fn refresh(&mut self) -> Result<bool, WindowStatus> {
        let state = Some(BackingState {
            mapped: self.mapped,
            has_backing_walk: self.table.is_some(),
            mapping_internal: self.mapping_internal,
            has_page_entries: !self.pages.is_empty(),
        });
        let verdict = match &self.table {
            Some(_) if self.pages.is_empty() => PagesVerdict::Unwitnessed,
            Some(table) if *table == self.pages => PagesVerdict::Ours,
            Some(_) => PagesVerdict::Drifted,
            None => PagesVerdict::Unwitnessed,
        };
        let mut rebuilt = false;
        if must_walk(&state, verdict) {
            let table = self.table.clone().unwrap();
            self.map_generation += 1;
            if table.iter().all(|page| *page != 0) {
                self.pages = table;
                rebuilt = true;
            } else {
                self.pages.clear();
            }
        }
        refresh_backing(&state, verdict, rebuilt)
    }

    fn window(&mut self, description: Description) -> Result<Option<Window>, WindowStatus> {
        if !self.refresh()? {
            return Ok(None);
        }
        let mut device_descriptor = self.alloc_size.to_le_bytes().to_vec();
        device_descriptor.extend(self.format.to_le_bytes());
        device_descriptor.extend(self.width.to_le_bytes());
        Ok(resolve(
            description,
            WindowView {
                mapped_len: (self.pages.len() * PAGE) as u64,
                pages: self.pages.clone(),
                page_size: PAGE as u64,
                published: false,
                mapping: Some(SurfaceMapping {
                    mapped: self.mapped,
                    has_geom: true,
                    width: self.width,
                    height: 4,
                    format: self.format,
                    multiplanar: false,
                    map_generation: self.map_generation,
                    content_generation: self.content_generation,
                    surface_content_epoch: self.surface_content_epoch,
                    mapping_internal: self.mapping_internal,
                    page_table_gpa: None,
                    backing_walk: self.table.as_ref().map(|_| BackingWalk {
                        task: 1,
                        gva: 5 << PAGE_SHIFT_ARM64E,
                        map_generation: self.map_generation,
                    }),
                    device_descriptor: Some(device_descriptor),
                    surface: Some(DeviceSurface {
                        plane_count: 0,
                        alloc_size: self.alloc_size,
                        width: self.width,
                        height: 4,
                        format: self.format,
                    }),
                    sample_window: Some((
                        self.base as u64,
                        self.pitch as u32,
                        (self.base + 3 * self.pitch + self.width as usize * self.bpp) as u64,
                    )),
                }),
                tight_row: Some(self.width * self.bpp as u32),
                run_fits: true,
                writes_may_reach: false,
            },
        ))
    }

    fn observe(
        &mut self,
        description: Description,
        scope: Option<u64>,
    ) -> Result<Option<(WindowKey, GatherOutcome)>, WindowStatus> {
        let Some(window) = self.window(description)? else {
            return Ok(None);
        };
        let seen = self.guest.observe(&window, scope);
        Ok(Some((window.key, seen)))
    }

    /// The ordinary route: read, convert, compare, upload.
    fn load_rgba_packed(&mut self) -> Option<Arc<PackedImage>> {
        if !self.mapped || self.pages.is_empty() {
            return None;
        }
        let memory = &self.guest.memory[&self.pages[0]];
        let mut bytes = Vec::new();
        for y in 0..4 {
            let row = &memory[self.base + y * self.pitch..];
            for texel in row[..self.width as usize * self.bpp].chunks(self.bpp) {
                bytes.extend(match self.format {
                    MTL_FORMAT_RGBA16_FLOAT => texel
                        .chunks(2)
                        .map(|half| match u16::from_le_bytes([half[0], half[1]]) {
                            0x3400 => 64,
                            0x3800 => 128,
                            0x3a00 => 191,
                            _ => 255,
                        })
                        .collect(),
                    MTL_FORMAT_BGRA8_UNORM => vec![texel[2], texel[1], texel[0], texel[3]],
                    _ => texel.to_vec(),
                });
            }
        }
        let layout = PackedLayout {
            width: self.width,
            height: 4,
            pixel_format: 0,
            bytes_per_row: self.width * 4,
        };
        self.next_id += 1;
        let (upload, report, _) = retain_packed(
            PackedOwner::Owned,
            &mut self.held,
            layout,
            bytes,
            true,
            self.next_id,
        );
        assert_eq!(report, RetainReport::Nothing);
        match upload {
            Ok(upload) => Some(native(upload)),
            Err(_) => None,
        }
    }

    fn reference(&self) -> SnapshotScopeRef {
        self.scope.as_ref().unwrap().reference()
    }

    fn next_scope(&mut self) {
        let scope = self.scope.take().unwrap();
        self.scopes.close(scope);
        self.scope = Some(self.scopes.open());
    }

    fn load_with(
        &mut self,
        scope: Option<SnapshotScopeRef>,
        stage: impl FnOnce(&mut Fixture) -> Option<Arc<PackedImage>>,
    ) -> Result<Arc<PackedImage>, LoadRefusal> {
        let description = self.source();
        let scope_id = scope.and_then(|s| s.current(&self.scopes));
        let before = self
            .observe(description, scope_id)
            .map_err(|status| LoadRefusal::PackedMapping { status })?;
        let now = scope.and_then(|s| s.current(&self.scopes));
        let pending = match self.held.begin_mapping(description, before, scope_id, now) {
            MappingStep::Reuse { image, notes } => {
                self.notes.extend(notes);
                return Ok(image);
            }
            MappingStep::Stage { pending, notes } => {
                self.notes.extend(notes);
                pending
            }
        };
        let image = stage(self).ok_or(LoadRefusal::PackedMappingStaging)?;
        let after = if pending.before.is_some() {
            self.observe(description, scope_id)
                .map_err(|status| LoadRefusal::PackedMapping { status })?
        } else {
            None
        };
        let now = scope.and_then(|s| s.current(&self.scopes));
        let notes = self.held.finish_mapping(description, pending, after, now, &image);
        self.notes.extend(notes);
        Ok(image)
    }

    fn load_direct(&mut self, scope: Option<SnapshotScopeRef>) -> Result<Option<Arc<PackedImage>>, LoadRefusal> {
        let (direct, _) = direct_surface(&Some(self.resource()), REF, Some(MID));
        match direct {
            None => Ok(None),
            Some(_) => self.load_with(scope, Fixture::load_rgba_packed).map(Some),
        }
    }

    fn load_in_scope(&mut self, scope: Option<SnapshotScopeRef>) -> Arc<PackedImage> {
        match self.load_direct(scope).ok().unwrap() {
            Some(image) => image,
            None => self.load_rgba_packed().unwrap(),
        }
    }

    fn load(&mut self) -> Arc<PackedImage> {
        let scope = Some(self.reference());
        self.load_in_scope(scope)
    }

    fn checked(&mut self, should_stage: bool) -> Arc<PackedImage> {
        let mut staged = false;
        let scope = Some(self.reference());
        let image = self
            .load_with(scope, |f| {
                assert!(
                    should_stage,
                    "a hit must not enter ordinary staging, conversion, comparison or upload"
                );
                staged = true;
                f.load_rgba_packed()
            })
            .ok()
            .unwrap();
        assert_eq!(staged, should_stage);
        image
    }

    fn has_proof(&self) -> bool {
        self.held.mapping.is_some()
    }
}

fn native(upload: SampledUpload) -> Arc<PackedImage> {
    match upload {
        SampledUpload::ImmutablePacked(image) => image,
        _ => panic!("a packed texture retains an immutable native image"),
    }
}

fn rgba([b, g, r, a]: [u8; 4]) -> Vec<u8> {
    [r, g, b, a].repeat(32)
}

#[test]
fn packed_mapping_clean_hit_skips_staging_without_publishing_a_cpu_frame() {
    let mut f = Fixture::new();
    let epochs = (f.content_generation, f.surface_content_epoch);
    let first = f.checked(true);
    for _ in 0..128 {
        assert!(Arc::ptr_eq(&first, &f.checked(false)));
    }
    assert_eq!(first.bytes, rgba(PIXEL));
    assert_eq!(
        (f.content_generation, f.surface_content_epoch),
        epochs,
        "sampling CPU bytes is not a frame publication",
    );
    assert!(load_resident(Some(MID), None, false, None).0.is_none());
}

#[test]
fn packed_mapping_guest_and_host_writes_independently_require_full_staging() {
    for guest in [true, false] {
        let mut f = Fixture::new();
        let first = f.load();
        let pixel = [17, 43, 91, 255];
        f.write(pixel);
        if guest {
            f.guest.guest_wrote_page(GPA);
        } else {
            f.guest.note_host_wrote_pages(vec![GPA]);
        }
        let changed = f.checked(true);
        assert!(!Arc::ptr_eq(&first, &changed));
        assert_eq!(first.bytes, rgba(PIXEL));
        assert_eq!(changed.bytes, rgba(pixel));
        assert!(Arc::ptr_eq(&changed, &f.checked(false)));
        f.guest.note_host_wrote_pages(vec![GPA + PAGE as u64]);
        assert!(
            Arc::ptr_eq(&changed, &f.checked(false)),
            "disjoint writes are not overlap"
        );
        f.guest.unnamed_writes += 1;
        f.checked(true);
    }
}

#[test]
fn packed_mapping_expired_or_absent_scope_keeps_exact_byte_staging_fallback() {
    let mut f = Fixture::new();
    f.load();
    let expired = f.reference();
    f.next_scope();
    assert!(expired.current(&f.scopes).is_none());
    for scope in [Some(expired), None] {
        let pixel = if scope.is_some() {
            [19, 41, 73, 255]
        } else {
            [29, 51, 83, 255]
        };
        f.write(pixel);
        let image = f.load_in_scope(scope);
        assert_eq!(image.bytes, rgba(pixel));
        assert!(!f.has_proof());
        let same = f.load_in_scope(scope);
        assert!(
            Arc::ptr_eq(&image, &same),
            "full-byte upload reuse remains available"
        );
    }
}

#[test]
fn packed_mapping_scope_ending_during_fill_cannot_retain_read_elision() {
    let mut f = Fixture::new();
    let owner = f.scopes.open();
    let scope = owner.reference();
    let image = f
        .load_with(Some(scope), |f| {
            let image = f.load_rgba_packed();
            f.scopes.close(owner);
            image
        })
        .ok()
        .unwrap();
    assert_eq!(image.bytes, rgba(PIXEL));
    assert!(scope.current(&f.scopes).is_none());
    assert!(!f.has_proof());
}

#[test]
fn packed_mapping_usage_capabilities_do_not_replace_actual_writer_witnesses() {
    for usage in [
        0,
        USAGE_SHADER_READ | USAGE_RENDER_TARGET,
        USAGE_SHADER_READ | USAGE_SHADER_WRITE,
        USAGE_DECLARED,
    ] {
        for guest in [false, true] {
            let mut f = Fixture::new();
            f.descriptor[21] = usage;
            let first = f.checked(true);
            assert!(Arc::ptr_eq(&first, &f.checked(false)));
            let pixel = [29, 53, 97, 255];
            f.write(pixel);
            if guest {
                f.guest.guest_wrote_page(GPA);
            } else {
                f.guest.note_host_wrote_pages(vec![GPA]);
            }
            let changed = f.checked(true);
            assert_eq!(first.bytes, rgba(PIXEL));
            assert_eq!(changed.bytes, rgba(pixel));
            assert!(!Arc::ptr_eq(&first, &changed));
            assert!(Arc::ptr_eq(&changed, &f.checked(false)));
        }
    }
}

#[test]
fn packed_mapping_unknown_tracking_keeps_full_staging_and_exact_byte_upload_reuse() {
    for startup in [false, true] {
        let mut f = Fixture::new();
        f.guest.guest_writes_unobservable = !startup;
        f.guest.guest_write_startup_window = startup;
        let first = f.checked(true);
        assert!(
            Arc::ptr_eq(&first, &f.checked(true)),
            "upload-only reuse survives fallback"
        );
        assert!(!f.has_proof());
        let pixel = [21, 47, 101, 255];
        f.write(pixel);
        let changed = f.checked(true);
        assert_eq!(changed.bytes, rgba(pixel));
        assert!(!Arc::ptr_eq(&first, &changed));
        assert!(!f.has_proof());
        if startup {
            f.guest.guest_wrote_page(GPA);
            f.checked(true);
            f.checked(false);
        }
    }
}

#[test]
fn packed_mapping_map_generation_layout_and_interpretation_cannot_inherit_a_proof() {
    let mut f = Fixture::new();
    let first = f.load();
    f.map_generation += 1;
    assert!(
        Arc::ptr_eq(&first, &f.checked(true)),
        "only full-byte comparison may reuse here"
    );
    f.checked(false);
    f.alloc_size = (PAGE / 2) as u32;
    f.checked(true);
    f.checked(false);
    f.format = MTL_FORMAT_RGBA8_UNORM;
    let reinterpreted = f.checked(true);
    assert_eq!(reinterpreted.bytes, PIXEL.repeat(32));
    assert!(
        !f.has_proof(),
        "a format override is not a direct unreinterpreted sample"
    );
    f.checked(true);
    f.width = 4;
    let resized = f.checked(true);
    assert_eq!(resized.layout.width, 4);
    assert!(!f.has_proof());
}

#[test]
fn packed_mapping_observed_mutation_during_fill_never_retains_read_elision() {
    for guest in [false, true] {
        let mut f = Fixture::new();
        let scope = Some(f.reference());
        let image = f
            .load_with(scope, |f| {
                let image = f.load_rgba_packed();
                f.write([7, 23, 71, 255]);
                if guest {
                    f.guest.guest_wrote_page(GPA);
                } else {
                    f.guest.note_host_wrote_pages(vec![GPA]);
                }
                image
            })
            .ok()
            .unwrap();
        assert_eq!(image.bytes, rgba(PIXEL));
        assert!(!f.has_proof());
        let fresh = f.checked(true);
        assert_eq!(fresh.bytes, rgba([7, 23, 71, 255]));
        assert!(Arc::ptr_eq(&fresh, &f.checked(false)));
    }
}

#[test]
fn packed_mapping_audit_reads_guest_bytes_and_revokes_an_escaping_writer() {
    let mut f = Fixture::new();
    let first = f.load();
    for bind in 0..=2 * AUDIT_STRIDE {
        let pixel = [7 + (bind % 2) as u8, 23, 71, 255];
        f.write(pixel); // deliberately escape both writer records
        let image = f.load();
        if !Arc::ptr_eq(&first, &image) {
            assert_eq!(image.bytes, rgba(pixel));
            return;
        }
    }
    panic!("the actual guest-byte audit never revoked a stale read-elision proof");
}

#[test]
fn packed_mapping_audit_byte_accounting_includes_padding_only_when_folded() {
    let mut f = Fixture::new();
    let description = f.source();
    let window = f.window(description).ok().unwrap().unwrap();
    assert_eq!(window.key.guest_read_bytes, 128);
    assert_eq!(window.key.end - window.key.base, 176);
    let scope = f.reference().current(&f.scopes);
    let mut folded = 0;
    for _ in 0..=2 * AUDIT_STRIDE + 4 {
        let seen = f.guest.observe(&window, scope);
        if seen.audit_bytes != 0 {
            assert_eq!(seen.audit_bytes, 176);
            folded += 1;
        }
    }
    assert!(
        folded >= 2,
        "both baseline and comparison report their real byte reads"
    );
}

#[test]
fn packed_mapping_miss_counts_both_pre_and_post_audit_reads_as_extra() {
    for prime in [0, 1] {
        let mut f = Fixture::new();
        let description = f.source();
        let window = f.window(description).ok().unwrap().unwrap();
        let scope = f.reference().current(&f.scopes);
        let mut control = Fixture::new();
        let control_window = control.window(description).ok().unwrap().unwrap();
        for _ in 0..prime {
            f.guest.observe(&window, scope);
            control.guest.observe(&control_window, scope);
        }
        let mut expected = 0;
        for _ in 0..2 * AUDIT_STRIDE + 2 {
            f.held.mapping = None;
            f.checked(true);
            for _ in 0..2 {
                expected += control.guest.observe(&control_window, scope).audit_bytes;
            }
        }
        assert!(expected > 0);
        let extra: u64 = f
            .notes
            .iter()
            .map(|note| match note {
                MappingNote::ExtraAuditBytes { bytes } => *bytes,
                _ => 0,
            })
            .sum();
        assert_eq!(extra, expected);
    }
}

#[test]
fn packed_mapping_half_float_reuse_counts_guest_bytes_not_converted_rgba_bytes() {
    let mut f = Fixture::new();
    f.declared_format = MTL_FORMAT_RGBA16_FLOAT;
    f.format = MTL_FORMAT_RGBA16_FLOAT;
    f.pitch = 80;
    f.bpp = 8;
    let pixel: Vec<_> = [0x3400u16, 0x3800, 0x3a00, 0x3c00]
        .into_iter()
        .flat_map(u16::to_le_bytes)
        .collect();
    for row in 0..4 {
        let memory = f.guest.memory.get_mut(&GPA).unwrap();
        memory[BASE + row * 80..BASE + row * 80 + 64].copy_from_slice(&pixel.repeat(8));
    }
    let first = f.checked(true);
    assert_eq!(first.bytes, [64, 128, 191, 255].repeat(32));
    assert!(Arc::ptr_eq(&first, &f.checked(false)));
    let description = f.source();
    let window = f.window(description).ok().unwrap().unwrap();
    assert_eq!(window.key.guest_read_bytes, 256);
    assert_eq!(window.key.end - window.key.base, 304);
    assert_eq!(
        first.byte_len(),
        128,
        "converted bytes are not the guest-read footprint"
    );
}

#[test]
fn packed_mapping_unknown_shapes_and_unverified_backing_provenance_fall_back() {
    for change in [0, 1, 2, 3] {
        let mut f = Fixture::new();
        match change {
            0 => f.descriptor[36] = 2,         // serialized mip count
            1 => f.descriptor.resize(0x58, 0), // undecoded extended record
            2 => f.descriptor[52] = 1,         // an explicit plane view
            _ => f.descriptor[21] = 0x80,      // an undecoded usage bit
        }
        let scope = Some(f.reference());
        assert!(f.load_direct(scope).ok().unwrap().is_none());
        let (_, notes) = direct_surface(&Some(f.resource()), REF, Some(MID));
        assert!(notes.descriptor);
        assert_eq!(notes.slug(), Some("metal_packed_mapping_descriptor_fallback"));
        assert_eq!(
            notes.fallback,
            Some(match change {
                0 | 2 => Fallback::Shape,
                1 => Fallback::Silent,
                _ => Fallback::Usage,
            })
        );
        let image = f.load();
        assert_eq!(
            image.bytes,
            rgba(PIXEL),
            "ordinary staging still owns these shapes"
        );
    }
    let mut f = Fixture::new();
    f.mapping_internal = 0;
    f.checked(true);
    f.checked(true);
    assert!(
        !f.has_proof(),
        "cached pages without a provenance check cannot vouch"
    );
}

#[test]
fn packed_mapping_deletion_drops_proof_and_cache_but_not_an_inflight_binding() {
    for reset in [false, true] {
        let mut f = Fixture::new();
        let image = f.load();
        assert!(f.has_proof());
        let weak = Arc::downgrade(&image);
        let binding = SampledUpload::ImmutablePacked(Arc::clone(&image)).image(3);
        if reset {
            drop(f);
        } else {
            f.held = RetainedPacked::new();
        }
        assert_eq!(Arc::strong_count(&image), 2);
        drop(image);
        assert!(weak.upgrade().is_some());
        drop(binding);
        assert!(weak.upgrade().is_none());
    }
}

fn backing_fixture() -> Fixture {
    let mut f = Fixture::new();
    f.mapping_internal = 0;
    let pages: Vec<u64> = (9..12).map(|pfn| pfn << PAGE_SHIFT_ARM64E).collect();
    for page in &pages {
        f.map_range(*page);
    }
    f.pages = pages.clone();
    f.table = Some(pages);
    f.alloc_size = (3 * PAGE) as u32;
    f.base = 0;
    f.write(PIXEL);
    f
}

#[test]
fn packed_mapping_backing_pte_rewires_revalidate_every_page_and_rebuild_before_sampling() {
    let mut f = backing_fixture();
    let first = f.checked(true);
    f.checked(false);
    let before = f.map_generation;
    f.map_range(20 << PAGE_SHIFT_ARM64E);
    f.table.as_mut().unwrap()[1] = 20 << PAGE_SHIFT_ARM64E;
    assert_eq!(f.map_generation, before, "no mapping packet arrived");
    f.checked(true); // even an unsampled middle allocation page changed
    assert_ne!(f.map_generation, before);
    f.checked(false);
    f.map_range(21 << PAGE_SHIFT_ARM64E);
    f.write_at(21 << PAGE_SHIFT_ARM64E, [19, 29, 139, 255]);
    f.table.as_mut().unwrap()[0] = 21 << PAGE_SHIFT_ARM64E;
    let changed = f.checked(true);
    assert!(!Arc::ptr_eq(&first, &changed));
    assert_eq!(changed.bytes, rgba([19, 29, 139, 255]));
    f.checked(false);
    f.table.as_mut().unwrap()[1] = 0;
    let scope = Some(f.reference());
    assert!(
        f.load_direct(scope).is_err(),
        "a failed backing revalidation cannot silently sample a retired alias"
    );
    f.table.as_mut().unwrap()[1] = 20 << PAGE_SHIFT_ARM64E;
    let recovered = f.checked(true);
    assert_eq!(recovered.bytes, rgba([19, 29, 139, 255]));
    f.checked(false);
    f.mapped = false;
    assert!(f.load_direct(scope).is_err());
    assert!(
        !f.mapped,
        "read elision must not resurrect an unmapped surface"
    );
}

fn layout() -> PackedLayout {
    PackedLayout {
        width: 2,
        height: 2,
        pixel_format: u32::from(MTL_FORMAT_RGBA8_UNORM),
        bytes_per_row: 16,
    }
}

#[test]
fn packed_cache_unchanged_content_allocates_and_uploads_once() {
    let mut held = RetainedPacked::new();
    let bytes = vec![0x5a; 64];
    let first = held.stage(layout(), bytes.clone(), true, 1).0.unwrap_or_else(|_| panic!());
    for id in 2..130 {
        // An exact hit cannot allocate or upload: it succeeds where that fails.
        let (next, notes) = held.stage(layout(), bytes.clone(), false, id);
        assert!(Arc::ptr_eq(&first, &next.unwrap_or_else(|_| panic!())));
        assert_eq!(
            notes,
            vec![PackedNote::Reuses, PackedNote::ReuseBytes { bytes: 64 }]
        );
    }
}

#[test]
fn packed_cache_compares_every_staged_byte_length_and_layout_field() {
    let bytes = vec![0x5a; 64];
    let base = layout();
    let stage = |held: &mut RetainedPacked, layout: PackedLayout, bytes: Vec<u8>, id: u64| {
        held.stage(layout, bytes, true, id).0.unwrap_or_else(|_| panic!())
    };
    for changed in [
        PackedLayout { width: 4, ..base },
        PackedLayout { height: 4, ..base },
        PackedLayout {
            pixel_format: u32::from(MTL_FORMAT_BGRA8_UNORM),
            ..base
        },
        PackedLayout {
            bytes_per_row: 32,
            ..base
        },
        PackedLayout {
            pixel_format: 0,
            ..base
        },
    ] {
        let mut held = RetainedPacked::new();
        let first = stage(&mut held, base, bytes.clone(), 1);
        let next = stage(&mut held, changed, bytes.clone(), 2);
        assert!(!Arc::ptr_eq(&first, &next), "{changed:?}");
        assert_eq!(next.layout, changed);
    }
    for offset in 0..bytes.len() {
        let mut held = RetainedPacked::new();
        let first = stage(&mut held, base, bytes.clone(), 1);
        let mut changed = bytes.clone();
        changed[offset] ^= 1;
        let next = stage(&mut held, base, changed.clone(), 2);
        assert!(
            !Arc::ptr_eq(&first, &next),
            "includes row padding and unused tail"
        );
        assert_eq!(next.bytes, changed);
        assert_eq!(first.bytes, bytes);
    }
    let mut held = RetainedPacked::new();
    let first = stage(&mut held, base, bytes.clone(), 1);
    let longer = stage(&mut held, base, vec![0x5a; 65], 2);
    assert!(!Arc::ptr_eq(&first, &longer));
}

#[test]
fn packed_cache_replacement_failure_and_retirement_do_not_mutate_prior_images() {
    let mut held = RetainedPacked::new();
    let first = held
        .stage(layout(), vec![0x41; 64], true, 1)
        .0
        .unwrap_or_else(|_| panic!());
    let binding = SampledUpload::ImmutablePacked(Arc::clone(&first)).image(3);
    let weak = Arc::downgrade(&first);
    let next = held
        .stage(layout(), vec![0x42; 64], true, 2)
        .0
        .unwrap_or_else(|_| panic!());
    assert!(!Arc::ptr_eq(&first, &next));
    assert_eq!(first.bytes, &[0x41; 64]);
    assert_eq!(next.bytes, &[0x42; 64]);
    let (error, _) = held.stage(layout(), vec![0x43; 64], false, 3);
    assert!(matches!(error, Err(PackedStatus::UploadFailed)));
    assert!(
        held.latest.is_none(),
        "a failed replacement cannot leave an old candidate"
    );
    drop(held);
    assert_eq!(Arc::strong_count(&next), 1);
    drop(first);
    assert!(
        weak.upgrade().is_some(),
        "the pending binding owns its old immutable image"
    );
    drop(binding);
    assert!(weak.upgrade().is_none());
}

/// Loads a plain texture through every question of the route, with native texels
/// read from `guest`.
fn load_plain(held: &mut RetainedPacked, owner: PackedOwner, guest: &[u8], id: u64) -> SampledUpload {
    let mut event = LoadEvent::Begin;
    loop {
        event = match load_step(event) {
            LoadAction::StagePlanar => LoadEvent::Planar(Ok(None)),
            LoadAction::SampleResident => LoadEvent::Resident(None),
            LoadAction::LoadMapping => LoadEvent::Mapping(MappingAnswer::NotDirect),
            LoadAction::InspectObject => LoadEvent::Object(LoadObject::Texture {
                shape: Some(LoadShape {
                    mipmap_level_count: 1,
                    depth: 1,
                    sample_count: Some(1),
                }),
            }),
            LoadAction::StageRaw => LoadEvent::Raw(Some(RawTexels {
                width: 2,
                height: 2,
                pixel_format: MTL_FORMAT_RGBA8_UNORM,
                tight_row: Some(8),
                bytes: guest.to_vec(),
            })),
            LoadAction::Retain { layout, bytes } => {
                let (upload, _, _) = retain_packed(owner, held, layout, bytes, true, id);
                return upload.unwrap_or_else(|_| panic!());
            }
            _ => panic!("a single-level texture is staged natively"),
        };
    }
}

#[test]
fn packed_load_reads_guest_without_dirty_tracking_and_honors_resource_retirement() {
    for reset in [false, true] {
        let mut held = RetainedPacked::new();
        let mut guest = [0x51; 16];
        let first = native(load_plain(&mut held, PackedOwner::Owned, &guest, 1));
        let again = native(load_plain(&mut held, PackedOwner::Owned, &guest, 2));
        assert!(Arc::ptr_eq(&first, &again));
        // Deliberately no guest-generation or host-write notification: this
        // cache must compare the actual bytes its staging owner just read.
        guest = [0x52; 16];
        let changed = native(load_plain(&mut held, PackedOwner::Owned, &guest, 3));
        assert!(!Arc::ptr_eq(&first, &changed));
        assert_eq!(changed.bytes, &[0x52; 16]);
        assert_eq!(first.bytes, &[0x51; 16]);
        assert_eq!(Arc::strong_count(&changed), 2);
        held = RetainedPacked::new();
        if !reset {
            let recreated = native(load_plain(&mut held, PackedOwner::Owned, &guest, 4));
            assert!(!Arc::ptr_eq(&changed, &recreated));
        }
        assert_eq!(Arc::strong_count(&changed), 1);
    }
}

#[test]
fn packed_cache_cannot_displace_a_different_resource_rail_owner() {
    let mut held = RetainedPacked::new();
    assert!(matches!(
        load_plain(&mut held, PackedOwner::Conflict, &[0x51; 16], 1),
        SampledUpload::Packed { .. }
    ));
    assert!(held.latest.is_none());
    let (upload, report, _) = retain_packed(
        PackedOwner::Unowned,
        &mut held,
        layout(),
        vec![1; 64],
        true,
        2,
    );
    assert_eq!(report, RetainReport::Unowned);
    assert!(matches!(upload, Ok(SampledUpload::Packed { .. })));
}

#[test]
fn planar_sampled_binding_keeps_whole_surface_owned() {
    for format in [0x1f1u16, 0x1f0] {
        let plane = |offset: u32, base: u32| Plane {
            offset,
            base,
            size: 1024,
            width: 8,
            height: 4,
            bytes_per_row: 64,
            bytes_per_element: 2,
        };
        let image = Arc::new(PlanarImage {
            description: TextureDescription {
                mapping_id: MID,
                width: 8,
                height: 4,
                format,
            },
            layout: Layout {
                allocation_size: 4096,
                backing_format: 1,
                planes: vec![plane(128, 0), plane(2176, 2048)],
            },
        });
        let lifetime = Arc::downgrade(&image);
        let upload = SampledUpload::Planar(image);
        assert_eq!(upload.byte_len(), 2048);
        let binding = upload.image(5);
        drop(upload);
        let SampledBinding::Planar { binding: slot, image } = &binding else {
            panic!("whole-surface samples must not become packed RGBA8");
        };
        assert_eq!(*slot, TEXTURE_BINDING_BASE + 5);
        assert_eq!(image.description.format, format);
        assert_eq!(image.layout.planes[0].offset, 128);
        assert_eq!(image.layout.planes[1].offset, 2176);
        assert!(lifetime.upgrade().is_some());
        drop(binding);
        assert!(lifetime.upgrade().is_none());
    }
}

#[test]
fn every_route_of_a_load_ends_where_its_answer_says() {
    use_refusal(
        LoadEvent::Raw(None),
        LoadRefusal::PackedTexture,
        Some("draw_mtl_packed_texture"),
    );
    use_refusal(
        LoadEvent::Raw(Some(RawTexels {
            width: 2,
            height: 2,
            pixel_format: 1,
            tight_row: None,
            bytes: vec![],
        })),
        LoadRefusal::PackedTexturePitch,
        Some("draw_mtl_packed_texture"),
    );
    use_refusal(LoadEvent::Rgba(None), LoadRefusal::Absent, None);
    use_refusal(
        LoadEvent::Rgba(Some((u32::MAX / 4 + 1, 1, vec![]))),
        LoadRefusal::SampledTexturePitch,
        Some("draw_mtl_sampled_texture"),
    );
    use_refusal(
        LoadEvent::Mapping(MappingAnswer::StagingFailed),
        LoadRefusal::PackedMappingStaging,
        Some("draw_mtl_packed_mapping"),
    );
    use_refusal(
        LoadEvent::Mapping(MappingAnswer::Refused(WindowStatus::BackingChanged)),
        LoadRefusal::PackedMapping {
            status: WindowStatus::BackingChanged,
        },
        Some("draw_mtl_packed_mapping"),
    );
    // A pyramid, an array or an undecoded texture is converted, as is a view that
    // is no buffer texture; a buffer texture keeps its native texels.
    for (object, native) in [
        (
            LoadObject::Texture {
                shape: Some(LoadShape {
                    mipmap_level_count: 2,
                    depth: 1,
                    sample_count: Some(1),
                }),
            },
            false,
        ),
        (LoadObject::Texture { shape: None }, false),
        (LoadObject::View { buffer_texture: false }, false),
        (LoadObject::View { buffer_texture: true }, true),
        (LoadObject::Other, false),
    ] {
        let action = load_step(LoadEvent::Object(object));
        assert_eq!(matches!(action, LoadAction::StageRaw), native);
        assert_eq!(matches!(action, LoadAction::LoadRgba), !native);
    }
    let LoadAction::Retain { layout, bytes } =
        load_step(LoadEvent::Rgba(Some((3, 1, vec![9; 12]))))
    else {
        panic!("converted texels are retained");
    };
    assert_eq!((layout.bytes_per_row, layout.pixel_format), (12, 0));
    assert_eq!(bytes, vec![9; 12]);
}

fn use_refusal(event: LoadEvent, want: LoadRefusal, class: Option<&str>) {
    let LoadAction::Refuse(refusal) = load_step(event) else {
        panic!("the load is refused");
    };
    assert_eq!(refusal, want);
    assert_eq!(refusal.class(), class);
}

#[test]
fn a_published_image_is_sampled_only_for_its_own_current_frame() {
    let image = Arc::new(PublishedSample { id: 1, bytes: 64 });
    let (found, notes) = load_resident(Some(1), Some(2), false, Some(image.clone()));
    assert!(Arc::ptr_eq(&found.unwrap(), &image));
    assert_eq!(notes, vec![ResidentNote::Native, ResidentNote::SurfaceBytes { bytes: 64 }]);
    assert_eq!(
        notes.iter().map(|note| note.slug()).collect::<Vec<_>>(),
        vec!["metal_sampled_native_resident", "metal_sampled_surface_bytes"]
    );
    for (surface, frame, host_copy, image) in [
        (None, Some(2), false, Some(image.clone())),
        (Some(1), None, false, Some(image.clone())),
        (Some(1), Some(2), true, Some(image.clone())),
        (Some(1), Some(2), false, None),
    ] {
        let (found, notes) = load_resident(surface, frame, host_copy, image);
        assert!(found.is_none());
        assert!(notes.is_empty());
    }
}

#[test]
fn a_packed_image_binds_like_any_other_resident_one() {
    let mut f = Fixture::new();
    let image = f.load();
    let packed = SampledUpload::ImmutablePacked(image.clone()).image(3);
    let SampledBinding::Resident { binding, image: ResidentImage::Packed(bound) } = packed else {
        panic!("a packed image is a resident one");
    };
    assert_eq!(binding, TEXTURE_BINDING_BASE + 3);
    assert!(Arc::ptr_eq(&bound, &image));
    let published = Arc::new(PublishedSample { id: 1, bytes: 64 });
    let resident = SampledUpload::Resident(published.clone()).image(4);
    let SampledBinding::Resident { binding, image: ResidentImage::Published(bound) } = resident
    else {
        panic!("a published image is a resident one");
    };
    assert_eq!(binding, TEXTURE_BINDING_BASE + 4);
    assert!(Arc::ptr_eq(&bound, &published));
}

#[test]
fn a_direct_surface_is_imported_before_its_window_is_read() {
    let f = Fixture::new();
    let description = f.source();
    let step = |event: SurfaceEvent| surface_step(event);
    assert!(matches!(
        step(SurfaceEvent::Direct(None)),
        SurfaceAction::Answer(MappingAnswer::NotDirect)
    ));
    assert!(matches!(
        step(SurfaceEvent::Direct(Some(description))),
        SurfaceAction::Import { description: asked } if asked == description
    ));
    assert!(matches!(
        step(SurfaceEvent::Imported { description, answer: Ok(None) }),
        SurfaceAction::Read { description: asked } if asked == description
    ));
    let stale = Err(WindowStatus::CaptureStale);
    assert!(matches!(
        step(SurfaceEvent::Imported { description, answer: stale }),
        SurfaceAction::Answer(MappingAnswer::Refused(WindowStatus::CaptureStale))
    ));
    assert!(matches!(
        step(SurfaceEvent::Read(Err(WindowStatus::BackingChanged))),
        SurfaceAction::Answer(MappingAnswer::Refused(WindowStatus::BackingChanged))
    ));
    assert!(matches!(
        step(SurfaceEvent::Read(Ok(None))),
        SurfaceAction::Answer(MappingAnswer::StagingFailed)
    ));
    let published = Arc::new(PublishedSample { id: 1, bytes: 64 });
    let upload = SampledUpload::Resident(published);
    assert!(matches!(
        step(SurfaceEvent::Read(Ok(Some(upload)))),
        SurfaceAction::Answer(MappingAnswer::Loaded(SampledUpload::Resident(_)))
    ));
}

#[test]
fn a_texture_that_resolves_to_another_surface_is_not_direct() {
    let f = Fixture::new();
    assert!(direct_surface(&Some(f.resource()), REF, Some(MID)).0.is_some());
    for mapping in [None, Some(MID + 1)] {
        let (direct, notes) = direct_surface(&Some(f.resource()), REF, mapping);
        assert!(direct.is_none());
        assert!(!notes.descriptor);
        assert_eq!(notes.slug(), None);
    }
    assert!(direct_surface(&None, REF, Some(MID)).0.is_none());
    assert!(direct_surface(&Some(f.resource()), REF + 1, Some(MID)).0.is_none());
}
