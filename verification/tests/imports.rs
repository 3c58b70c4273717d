use reims_vgpu::sampled::description::{
    Description, Fallback, NarrowBody, SurfaceTexture, TextureResource,
};
use reims_vgpu::sampled::import::{
    ImportFacts, ImportNote, ImportedReads, ImportedSample, LiveMapping, LiveSurface, Revalidation,
};
use reims_vgpu::sampled::load::{LoadRefusal, RetainReport};
use reims_vgpu::sampled::packed::{MappingNote, PackedNote};
use reims_vgpu::sampled::upload::SampledUpload;
use reims_vgpu::sampled::window::{Window, WindowKey, WindowStatus};
use std::sync::Arc;

const MID: u32 = 5;

fn description() -> Description {
    Description { mapping_id: MID, width: 8, height: 4, format: 80 }
}

fn key() -> WindowKey {
    WindowKey {
        description: description(),
        device_descriptor: vec![1, 2, 3],
        map_generation: 1,
        content_generation: 1,
        surface_content_epoch: 1,
        mapping_internal: 1,
        page_table_gpa: None,
        backing: None,
        page_size: 16384,
        pages: vec![9 * 16384],
        mapped_len: 16384,
        base: 64,
        pitch: 48,
        end: 240,
        guest_read_bytes: 128,
    }
}

fn window() -> Option<Window> {
    Some(Window { key: key(), first_page: 0, end_page: 1 })
}

fn mapping() -> LiveMapping {
    LiveMapping {
        mapped: true,
        has_geom: true,
        map_generation: 1,
        mapping_internal: 1,
        page_table_gpa: None,
        width: 8,
        height: 4,
        format: 80,
        device_descriptor: Some(vec![1, 2, 3]),
        import: Some(7),
        footprint: Some(8),
        sample_window: Some((64, 48, 240)),
    }
}

fn live(mapping: Option<LiveMapping>) -> LiveSurface {
    LiveSurface { image_live: true, mapping }
}

fn facts() -> ImportFacts {
    ImportFacts {
        enabled: true,
        map_pages_owned: true,
        native_format: true,
        layout_span: Some(176),
        alloc_size: 16384,
        import: Some((7, 8)),
        slice_ok: true,
        device_available: true,
        image_ok: true,
    }
}

fn capture() -> ImportedSample {
    ImportedSample { key: key(), import: 7, footprint: 8 }
}

#[test]
fn an_in_place_read_needs_every_answer_and_falls_back_otherwise() {
    let (sample, notes) = ImportedSample::prepare(facts(), Ok(window()), &live(Some(mapping())));
    let sample = sample.ok().unwrap().unwrap();
    assert_eq!(sample.byte_len(), 128);
    assert_eq!(notes, vec![ImportNote::Reads, ImportNote::GuestBytes { bytes: 128 }]);
    for facts in [
        ImportFacts { enabled: false, ..facts() },
        ImportFacts { map_pages_owned: false, ..facts() },
        ImportFacts { native_format: false, ..facts() },
        ImportFacts { layout_span: None, ..facts() },
        ImportFacts { layout_span: Some(u64::MAX), ..facts() },
        ImportFacts { alloc_size: 239, ..facts() },
        ImportFacts { import: None, ..facts() },
        ImportFacts { slice_ok: false, ..facts() },
        ImportFacts { device_available: false, ..facts() },
    ] {
        let (sample, notes) = ImportedSample::prepare(facts, Ok(window()), &live(Some(mapping())));
        assert!(matches!(sample, Ok(None)));
        assert!(notes.is_empty());
    }
    assert!(matches!(
        ImportedSample::prepare(facts(), Ok(None), &live(Some(mapping()))).0,
        Ok(None)
    ));
    // A window that could not be resolved is refused, but only where it is asked for.
    let changed = || Err(WindowStatus::BackingChanged);
    let (sample, notes) = ImportedSample::prepare(facts(), changed(), &live(Some(mapping())));
    assert!(matches!(sample, Err(WindowStatus::BackingChanged)));
    assert!(notes.is_empty());
    let disabled = ImportFacts { enabled: false, ..facts() };
    let (sample, _) = ImportedSample::prepare(disabled, changed(), &live(Some(mapping())));
    assert!(matches!(sample, Ok(None)));
    let (sample, notes) = ImportedSample::prepare(
        ImportFacts { image_ok: false, ..facts() },
        Ok(window()),
        &live(Some(mapping())),
    );
    assert!(matches!(sample, Ok(None)));
    assert_eq!(notes, vec![ImportNote::Fallback]);
    assert_eq!(notes[0].slug(), "metal_mapped_sample_fallback");
}

#[test]
fn a_capture_is_stale_once_anything_it_was_made_from_moved() {
    assert_eq!(capture().check(&live(Some(mapping()))), Ok(()));
    for moved in [
        LiveMapping { mapped: false, ..mapping() },
        LiveMapping { has_geom: false, ..mapping() },
        LiveMapping { map_generation: 2, ..mapping() },
        LiveMapping { mapping_internal: 2, ..mapping() },
        LiveMapping { page_table_gpa: Some(1), ..mapping() },
        LiveMapping { width: 9, ..mapping() },
        LiveMapping { height: 9, ..mapping() },
        LiveMapping { format: 70, ..mapping() },
        LiveMapping { device_descriptor: Some(vec![1, 2, 4]), ..mapping() },
        LiveMapping { device_descriptor: None, ..mapping() },
        LiveMapping { import: None, ..mapping() },
        LiveMapping { import: Some(6), ..mapping() },
        LiveMapping { footprint: Some(9), ..mapping() },
        LiveMapping { sample_window: Some((64, 64, 240)), ..mapping() },
    ] {
        assert_eq!(capture().check(&live(Some(moved))), Err(WindowStatus::CaptureStale));
    }
    assert_eq!(capture().check(&live(None)), Err(WindowStatus::CaptureStale));
    let dead = LiveSurface { image_live: false, mapping: Some(mapping()) };
    assert_eq!(capture().check(&dead), Err(WindowStatus::CaptureStale));
    assert_eq!(WindowStatus::CaptureStale.slug(), "metal_mapped_sample_capture_stale");
    // A surface that moved while it was admitted is refused, not staged.
    let (sample, notes) = ImportedSample::prepare(facts(), Ok(window()), &live(None));
    assert!(matches!(sample, Err(WindowStatus::CaptureStale)));
    assert!(notes.is_empty());
}

fn fresh(backing: Result<bool, WindowStatus>, pages_valid: bool) -> Revalidation {
    Revalidation { backing, pages_valid, live: live(Some(mapping())) }
}

#[test]
fn a_capture_is_revalidated_before_it_is_encoded() {
    assert_eq!(capture().revalidate(&fresh(Ok(true), true)), Ok(()));
    for (backing, pages_valid, want) in [
        (Ok(false), true, WindowStatus::MappingChanged),
        (Ok(true), false, WindowStatus::MappingChanged),
        (Err(WindowStatus::BackingChanged), true, WindowStatus::BackingChanged),
    ] {
        assert_eq!(capture().revalidate(&fresh(backing, pages_valid)), Err(want));
    }
    assert_eq!(WindowStatus::MappingChanged.slug(), "metal_mapped_sample_mapping_changed");
    assert_eq!(WindowStatus::BackingChanged.slug(), "metal_packed_mapping_backing_changed");
}

#[test]
fn reads_are_listed_once_and_checked_as_a_whole() {
    let first = Arc::new(capture());
    let alias = Arc::new(capture());
    let other = Arc::new(ImportedSample { import: 9, ..capture() });
    assert!(first.same_view(&alias));
    assert!(!first.same_view(&other));
    let mut reads = ImportedReads::new();
    reads.retain_all(&vec![
        SampledUpload::Imported(first),
        SampledUpload::Imported(alias),
        SampledUpload::Imported(other),
    ]);
    assert_eq!(reads.sources.len(), 2);
    let surfaces = || {
        vec![
            live(Some(mapping())),
            live(Some(LiveMapping { import: Some(9), ..mapping() })),
        ]
    };
    let both = || {
        vec![
            fresh(Ok(true), true),
            Revalidation {
                backing: Ok(true),
                pages_valid: true,
                live: live(Some(LiveMapping { import: Some(9), ..mapping() })),
            },
        ]
    };
    assert_eq!(reads.validate(&both(), &surfaces()), Ok(()));
    // Revalidating the second retired the first one's alias.
    let mut retired = surfaces();
    retired[0].mapping.as_mut().unwrap().import = None;
    assert_eq!(reads.validate(&both(), &retired), Err(WindowStatus::CaptureStale));
    let mut moved = both();
    moved[1].pages_valid = false;
    assert_eq!(reads.validate(&moved, &surfaces()), Err(WindowStatus::MappingChanged));
    reads.clear();
    assert_eq!(reads.validate(&vec![], &vec![]), Ok(()));
}

fn record() -> TextureResource {
    let mut descriptor = vec![0; 56];
    descriptor[8] = 0x2f;
    TextureResource {
        mapper_ref_texture: true,
        surface: Some(SurfaceTexture {
            mapping_id: MID,
            object_ref: 11,
            pixel_format: 80,
            width: 8,
            height: 4,
        }),
        descriptor,
        view_only: false,
        body: Some(NarrowBody {
            object_ref: 11,
            plane: 0,
            texture_type: 2,
            depth: 1,
            mipmap_level_count: 1,
            sample_count: 1,
            array_length: 1,
            undeclared_usage: 0,
            unidentified_flags: 0,
            unidentified_u64: 0,
            resource_options: 0x0331,
            cpu_cache_mode: 1,
            storage_mode: 2,
            hazard_tracking_mode: 2,
        }),
        planar_format: false,
        extent_ok: true,
        converts_to_rgba8: true,
    }
}

#[test]
fn only_a_fully_known_record_is_sampled_as_it_lies() {
    assert_eq!(Description::decode(&record(), 11), Ok(description()));
    assert_eq!(description().output().bytes_per_row, 32);
    let silent = |edit: fn(&mut TextureResource)| {
        let mut resource = record();
        edit(&mut resource);
        Description::decode(&resource, 11)
    };
    for refused in [
        silent(|r| r.mapper_ref_texture = false),
        silent(|r| r.surface = None),
        silent(|r| r.planar_format = true),
        silent(|r| r.extent_ok = false),
        silent(|r| r.converts_to_rgba8 = false),
        silent(|r| r.descriptor[9] = 1),
        silent(|r| r.descriptor.push(0)),
        silent(|r| r.body = None),
    ] {
        assert_eq!(refused, Err(Fallback::Silent));
    }
    // A record that names a view and nothing else has no tail to know.
    assert!(silent(|r| {
        r.view_only = true;
        r.descriptor.clear();
        r.body = None;
    })
    .is_ok());
    let body = |edit: fn(&mut NarrowBody)| {
        let mut resource = record();
        edit(resource.body.as_mut().unwrap());
        Description::decode(&resource, 11).unwrap_err()
    };
    for refused in [
        body(|b| b.object_ref = 12),
        body(|b| b.plane = 1),
        body(|b| b.texture_type = 3),
        body(|b| b.depth = 2),
        body(|b| b.sample_count = 4),
        body(|b| b.array_length = 2),
    ] {
        assert_eq!(refused, Fallback::Shape);
    }
    assert_eq!(body(|b| b.undeclared_usage = 8), Fallback::Usage);
    for refused in [
        body(|b| b.unidentified_flags = 1),
        body(|b| b.unidentified_u64 = 1),
        body(|b| b.resource_options = 2),
        body(|b| b.cpu_cache_mode = 2),
        body(|b| b.storage_mode = 3),
        body(|b| b.hazard_tracking_mode = 3),
    ] {
        assert_eq!(refused, Fallback::Flags);
    }
    assert_eq!(
        [Fallback::Silent, Fallback::Shape, Fallback::Usage, Fallback::Flags].map(Fallback::slug),
        [
            None,
            Some("metal_packed_mapping_shape_fallback"),
            Some("metal_packed_mapping_usage_fallback"),
            Some("metal_packed_mapping_flags_fallback"),
        ]
    );
}

#[test]
fn counters_and_reasons_keep_their_names() {
    assert_eq!(PackedNote::Misses.slug(), "metal_packed_sampled_misses");
    assert_eq!(
        MappingNote::HitAuditBytes { bytes: 1 }.slug(),
        "metal_packed_mapping_hit_audit_bytes"
    );
    assert_eq!(RetainReport::Nothing.slug(), None);
    assert_eq!(
        RetainReport::StateConflict.slug(),
        Some("metal_packed_sampled_resource_state_conflict")
    );
    assert_eq!(
        LoadRefusal::SampledTexturePitch.reason(),
        Some("draw_mtl_sampled_texture_pitch")
    );
    assert_eq!(LoadRefusal::Absent.reason(), None);
}
