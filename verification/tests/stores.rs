use reims_vgpu::buffer_source::{
    buffer_source, native_byte_format, row_route, source_format, BufferTextureShape, FetchedRows,
    RowRoute, SampledAnswer, SampledByteFormat, SourceRefusal, MTL_FORMAT_BGRA8_UNORM,
};
use reims_vgpu::inputs::{
    capture_step, finish_fill, finish_read, plain_input_draw, requested_extent, BufferBind,
    Capture, CaptureRefusal, CaptureStep, DrawInputs, Fill, InputPlan, InputWindow,
    VertexAttribute,
};
use reims_vgpu::isolation::TargetIdentity;
use reims_vgpu::metal_storage::{
    draw_status, plan_upload, DrawAttachments, EncodeStatus, Entry, Readout, StagedTexels,
    StagingStatus, WritableTextures,
};
use reims_vgpu::native_seed::{
    buffer_seed, linear_request, linear_seed, requires_native, seed_route, BufferTexture,
    LinearRequest, NativeLayout, NativeSeed, SeedRefusal, SeedRoute, SeedSpan, SeedTexels,
    SeedView,
};
use reims_vgpu::output::{after_write, canonicalize, CacheStore};
use reims_vgpu::pixel::{
    color_attachment, memoryless_color_attachment, sampled_image, sampled_pixels, storage_image,
    translate, vk_sampled_bytes, ColorAttachmentFormat, ColorNumericType, LayoutSpellings,
    PixelFormat, Sampled, SwizzlePlan, TableRefusal, TranslateReason, MTL_FORMAT_R32_FLOAT,
    SRGB_DOWNGRADED_SLUG,
};
use reims_vgpu::primary_store::{
    GvaStore, PrimaryFacts, StoreAnswers, StoreEnd, StoreFailure, StoreResources, StoreRoutes,
    StoreStep, Timing,
};
use reims_vgpu::secondary_store::{
    ColorRequest, Destination, DestinationFacts, SecondaryTarget, StoreAction, StoreReason, Stores,
};
use reims_vgpu::storage::{StorageImageFormat, TextureObject, TextureShape};

const PAGE: u64 = 1 << 14;
const MAPPING: u32 = 42;
const MTL_FORMAT_A8_UNORM: u16 = 1;
const MTL_FORMAT_R16_FLOAT: u16 = 25;
const MTL_FORMAT_R16_UNORM: u16 = 20;
const MTL_FORMAT_RG16_UNORM: u16 = 60;
const MTL_FORMAT_RG16_FLOAT: u16 = 65;
const MTL_FORMAT_RGBA8_UNORM: u16 = 70;
const MTL_FORMAT_RGBA8_UNORM_SRGB: u16 = 71;
const MTL_FORMAT_BGRA8_UNORM_SRGB: u16 = 81;
const MTL_FORMAT_RGB10A2_UNORM: u16 = 90;
const MTL_FORMAT_RG11B10_FLOAT: u16 = 92;
const MTL_FORMAT_BGR10A2_UNORM: u16 = 94;
const MTL_FORMAT_RGBA16_UNORM: u16 = 110;
const MTL_FORMAT_RGBA16_FLOAT: u16 = 115;
const MTL_FORMAT_RGBA32_FLOAT: u16 = 125;

const RGBA8: NativeLayout = NativeLayout { id: 1, four_byte_color: true };
const BGRA8: NativeLayout = NativeLayout { id: 2, four_byte_color: true };
const RGBA16F: NativeLayout = NativeLayout { id: 3, four_byte_color: false };
const RGBA32F: NativeLayout = NativeLayout { id: 4, four_byte_color: false };
const IDENTITY: SwizzlePlan = SwizzlePlan { r: 0, g: 1, b: 2, a: 3 };

fn draw() -> DrawInputs {
    DrawInputs {
        visibility: false,
        depth_attach: false,
        stencil_attach: false,
        vertex_textures: Vec::new(),
        fragment_textures: Vec::new(),
    }
}

#[test]
fn direct_fill_keeps_query_depth_and_texture_participants_on_cpu_route() {
    let mut request = draw();
    assert!(plain_input_draw(&request));
    request.fragment_textures.push(7);
    assert!(
        !plain_input_draw(&request),
        "access is not reflected before buffer reads"
    );
    request.fragment_textures[0] = 0;
    assert!(
        plain_input_draw(&request),
        "an unbound slot is not a texture participant"
    );
    request.depth_attach = true;
    assert!(!plain_input_draw(&request));
    request.depth_attach = false;
    request.stencil_attach = true;
    assert!(!plain_input_draw(&request));
    request.stencil_attach = false;
    request.visibility = true;
    assert!(!plain_input_draw(&request));
}

#[test]
fn direct_fill_excludes_every_binding_that_supplies_an_attribute_cpu_view() {
    let attributes = vec![
        VertexAttribute { buffer_index: 2, format: 29, stride: 8 },
        VertexAttribute { buffer_index: 4, format: 0, stride: 8 },
    ];
    let plan = InputPlan::new(&draw(), &attributes);
    assert!(
        plan.native_plain,
        "plain fragment input is independently eligible"
    );
    assert!(
        !plan.native_vertex(2),
        "attribute and storage uses must share the CPU snapshot"
    );
    assert!(plan.native_vertex(1));
    assert!(
        plan.native_vertex(4),
        "absent attribute format does not create a CPU view"
    );

    let window = Some(InputWindow { size: 32, offset: 8, len: 24 });
    let capture = if plan.native_vertex(2) {
        Capture::Native { extent: Some(4) }
    } else {
        Capture::Cpu
    };
    let Ok(CaptureStep::Read) = capture_step(capture, window, true) else {
        panic!("attribute source escaped its CPU owner")
    };
    assert_eq!(finish_read(Some(vec![0x11; 24])), Ok(vec![0x11; 24]));
}

#[test]
fn a_capture_is_refused_by_its_first_missing_part() {
    let window = Some(InputWindow { size: 64, offset: 16, len: 8 });
    let native = Capture::Native { extent: Some(8) };
    assert_eq!(requested_extent(native), Some(8));
    assert_eq!(requested_extent(Capture::Cpu), None);
    assert_eq!(capture_step(native, None, false), Err(CaptureRefusal::Missed));
    assert_eq!(
        capture_step(native, window, false),
        Err(CaptureRefusal::DeviceUnavailable)
    );
    assert_eq!(capture_step(Capture::Cpu, window, false), Ok(CaptureStep::Read));
    assert_eq!(
        capture_step(native, window, true),
        Ok(CaptureStep::FillNative { size: 64, offset: 16, len: 8 })
    );
    assert_eq!(finish_read(None), Err(CaptureRefusal::Missed));
    let scoped = Capture::ScopedNative { extent: Some(4) };
    assert_eq!(requested_extent(scoped), Some(4));
    assert_eq!(capture_step(scoped, None, true), Err(CaptureRefusal::Missed));
    assert_eq!(
        capture_step(scoped, window, false),
        Err(CaptureRefusal::DeviceUnavailable)
    );
    assert_eq!(
        capture_step(scoped, window, true),
        Ok(CaptureStep::Snapshot { size: 64, offset: 16, len: 8 })
    );
    let bind = BufferBind { index: 3, attribute_stride: Some(16) };
    let input = finish_fill(&bind, Ok(vec![1u8, 2])).unwrap();
    assert_eq!((input.binding, input.attribute_stride, input.bytes), (3, Some(16), vec![1, 2]));
    let refusal = |fill| finish_fill::<u8>(&bind, Err(fill)).unwrap_err();
    assert_eq!(refusal(Fill::Backend), CaptureRefusal::Backend);
    assert_eq!(refusal(Fill::Callback), CaptureRefusal::Missed);
    assert!(CaptureRefusal::Backend.is_device());
    assert!(!CaptureRefusal::Missed.is_device());
}

fn color(slot: u32, gva: u64, mapping_id: u32) -> ColorRequest {
    ColorRequest {
        slot,
        texture_ref: slot + 10,
        target_gva: gva,
        mapping_id,
        width: 4,
        height: 2,
        format: MTL_FORMAT_RGBA16_FLOAT,
        sample_count: 1,
        multisample_source_ref: 0,
        memoryless: false,
        store_action: StoreAction::Store,
    }
}

fn target(color: &ColorRequest) -> SecondaryTarget {
    let identity = if color.mapping_id != 0 {
        TargetIdentity::Surface { id: u64::from(color.mapping_id) }
    } else {
        TargetIdentity::Gva {
            gva: color.target_gva,
            width: color.width,
            height: color.height,
            generation: 51,
            format: 44,
        }
    };
    SecondaryTarget { identity, width: color.width, height: color.height }
}

/// What the guest's memory says: eight pages are mapped for the task, and one
/// surface.
fn facts(colors: &[ColorRequest]) -> Vec<DestinationFacts> {
    colors
        .iter()
        .map(|color| DestinationFacts {
            pages: color.target_gva < 8 * PAGE,
            mapping: color.mapping_id == MAPPING,
        })
        .collect()
}

fn fixture() -> (Vec<ColorRequest>, Vec<SecondaryTarget>) {
    let colors = vec![color(0, PAGE * 2, 0), color(1, PAGE, 0), color(2, 0, MAPPING)];
    let targets = colors.iter().skip(1).map(target).collect();
    (colors, targets)
}

#[test]
fn secondary_mapping_and_gva_stores_publish_their_own_pixels_not_the_primary() {
    let (colors, targets) = fixture();
    let stores = Stores::capture(&colors, &targets, &facts(&colors), true).unwrap();
    let expected_ids: Vec<_> = targets.iter().map(|target| target.identity).collect();
    let seen: Vec<_> = stores.stores.iter().map(|store| store.identity).collect();
    assert_eq!(seen, expected_ids);
    assert_eq!(stores.stores[0].destination, Destination::Gva);
    assert_eq!(stores.stores[1].destination, Destination::Mapping);
    assert!(stores.stores.iter().all(|store| store.color.slot != 0));
    let (published, result) = stores.publish(&vec![true, true], &vec![true, true]);
    assert_eq!(result, Ok(()));
    assert!(published[0].surface.is_none());
    let surface = published[1].surface.unwrap();
    assert_eq!((surface.mapping_id, surface.width, surface.height), (MAPPING, 4, 2));
    assert_eq!(surface.format, MTL_FORMAT_RGBA16_FLOAT);
}

#[test]
fn secondary_dontcare_memoryless_and_intermediate_draws_publish_nothing() {
    let (mut colors, targets) = fixture();
    let intermediate = Stores::capture(&colors, &targets, &facts(&colors), false).unwrap();
    assert!(intermediate.stores.is_empty());
    colors[1].store_action = StoreAction::Discard;
    colors[2].store_action = StoreAction::Discard;
    colors[2].memoryless = true;
    let discarded = Stores::capture(&colors, &targets, &facts(&colors), true).unwrap();
    assert!(discarded.stores.is_empty());
    assert_eq!(discarded.publish(&vec![], &vec![]).1, Ok(()));
}

#[test]
fn secondary_store_refuses_missing_pages_unknown_actions_and_memoryless_backing() {
    let (colors, _) = fixture();
    for (mutated, want) in [
        (
            ColorRequest { target_gva: PAGE * 100, ..colors[1] },
            "draw_vk_secondary_store_pages",
        ),
        (
            ColorRequest { store_action: StoreAction::Undeclared, ..colors[1] },
            "draw_vk_secondary_store_action",
        ),
        (
            ColorRequest { memoryless: true, ..colors[1] },
            "draw_vk_secondary_store_memoryless",
        ),
    ] {
        let mut input = colors.clone();
        input[1] = mutated;
        let inputs_targets: Vec<_> = input.iter().skip(1).map(target).collect();
        let Err(refusal) = Stores::capture(&input, &inputs_targets, &facts(&input), true) else {
            panic!("unlicensed Store was accepted")
        };
        assert_eq!(refusal.reason.slug(), want);
    }
}

#[test]
fn secondary_store_refuses_foreign_identities_and_multisampled_targets() {
    let (colors, targets) = fixture();
    let refuse = |colors: &Vec<ColorRequest>, targets: &Vec<SecondaryTarget>| {
        Stores::capture(colors, targets, &facts(colors), true).unwrap_err().reason
    };
    let mut other = targets.clone();
    other[0].identity = TargetIdentity::PassLocal { id: 1 };
    assert_eq!(refuse(&colors, &other), StoreReason::Identity);
    other = targets.clone();
    other[0].width = 5;
    assert_eq!(refuse(&colors, &other), StoreReason::Identity);
    assert_eq!(refuse(&colors, &vec![targets[0]]).slug(), "draw_vk_secondary_store_identity");
    for (sample_count, source, action) in [
        (4, 0, StoreAction::Store),
        (1, 9, StoreAction::Store),
        (1, 0, StoreAction::Resolve),
    ] {
        let mut multi = colors.clone();
        multi[1].sample_count = sample_count;
        multi[1].multisample_source_ref = source;
        multi[1].store_action = action;
        assert_eq!(refuse(&multi, &targets), StoreReason::Multisample);
    }
    assert_eq!(StoreReason::Multisample.slug(), "draw_vk_secondary_store_multisample");
    let mut unmapped = colors.clone();
    unmapped[2].mapping_id = 7;
    let unmapped_targets: Vec<_> = unmapped.iter().skip(1).map(target).collect();
    assert_eq!(refuse(&unmapped, &unmapped_targets), StoreReason::Mapping);
    assert_eq!(StoreReason::Mapping.slug(), "draw_vk_secondary_store_mapping");
    let mut nowhere = colors.clone();
    nowhere[1].target_gva = 0;
    let nowhere_targets: Vec<_> = nowhere.iter().skip(1).map(target).collect();
    assert_eq!(refuse(&nowhere, &nowhere_targets), StoreReason::Destination);
    assert_eq!(StoreReason::Destination.slug(), "draw_vk_secondary_store_destination");
}

#[test]
fn secondary_mapping_replacement_refuses_before_any_attachment_is_published() {
    let (colors, targets) = fixture();
    let stores = Stores::capture(&colors, &targets, &facts(&colors), true).unwrap();
    let (published, result) = stores.publish(&vec![true, false], &vec![true, true]);
    assert!(published.is_empty(), "one destination moved");
    let refusal = result.unwrap_err();
    assert_eq!(refusal.reason.slug(), "draw_vk_secondary_store_mapping_moved");
    assert_eq!(refusal.slot, 2);
    assert!(stores.check_current(&vec![false, true]).is_ok(), "only surfaces can move");
}

#[test]
fn failed_secondary_publication_is_not_success() {
    let (colors, targets) = fixture();
    let stores = Stores::capture(&colors, &targets, &facts(&colors), true).unwrap();
    let (published, result) = stores.publish(&vec![true, true], &vec![false, false]);
    assert!(published.is_empty());
    let refusal = result.unwrap_err();
    assert_eq!(refusal.slot, 1);
    assert_eq!(refusal.reason.slug(), "draw_vk_secondary_store_transfer");
    let (published, result) = stores.publish(&vec![true, true], &vec![true, false]);
    assert_eq!(published.len(), 1);
    assert_eq!(result.unwrap_err().texture_ref, 12);
}

fn primary(format: u16) -> PrimaryFacts {
    PrimaryFacts {
        store_action: Some(StoreAction::Store),
        identity: Some(TargetIdentity::Gva {
            gva: PAGE,
            width: 4,
            height: 2,
            generation: 1,
            format: i32::from(format),
        }),
        gpu_only_content_allowed: true,
        defer_eligible: true,
        requires_native: requires_native_store(format),
        writeback_guest: true,
    }
}

fn requires_native_store(format: u16) -> bool {
    [MTL_FORMAT_RGBA16_FLOAT, MTL_FORMAT_RG16_FLOAT, MTL_FORMAT_RGBA32_FLOAT].contains(&format)
}

fn resources() -> StoreResources {
    StoreResources { target_identity: None, skip_readback: false }
}

#[test]
fn primary_gva_store_selection_preserves_deferred_and_native_only_sync_routes() {
    for format in [
        MTL_FORMAT_RGBA8_UNORM,
        MTL_FORMAT_BGRA8_UNORM,
        MTL_FORMAT_RGBA16_FLOAT,
        MTL_FORMAT_RG16_FLOAT,
        MTL_FORMAT_RGBA32_FLOAT,
    ] {
        for allow_deferred in [false, true] {
            let facts = PrimaryFacts {
                gpu_only_content_allowed: allow_deferred,
                ..primary(format)
            };
            let mut resources = resources();
            let store = GvaStore::prepare(&facts, &mut resources);
            let native = requires_native_store(format);
            assert_eq!(store.is_some(), allow_deferred || native);
            if let Some(store) = store {
                assert_eq!(resources.target_identity.as_ref(), Some(&store.identity));
                assert!(resources.skip_readback);
                assert_eq!(matches!(store.timing, Timing::MayDefer), allow_deferred);
            } else {
                assert!(!resources.skip_readback);
                assert!(resources.target_identity.is_none());
            }
        }
    }
}

#[test]
fn primary_gva_store_never_claims_intermediate_discard_or_mapped_records() {
    for case in 0..5 {
        let mut facts = primary(MTL_FORMAT_RGBA16_FLOAT);
        facts.writeback_guest = case != 0;
        match case {
            1 => facts.store_action = Some(StoreAction::Discard),
            // A surface, or no address at all, has no linear identity.
            2 | 3 => facts.identity = None,
            4 => facts.store_action = None,
            _ => {}
        }
        let mut resources = resources();
        assert!(GvaStore::prepare(&facts, &mut resources).is_none());
        assert!(resources.target_identity.is_none());
        assert!(!resources.skip_readback);
    }
}

const NOTHING: StoreAnswers = StoreAnswers {
    color: true,
    native_live: true,
    armed: false,
    native_published: false,
    read_back: false,
};

#[test]
fn primary_gva_store_successful_deferred_arm_never_reads_or_copies_pixels() {
    for format in [MTL_FORMAT_BGRA8_UNORM, MTL_FORMAT_RGBA16_FLOAT] {
        let store = GvaStore::prepare(&primary(format), &mut resources()).unwrap();
        // There is deliberately no rendered image: only the arm succeeds.
        let (routes, result) = store.finish(&StoreAnswers { armed: true, ..NOTHING });
        assert!(matches!(result, Ok(StoreEnd::Complete)));
        assert!(routes.resident_authoritative);
        assert!(!routes.sync);
        assert_eq!(store.begin(true, true), Ok(StoreStep::Arm));
        assert_eq!(store.after_arm(true), None);
    }
}

#[test]
fn a_primary_store_that_is_not_armed_writes_synchronously() {
    let flush = StoreRoutes { flush: true, resident_authoritative: false, sync: false, native: false };
    let native = GvaStore::prepare(&primary(MTL_FORMAT_RGBA16_FLOAT), &mut resources()).unwrap();
    assert_eq!(
        native.finish(&StoreAnswers { native_published: true, read_back: true, ..NOTHING }),
        (StoreRoutes { sync: true, native: true, ..flush }, Ok(StoreEnd::Complete))
    );
    assert_eq!(
        native.finish(&StoreAnswers { read_back: true, ..NOTHING }),
        (StoreRoutes { sync: true, ..flush }, Err(StoreFailure::Native))
    );
    assert_eq!(
        native.finish(&StoreAnswers { native_live: false, armed: true, ..NOTHING }),
        (flush, Err(StoreFailure::Native))
    );
    assert_eq!(native.after_arm(false), Some(StoreStep::PublishNative));
    let plain = GvaStore::prepare(&primary(MTL_FORMAT_BGRA8_UNORM), &mut resources()).unwrap();
    assert_eq!(
        plain.finish(&StoreAnswers { read_back: true, ..NOTHING }).1,
        Ok(StoreEnd::Rgba8)
    );
    let (_, failed) = plain.finish(&NOTHING);
    assert_eq!(failed, Err(StoreFailure::Readback));
    assert_eq!(StoreFailure::Readback.slug(), Some("draw_vk_gva_resident_readback"));
    let (_, missing) = plain.finish(&StoreAnswers { color: false, ..NOTHING });
    assert_eq!(missing, Err(StoreFailure::TargetMissing));
    assert_eq!(
        StoreFailure::TargetMissing.slug(),
        Some("draw_vk_gva_store_target_missing")
    );
    assert_eq!(StoreFailure::Native.slug(), None);
}

#[test]
fn graphics_output_native_orders_publish_correct_guest_bytes_and_sampling_caches() {
    let rgba = [
        0xab, 0xff, 0xff, 0xff, 0x55, 0x40, 0x00, 0xff, //
        0x10, 0x20, 0x30, 0x7f, 0x43, 0x65, 0x87, 0x9a,
    ];
    let bgra: Vec<u8> = rgba.chunks(4).flat_map(|p| [p[2], p[1], p[0], p[3]]).collect();
    for source_bgra in [false, true] {
        let mut pixels = if source_bgra { bgra.clone() } else { rgba.to_vec() };
        canonicalize(&mut pixels, source_bgra);
        assert_eq!(pixels, rgba, "the publisher owns canonicalization");
        assert_eq!(
            after_write(true, Some(3)),
            Some(CacheStore { object_type: 3, guest_holds_bytes: true })
        );
    }
    assert_eq!(after_write(true, None).unwrap().object_type, 0);
}

#[test]
fn graphics_output_failed_licensed_store_cannot_publish_sampling_cache() {
    let mut pixels = vec![0, 0x40, 0x55, 0xff].repeat(4);
    canonicalize(&mut pixels, true);
    assert_eq!(pixels, vec![0x55, 0x40, 0, 0xff].repeat(4));
    assert!(after_write(false, Some(3)).is_none());
}

#[test]
fn a_trailing_part_of_a_texel_is_left_alone_and_a_second_swap_restores() {
    let start = vec![1, 2, 3, 4, 5, 6, 7];
    let mut pixels = start.clone();
    canonicalize(&mut pixels, true);
    assert_eq!(pixels, vec![3, 2, 1, 4, 5, 6, 7]);
    canonicalize(&mut pixels, true);
    assert_eq!(pixels, start);
}

fn span() -> SeedSpan {
    SeedSpan {
        texture_ref: 21,
        gva: 5 * PAGE,
        width: 4,
        height: 2,
        row_stride: 48,
        layout: Some(RGBA16F),
        mip_level: 0,
    }
}

/// The native rows of a padded allocation.
fn load_rows(padded: &[u8]) -> SeedTexels {
    SeedTexels {
        width: 4,
        height: 2,
        layout: Some(RGBA16F),
        bytes: [&padded[..32], &padded[48..80]].concat(),
    }
}

#[test]
fn native_color_load_seed_preserves_tiny_hdr_negative_padding_and_fresh_mutation() {
    let mut expected: Vec<u8> = (0..8)
        .flat_map(|i| {
            [0x1001u16 + i, 0x4000, 0xb800, 0x3555]
                .into_iter()
                .flat_map(u16::to_le_bytes)
        })
        .collect();
    let mut padded = vec![0xee; 80];
    padded[..32].copy_from_slice(&expected[..32]);
    padded[48..80].copy_from_slice(&expected[32..]);
    let capture = |padded: &[u8]| match seed_route(&span(), None) {
        Ok(SeedRoute::Linear { layout }) => {
            assert_eq!(layout, RGBA16F);
            let seed = linear_seed(layout, Some(load_rows(padded))).unwrap();
            assert_eq!(seed.layout, RGBA16F);
            assert_eq!(seed.slug(), "load_seed_color_native");
            seed.bytes
        }
        _ => panic!("native LOAD may not pass through RGBA8"),
    };
    let first = capture(&padded);
    assert_eq!(first, expected);
    expected[..2].copy_from_slice(&0x1002u16.to_le_bytes());
    padded[..2].copy_from_slice(&0x1002u16.to_le_bytes());
    let second = capture(&padded);
    assert_eq!(second, expected);
    assert_eq!(&first[..2], &0x1001u16.to_le_bytes());
    assert_eq!(
        &padded[32..48],
        &[0xee; 16],
        "native capture never changes guest bytes or padding"
    );
}

#[test]
fn native_color_load_seed_residency_refusal_recaptures_native_not_rgba8() {
    let expected = load_rows(&vec![0x5a; 80]).bytes;
    assert!(requires_native(span().layout));
    let route = seed_route(&span(), None);
    assert_ne!(route, Ok(SeedRoute::Rgba8));
    let Ok(SeedRoute::Linear { layout }) = route else {
        panic!("a native target is loaded natively");
    };
    let seed = linear_seed(layout, Some(load_rows(&vec![0x5a; 80]))).unwrap();
    assert_eq!((seed.layout, seed.bytes), (RGBA16F, expected));
}

#[test]
fn native_seeds_refuse_another_place_size_or_layout() {
    let here = BufferTexture { base: Some(5 * PAGE - 8), offset: 8, bytes_per_row: 48 };
    assert_eq!(
        seed_route(&span(), Some(here)),
        Ok(SeedRoute::Buffer { layout: RGBA16F })
    );
    for elsewhere in [
        BufferTexture { base: None, ..here },
        BufferTexture { base: Some(5 * PAGE), ..here },
        BufferTexture { base: Some(u64::MAX), ..here },
        BufferTexture { bytes_per_row: 40, ..here },
    ] {
        assert_eq!(
            seed_route(&span(), Some(elsewhere)),
            Err(SeedRefusal::BufferAddress)
        );
    }
    assert_eq!(
        seed_route(&SeedSpan { mip_level: 1, ..span() }, Some(here)),
        Err(SeedRefusal::BufferAddress)
    );
    assert_eq!(
        seed_route(&SeedSpan { layout: None, ..span() }, Some(here)),
        Err(SeedRefusal::UnsupportedLayout)
    );
    // Four-byte colours take the ordinary seed, but only at the first level.
    let plain = SeedSpan { layout: Some(RGBA8), ..span() };
    assert_eq!(seed_route(&plain, Some(here)), Ok(SeedRoute::Rgba8));
    assert_eq!(
        seed_route(&SeedSpan { mip_level: 1, ..plain }, None),
        Ok(SeedRoute::Linear { layout: RGBA8 })
    );
    let staged = |width: u32, layout: NativeLayout| {
        Some(SeedTexels { width, height: 2, layout: Some(layout), bytes: vec![7; 64] })
    };
    let seed = buffer_seed(&span(), RGBA16F, staged(4, RGBA16F)).unwrap();
    assert_eq!((seed.layout, seed.bytes), (RGBA16F, vec![7; 64]));
    let refusal = |seed: Result<NativeSeed, SeedRefusal>| seed.unwrap_err();
    assert_eq!(
        refusal(buffer_seed(&span(), RGBA16F, staged(2, RGBA16F))),
        SeedRefusal::BufferLayout
    );
    assert_eq!(
        refusal(buffer_seed(&span(), RGBA16F, staged(4, RGBA32F))),
        SeedRefusal::BufferLayout
    );
    assert_eq!(refusal(buffer_seed(&span(), RGBA16F, None)), SeedRefusal::BufferStage);
    assert_eq!(
        refusal(linear_seed(RGBA16F, staged(4, RGBA32F))),
        SeedRefusal::LayoutMismatch
    );
    assert_eq!(refusal(linear_seed(RGBA16F, None)), SeedRefusal::Declined);
    assert_eq!(
        [
            SeedRefusal::UnsupportedLayout,
            SeedRefusal::BufferAddress,
            SeedRefusal::BufferStage,
            SeedRefusal::BufferLayout,
            SeedRefusal::LayoutMismatch,
            SeedRefusal::Declined,
        ]
        .map(SeedRefusal::slug),
        [
            Some("unsupported_layout"),
            Some("buffer_address"),
            Some("buffer_stage"),
            Some("buffer_layout"),
            Some("layout_mismatch"),
            None,
        ]
    );
}

#[test]
fn a_view_is_loaded_through_its_base_in_its_own_format() {
    let whole = LinearRequest {
        reference: 21,
        format: None,
        mip_level: 1,
        layout: RGBA16F,
        width: 4,
        height: 2,
        gva: 5 * PAGE,
        row_stride: 48,
    };
    let span = SeedSpan { mip_level: 1, ..span() };
    assert_eq!(linear_request(&span, RGBA16F, None), whole);
    let view = SeedView { base_texture_ref: 30, pixel_format: Some(MTL_FORMAT_RGBA16_FLOAT) };
    assert_eq!(
        linear_request(&span, RGBA16F, Some(view)),
        LinearRequest { reference: 30, format: Some(MTL_FORMAT_RGBA16_FLOAT), ..whole }
    );
}

fn shape(pixel_format: u16) -> BufferTextureShape {
    BufferTextureShape {
        texture_type: 2,
        depth: 1,
        mipmap_level_count: 1,
        sample_count: 1,
        array_length: 1,
        pixel_format,
    }
}

fn answer(layout: NativeLayout) -> Option<SampledAnswer> {
    Some(SampledAnswer { layout, identity_components: true, supported: true })
}

#[test]
fn buffer_upload_refuses_unadmitted_shapes_before_guest_io() {
    for case in 0..5 {
        let mut descriptor = shape(MTL_FORMAT_RGBA16_FLOAT);
        match case {
            0 => descriptor.texture_type = 7,
            1 => descriptor.depth = 2,
            2 => descriptor.mipmap_level_count = 2,
            3 => descriptor.sample_count = 4,
            _ => descriptor.array_length = 2,
        }
        // The shape is refused before the host's capability is asked for.
        let refusal = source_format(&descriptor).unwrap_err();
        assert_eq!(refusal.slug(), Some("sampled_buffer_texture_shape"));
        assert_eq!(row_route(&descriptor, answer(RGBA16F)), Err(SourceRefusal::Shape));
    }
}

#[test]
fn native_upload_admission_preserves_float_packed_and_plane_layouts() {
    for format in [
        MTL_FORMAT_R16_FLOAT,
        MTL_FORMAT_RG16_FLOAT,
        MTL_FORMAT_RGBA16_FLOAT,
        MTL_FORMAT_R32_FLOAT,
        MTL_FORMAT_RGBA32_FLOAT,
        MTL_FORMAT_RGBA16_UNORM,
        MTL_FORMAT_RGB10A2_UNORM,
        MTL_FORMAT_BGR10A2_UNORM,
        MTL_FORMAT_RG11B10_FLOAT,
        MTL_FORMAT_R16_UNORM,
        MTL_FORMAT_RG16_UNORM,
    ] {
        let expected = NativeLayout { id: u32::from(format), four_byte_color: false };
        assert_eq!(
            native_byte_format(format, answer(expected)).unwrap().unwrap().layout,
            expected
        );
        let refusal = native_byte_format(
            format,
            Some(SampledAnswer { layout: expected, identity_components: true, supported: false }),
        )
        .unwrap_err();
        assert_eq!(refusal.slug(), Some("sampled_native_format_host_unsupported"));
    }
}

#[test]
fn native_upload_does_not_lose_channel_mapping_or_transfer_function() {
    let alpha = SampledAnswer { layout: RGBA8, identity_components: false, supported: true };
    assert!(native_byte_format(MTL_FORMAT_A8_UNORM, Some(alpha)).unwrap().is_none());
    let srgb = native_byte_format(MTL_FORMAT_BGRA8_UNORM_SRGB, answer(BGRA8)).unwrap().unwrap();
    assert_eq!(srgb.layout, BGRA8);
    assert_eq!(srgb.source, MTL_FORMAT_BGRA8_UNORM_SRGB);
}

#[test]
fn buffer_rows_are_native_or_converted_and_keep_their_format() {
    let fetched = || Some(FetchedRows { width: 2, height: 2, bytes: vec![9; 32] });
    let native = buffer_source(&shape(MTL_FORMAT_RGBA16_FLOAT), answer(RGBA16F), RGBA8, fetched())
        .unwrap();
    assert_eq!((native.width, native.height), (2, 2));
    assert_eq!(native.bytes, vec![9; 32]);
    assert_eq!(
        native.format,
        SampledByteFormat { layout: RGBA16F, source: MTL_FORMAT_RGBA16_FLOAT }
    );
    // No format is the device's own order.
    assert_eq!(source_format(&shape(0)), Ok(MTL_FORMAT_BGRA8_UNORM));
    let converted = buffer_source(&shape(MTL_FORMAT_A8_UNORM), None, RGBA8, fetched()).unwrap();
    assert_eq!(
        converted.format,
        SampledByteFormat { layout: RGBA8, source: MTL_FORMAT_A8_UNORM }
    );
    assert_eq!(row_route(&shape(MTL_FORMAT_A8_UNORM), None), Ok(RowRoute::Converted));
    let missing = buffer_source(&shape(0), None, RGBA8, None).err().unwrap();
    assert_eq!(missing.slug(), Some("sampled_buffer_texture_conversion"));
    assert!(matches!(
        buffer_source(&shape(0), answer(BGRA8), RGBA8, None),
        Err(SourceRefusal::Stage)
    ));
}

fn object(levels: u32) -> Option<TextureObject> {
    Some(TextureObject {
        plain_texture: true,
        shape: Some(TextureShape {
            mipmap_level_count: levels,
            depth: 1,
            sample_count: Some(1),
        }),
    })
}

fn attachments() -> DrawAttachments {
    DrawAttachments { colors: Vec::new(), depth: None, stencil: None }
}

fn texels() -> StagedTexels {
    StagedTexels {
        width: 4,
        height: 2,
        selector: Ok(9),
        tight_row: Some(32),
        bytes: (0..64).collect(),
    }
}

#[test]
fn writable_aliases_share_native_identity_and_publish_partial_native_texels() {
    let mut storage = WritableTextures::new();
    assert_eq!(storage.add(&attachments(), 7, object(1)), Ok(Entry::Stage));
    let upload = plan_upload(&Ok(texels()), true).unwrap();
    assert_eq!((upload.selector, upload.bytes_per_row), (9, 32));
    storage.take_uploaded(7, texels(), upload.bytes_per_row, Ok(0xabc)).unwrap();
    assert_eq!(storage.add(&attachments(), 7, object(1)), Ok(Entry::Held));
    assert_eq!(storage.textures.len(), 1);
    let first = storage.image(7, 3).unwrap();
    let second = storage.image(7, 4).unwrap();
    assert_eq!((first.binding, second.binding), (35, 36));
    assert_eq!(first.texture, second.texture);
    assert!(storage.image(8, 3).is_none());
    let replacement = [0x00u8, 0x40, 0x00, 0xBC, 0x01, 0x38, 0x00, 0x3C];
    let mut written: Vec<u8> = (0..64).collect();
    written[40..48].copy_from_slice(&replacement);
    storage.publish(vec![written.clone()], &vec![Readout { status: None }]).unwrap();
    assert_eq!(storage.textures[0].bytes, written, "untouched texels survive");
}

#[test]
fn writable_pyramids_and_attachment_aliases_are_not_flattened() {
    let storage = WritableTextures::new();
    let mut req = attachments();
    assert_eq!(
        storage.add(&req, 7, object(2)),
        Err(EncodeStatus::Unsupported("draw_mtl_storage_texture_shape")),
    );
    req.colors.push(7);
    assert_eq!(
        storage.add(&req, 7, object(2)),
        Err(EncodeStatus::Unsupported("draw_mtl_storage_attachment_alias")),
    );
    assert!(storage.textures.is_empty());
}

#[test]
fn writable_textures_refuse_in_order_and_publish_up_to_a_failure() {
    let mut storage = WritableTextures::new();
    assert_eq!(
        storage.add(&attachments(), 7, None),
        Err(EncodeStatus::BadArgs("draw_mtl_storage_missing_texture"))
    );
    for attachment in [
        DrawAttachments { depth: Some((1, 7)), ..attachments() },
        DrawAttachments { stencil: Some((7, 1)), ..attachments() },
    ] {
        assert!(storage.add(&attachment, 7, object(1)).is_err());
    }
    let staged = |selector, tight_row| Ok(StagedTexels { selector, tight_row, ..texels() });
    assert_eq!(
        plan_upload(&Err(StagingStatus::GuestIo("read")), true),
        Err(EncodeStatus::WritebackFailed("read"))
    );
    assert_eq!(
        plan_upload(&staged(Err(StagingStatus::Unsupported("format")), None), true),
        Err(EncodeStatus::Unsupported("format"))
    );
    assert_eq!(
        plan_upload(&staged(Ok(1), None), true),
        Err(EncodeStatus::BadArgs("draw_mtl_storage_texture_pitch"))
    );
    assert_eq!(
        plan_upload(&staged(Ok(1), Some(32)), false),
        Err(EncodeStatus::NoMetal("draw_mtl_storage_device"))
    );
    assert_eq!(
        storage.take_uploaded(9, texels(), 32, Err(5)),
        Err(EncodeStatus::RailRefused(5))
    );
    for reference in [9, 3, 6] {
        storage.take_uploaded(reference, texels(), 32, Ok(u64::from(reference))).unwrap();
    }
    assert_eq!(
        storage.textures.iter().map(|t| t.reference).collect::<Vec<_>>(),
        vec![3, 6, 9]
    );
    let failure = Readout { status: Some(StagingStatus::BadGrid("grid")) };
    let fine = Readout { status: None };
    let result = storage.publish(
        vec![vec![1], vec![2], vec![3]],
        &vec![fine, failure, fine],
    );
    assert_eq!(result, Err(EncodeStatus::BadArgs("grid")));
    assert_eq!(storage.textures[0].bytes, vec![1]);
    assert_eq!(storage.textures[1].bytes, vec![2]);
    assert_eq!(storage.textures[2].bytes.len(), 64);
    for (status, want) in [
        (StagingStatus::RailRefused(4), EncodeStatus::RailRefused(4)),
        (StagingStatus::MissingPipeline("a"), EncodeStatus::MissingPipeline("a")),
        (StagingStatus::MissingMtlb("a"), EncodeStatus::MissingMtlb("a")),
        (StagingStatus::MissingBuffer("a"), EncodeStatus::BadArgs("a")),
        (StagingStatus::MissingTexture("a"), EncodeStatus::BadArgs("a")),
        (StagingStatus::MissingSampler("a"), EncodeStatus::BadArgs("a")),
        (StagingStatus::MetalFailed("a"), EncodeStatus::MetalFailed("a")),
        (StagingStatus::NoMetal("a"), EncodeStatus::NoMetal("a")),
        (
            StagingStatus::Done,
            EncodeStatus::BadArgs("draw_mtl_storage_invalid_status"),
        ),
    ] {
        assert_eq!(draw_status(status), want);
    }
}

/// The typed reason and the always-on census line must name the class
/// identically, or a grep of the fail log misses half the evidence.
#[test]
fn the_downgrade_slug_matches_the_always_on_census() {
    assert_eq!(TranslateReason::SrgbDowngraded(0).slug(), SRGB_DOWNGRADED_SLUG);
}

#[test]
fn a_dropped_transfer_function_is_recorded_and_an_attachment_keeps_its_own() {
    for mtl in [MTL_FORMAT_RGBA8_UNORM_SRGB, MTL_FORMAT_BGRA8_UNORM_SRGB] {
        let sampled = Sampled { layout: RGBA8, components: IDENTITY, srgb_lost: true };
        let (layout, decline, plan) = sampled_pixels(mtl, Ok(sampled)).unwrap();
        assert_eq!((layout, plan), (RGBA8, IDENTITY));
        assert_eq!(decline, Some(TranslateReason::SrgbDowngraded(mtl)));
        let linear = Sampled { srgb_lost: false, ..sampled };
        assert_eq!(sampled_pixels(mtl, Ok(linear)).unwrap().1, None);
    }
    let srgb = ColorAttachmentFormat { vk: 43, numeric: ColorNumericType::Float };
    assert_eq!(color_attachment(Ok(srgb)), Ok((srgb, None)));
}

#[test]
fn cpu_bytes_reach_the_sampler_in_the_colour_space_of_their_source() {
    let unorm = ash::vk::Format::R8G8B8A8_UNORM.as_raw();
    let srgb = ash::vk::Format::R8G8B8A8_SRGB.as_raw();
    let spellings = LayoutSpellings { linear: unorm, srgb: Some(srgb) };
    assert_eq!(vk_sampled_bytes(spellings, Some(71)), (srgb, None));
    assert_eq!(vk_sampled_bytes(spellings, None), (unorm, None));
    let half = ash::vk::Format::R16_SFLOAT.as_raw();
    let linear_only = LayoutSpellings { linear: half, srgb: None };
    assert_eq!(vk_sampled_bytes(linear_only, Some(71)), (half, Some(71)));
}

#[test]
fn table_refusals_keep_their_names_apart() {
    let format = PixelFormat { vk: 100, linear_vk: 100, components: IDENTITY };
    assert_eq!(translate(Ok(format)), Ok(format));
    let unknown = TableRefusal::UnknownPixelFormat(0xffff);
    assert_eq!(translate(Err(unknown)), Err(TranslateReason::UnknownPixelFormat(0xffff)));
    assert_eq!(
        sampled_pixels(113, Err(TableRefusal::NoSampledLayout(113))),
        Err(TranslateReason::NoSampledLayout(113))
    );
    assert_eq!(
        color_attachment(Err(TableRefusal::NoColorAttachmentFormat(55))),
        Err(TranslateReason::NoColorAttachmentFormat(55))
    );
    assert_eq!(
        storage_image(Err(TableRefusal::NoStorageImageFormat(1))),
        Err(TranslateReason::NoStorageImageFormat(1))
    );
    assert_eq!(sampled_image(Err(unknown)), Err(TranslateReason::UnknownPixelFormat(0xffff)));
    assert_eq!(
        storage_image(Ok(StorageImageFormat::R8Unorm)),
        Ok(StorageImageFormat::R8Unorm)
    );
    assert_eq!(
        sampled_image(Ok(StorageImageFormat::Rgba16Float)),
        Ok(StorageImageFormat::Rgba16Float)
    );
    let slugs = [
        TranslateReason::UnknownPixelFormat(0),
        TranslateReason::NoSampledLayout(0),
        TranslateReason::NoColorAttachmentFormat(0),
        TranslateReason::NoStorageImageFormat(0),
        TranslateReason::SrgbDowngraded(0),
    ]
    .map(TranslateReason::slug);
    for (n, slug) in slugs.iter().enumerate() {
        assert!(!slugs[..n].contains(slug));
    }
}

#[test]
fn pass_local_storage_admits_one_more_format() {
    let vk = ash::vk::Format::R32_SFLOAT.as_raw();
    let format = PixelFormat { vk, linear_vk: vk, components: IDENTITY };
    let refused = Err(TableRefusal::NoColorAttachmentFormat(MTL_FORMAT_R32_FLOAT));
    assert_eq!(
        memoryless_color_attachment(MTL_FORMAT_R32_FLOAT, Some(4), Ok(format), refused),
        Ok(ColorAttachmentFormat { vk, numeric: ColorNumericType::Float })
    );
    assert_eq!(
        memoryless_color_attachment(MTL_FORMAT_R32_FLOAT, None, Ok(format), refused),
        Err(TranslateReason::NoColorAttachmentFormat(MTL_FORMAT_R32_FLOAT))
    );
    let uint = ColorAttachmentFormat { vk: 81, numeric: ColorNumericType::Uint };
    assert_eq!(
        memoryless_color_attachment(63, Some(4), Ok(format), Ok(uint)),
        Ok(uint)
    );
    assert_eq!(
        memoryless_color_attachment(63, Some(4), Ok(format), Err(TableRefusal::UnknownPixelFormat(63))),
        Err(TranslateReason::UnknownPixelFormat(63))
    );
}

#[test]
fn native_color_load_seed_refuses_wrong_extent_layout_address_or_pitch_without_narrowing() {
    let own = linear_request(&span(), RGBA16F, None);
    // The loader serves only the texture's own window. What it is asked for names
    // the changed one exactly.
    let load = |request: LinearRequest| {
        if request == (LinearRequest { layout: request.layout, ..own }) {
            Some(load_rows(&vec![0x5a; 80]))
        } else {
            None
        }
    };
    for changed in 0..4 {
        let mut span = span();
        match changed {
            0 => span.width = 2,
            1 => span.layout = Some(RGBA32F),
            2 => span.gva += 8,
            _ => span.row_stride = 40,
        }
        let Ok(SeedRoute::Linear { layout }) = seed_route(&span, None) else {
            panic!("a native target is never narrowed");
        };
        assert!(
            linear_seed(layout, load(linear_request(&span, layout, None))).is_err(),
            "invalid native capture case {changed}"
        );
    }
}

#[test]
fn buffer_upload_preserves_native_bytes_offset_pitch_and_last_row_extent() {
    for (format, texel) in [
        (MTL_FORMAT_R16_FLOAT, 2),
        (MTL_FORMAT_RG16_FLOAT, 4),
        (MTL_FORMAT_RGBA16_FLOAT, 8),
        (MTL_FORMAT_RGBA32_FLOAT, 16),
        (MTL_FORMAT_RGBA16_UNORM, 8),
        (MTL_FORMAT_RGB10A2_UNORM, 4),
        (MTL_FORMAT_BGR10A2_UNORM, 4),
        (MTL_FORMAT_RG11B10_FLOAT, 4),
    ] {
        let layout = NativeLayout { id: u32::from(format), four_byte_color: false };
        let tight: usize = 2 * texel;
        let expected: Vec<u8> = (0..tight * 2).map(|b| b as u8).collect();
        let mut bytes = vec![0xee; 8 + tight + 16 + tight];
        for y in 0..2 {
            let start = 8 + y * (tight + 16);
            bytes[start..start + tight].copy_from_slice(&expected[y * tight..(y + 1) * tight]);
        }
        let Ok(RowRoute::Native { .. }) = row_route(&shape(format), answer(layout)) else {
            panic!("buffer-backed image must own copied native rows");
        };
        let rows = (0..2)
            .flat_map(|y| bytes[8 + y * (tight + 16)..][..tight].to_vec())
            .collect();
        let source = buffer_source(
            &shape(format),
            answer(layout),
            RGBA8,
            Some(FetchedRows { width: 2, height: 2, bytes: rows }),
        )
        .unwrap();
        assert_eq!((source.width, source.height), (2, 2));
        assert_eq!(source.bytes, expected);
        assert_eq!(source.format.layout, layout);
    }
}
