use reims_vgpu::coverage::GuestPageFootprint;
use reims_vgpu::input_snapshot::cache::Switch;
use reims_vgpu::interlock_diagnostic::{
    describe, observation_line, relate, requested, ObservationCounts, ObservationKey,
    ObservedColor, ObservedDraw, ObservedMapping, ObservedTexture, Residency, OBSERVATION_LIMIT,
    PIPELINE_LIMIT,
};
use reims_vgpu::isolation::{
    storage_signature, ColorBacking, InterlockIsolationRefusal as E, IsolationColor, NativeRequest,
    TargetIdentity,
};
use reims_vgpu::native_pipeline::tables::TextureAccess;
use reims_vgpu::scope::ScopeRegistry;
use reims_vgpu::storage::{
    next_rounding, round_writes, rounded, stage_plan, used_bindings, write_rounding_targets,
    Admission, AttachmentRefs, FormatAnswer,
    GraphicsStorageDecline as Refused, GraphicsStorageTexture, GraphicsTextureAccess,
    GraphicsTextureBinding, ImageKind, ReflectedResource, RoundingAnswers, StagedTexture, StorageDescriptor,
    StorageImageFormat, StorageTextures, TextureBind, TextureObject, TextureShape,
};
use reims_vgpu::vulkan::ShaderStage;
use std::collections::hash_map::DefaultHasher;
use std::hash::{Hash, Hasher};

const TEXTURE_BINDING_BASE: u32 = 32;
const STORAGE_START: u32 = 300;
const FRAG_OFFSET: u32 = 672;
const PAGE: u64 = 1 << 14;

fn object(levels: u32) -> Option<TextureObject> {
    Some(TextureObject {
        plain_texture: true,
        shape: Some(TextureShape {
            mipmap_level_count: levels,
            depth: 1,
            sample_count: Some(1),
        }),
    })
}

fn attachments() -> AttachmentRefs {
    AttachmentRefs { colors: Vec::new(), depth: None, stencil: None }
}

/// A padded allocation of two rows, and the texels staged from it.
fn backing() -> Vec<u8> {
    let mut backing = vec![0xEE; 80];
    for y in 0..2 {
        for x in 0..32 {
            backing[y * 48 + x] = (y * 32 + x) as u8;
        }
    }
    backing
}

fn staged() -> StagedTexture {
    StagedTexture {
        width: 4,
        height: 2,
        tight_row: Some(32),
        storage_format: Some(StorageImageFormat::Rgba16Float),
        bytes: [&backing()[..32], &backing()[48..]].concat(),
        resident_serve: false,
        owner: Some(70),
        writeback: Some(GuestPageFootprint { pages: vec![5 * PAGE], page_size: PAGE }),
    }
}

fn add(storage: &mut StorageTextures, texture_ref: u32) {
    if storage.add(&attachments(), texture_ref, object(1)) == Ok(Admission::Stage) {
        storage.take_staged(texture_ref, Some(staged())).unwrap();
    }
}

fn descriptor(index: u32, writable: bool) -> StorageDescriptor {
    StorageDescriptor {
        binding: if writable { STORAGE_START } else { TEXTURE_BINDING_BASE } + index,
        descriptor_count: 1,
        array_element: 0,
        access: if writable { TextureAccess::Storage } else { TextureAccess::Sampled },
        kind: ImageKind::D2,
    }
}

fn reflection(declarations: &[(u32, bool)]) -> Vec<ReflectedResource> {
    declarations
        .iter()
        .map(|&(index, writable)| ReflectedResource {
            texture_kind: true,
            index,
            descriptor: Some(descriptor(index, writable)),
        })
        .collect()
}

fn declared(resources: &[ReflectedResource], index: u32) -> Option<StorageDescriptor> {
    resources.iter().find(|r| r.index == index).and_then(|r| r.descriptor)
}

#[test]
fn graphics_storage_capture_reflection_stages_before_binding_both_graphics_stages() {
    let vertex_textures = vec![
        TextureBind { index: 0, texture_ref: 7 },
        TextureBind { index: 1, texture_ref: 7 },
    ];
    let fragment_textures = vec![TextureBind { index: 0, texture_ref: 7 }];
    let vertex = reflection(&[(0, true), (1, false)]);
    let fragment = reflection(&[(0, true)]);
    let plan = stage_plan(&vertex, &vertex_textures, &fragment, &fragment_textures);
    assert!(plan.refusal.is_none());
    assert_eq!(plan.adds, vec![(7, STORAGE_START), (7, STORAGE_START)]);
    let mut storage = StorageTextures::new();
    for (texture_ref, _) in plan.adds {
        add(&mut storage, texture_ref);
    }
    assert_eq!(storage.textures.len(), 1, "must reach native staging");
    let vertex_binding = STORAGE_START;
    let fragment_binding = vertex_binding + FRAG_OFFSET;
    assert!(storage.bind(7, 0, declared(&vertex, 0), vertex_binding, false).unwrap());
    assert!(storage.bind(7, 0, declared(&fragment, 0), fragment_binding, true).unwrap());
    assert!(storage
        .bind(7, 1, declared(&vertex, 1), TEXTURE_BINDING_BASE + 1, false)
        .unwrap());
    let texture = &storage.textures[0];
    assert_eq!(texture.bindings.len(), 3);
    assert_eq!(texture.bindings[1].binding, fragment_binding);
    assert_eq!(texture.bindings[1].raw(), vertex_binding);
    assert_eq!(texture.bindings[2].access, GraphicsTextureAccess::Sampled);
    assert_eq!(&texture.staged.bytes[..32], &backing()[..32]);
    let completed = texture.staged.bytes.clone();
    let outcome = storage.publish(vec![completed.clone()], &vec![true]);
    assert_eq!((outcome.written, outcome.refusal), (1, None));
    assert_eq!(storage.textures[0].staged.bytes, completed);
}

#[test]
fn graphics_storage_native_seed_and_publication_preserve_untouched_texels_and_padding() {
    let mut storage = StorageTextures::new();
    add(&mut storage, 7);
    add(&mut storage, 7);
    assert_eq!(storage.textures.len(), 1);
    let expected = backing();
    let mut completed = storage.textures[0].staged.bytes.clone();
    assert_eq!(&completed[..32], &expected[..32]);
    assert_eq!(&completed[32..], &expected[48..]);
    let replacement = [0x00, 0x40, 0x00, 0xBC, 0x01, 0x38, 0x00, 0x3C];
    completed[40..48].copy_from_slice(&replacement);
    let outcome = storage.publish(vec![completed], &vec![true]);
    assert_eq!(outcome.written, 1);
    let published = &storage.textures[0].staged.bytes;
    assert_eq!(&published[40..48], &replacement, "next draw observes native values");
    assert_eq!(&published[..40], &staged().bytes[..40]);
    assert_eq!(&published[48..], &staged().bytes[48..]);
}

#[test]
fn graphics_storage_vertex_fragment_and_sampled_aliases_name_one_physical_texture() {
    let mut storage = StorageTextures::new();
    add(&mut storage, 7);
    let vertex = reflection(&[(0, true)]);
    let fragment = reflection(&[(0, true), (1, false)]);
    assert!(storage.bind(7, 0, declared(&vertex, 0), 300, false).unwrap());
    assert!(storage.bind(7, 0, declared(&fragment, 0), 972, true).unwrap());
    assert!(storage.bind(7, 1, declared(&fragment, 1), 705, true).unwrap());
    assert_eq!(storage.textures.len(), 1);
    let bindings = &storage.textures[0].bindings;
    assert_eq!(bindings.len(), 3);
    assert_eq!(bindings[2].access, GraphicsTextureAccess::Sampled);
    assert_eq!(bindings[0].stage, ShaderStage::Vertex);
    assert_eq!(bindings[1].stage, ShaderStage::Fragment);
    // An undeclared index binds nothing, and another texture is not held.
    assert!(storage.bind(7, 9, None, 705, true).unwrap());
    assert!(!storage.bind(8, 0, declared(&vertex, 0), 300, false).unwrap());
    assert_eq!(storage.textures[0].bindings.len(), 3);
}

#[test]
fn graphics_storage_writable_shapes_and_attachment_aliases_refuse_before_staging() {
    let storage = StorageTextures::new();
    let mut req = attachments();
    assert_eq!(storage.add(&req, 7, object(2)), Err(Refused::Shape { texture_ref: 7 }));
    req.colors.push((7, 0));
    assert_eq!(
        storage.add(&req, 7, object(2)),
        Err(Refused::AttachmentAlias { texture_ref: 7 })
    );
    assert!(storage.is_empty());
    for req in [
        AttachmentRefs { colors: vec![(1, 7)], ..attachments() },
        AttachmentRefs { depth: Some((7, 1)), ..attachments() },
        AttachmentRefs { stencil: Some((1, 7)), ..attachments() },
    ] {
        assert!(req.names(7));
        assert!(!req.names(8));
    }
    assert_eq!(
        storage.add(&attachments(), 7, None),
        Err(Refused::MissingTexture { texture_ref: 7 })
    );
}

#[test]
fn graphics_storage_reflected_writes_are_not_dropped_when_unbound_or_unknown() {
    let mut fragment = reflection(&[(0, true)]);
    let plan = stage_plan(&vec![], &vec![], &fragment, &vec![]);
    assert!(matches!(plan.refusal, Some(Refused::MissingTexture { .. })));
    fragment[0].descriptor.as_mut().unwrap().access = TextureAccess::Unknown;
    let plan = stage_plan(&vec![], &vec![], &fragment, &vec![]);
    assert!(matches!(plan.refusal, Some(Refused::Reflection { index: 0 })));
}

#[test]
fn graphics_storage_array_images_and_descriptor_arrays_refuse_before_staging() {
    for descriptor_array in [false, true] {
        let fragment_textures = vec![TextureBind { index: 0, texture_ref: 7 }];
        let mut fragment = reflection(&[(0, true)]);
        let declaration = fragment[0].descriptor.as_mut().unwrap();
        if descriptor_array {
            declaration.descriptor_count = 2;
        } else {
            declaration.kind = ImageKind::Other;
        }
        let plan = stage_plan(&vec![], &vec![], &fragment, &fragment_textures);
        assert!(matches!(plan.refusal, Some(Refused::Shape { texture_ref: 7 })));
        assert!(plan.adds.is_empty());
    }
}

#[test]
fn graphics_storage_incomplete_completion_cannot_publish_seed_as_output() {
    let mut storage = StorageTextures::new();
    add(&mut storage, 7);
    let outcome = storage.publish(vec![], &vec![true]);
    assert_eq!((outcome.written, outcome.refusal), (0, Some(Refused::Output)));
    let outcome = storage.publish(vec![vec![0; 4]], &vec![true]);
    assert_eq!((outcome.written, outcome.refusal), (0, Some(Refused::Output)));
    assert_eq!(storage.textures[0].staged.bytes, staged().bytes);
}

#[test]
fn publication_ends_at_the_first_output_or_write_that_fails() {
    let hold = || {
        let mut storage = StorageTextures::new();
        for reference in [9, 3, 6] {
            add(&mut storage, reference);
        }
        storage
    };
    let len = staged().bytes.len();
    let outputs = || vec![vec![1; len], vec![2; len], vec![3; len]];
    let mut storage = hold();
    // The write of the second texture fails: it has taken its output, the third
    // keeps its own bytes.
    let outcome = storage.publish(outputs(), &vec![true, false, true]);
    assert_eq!((outcome.written, outcome.refusal), (1, Some(Refused::Publication)));
    assert_eq!(storage.textures[0].staged.bytes, vec![1; len]);
    assert_eq!(storage.textures[1].staged.bytes, vec![2; len]);
    assert_eq!(storage.textures[2].staged.bytes, staged().bytes);
    // A wrong length stops before the texture takes it.
    let mut storage = hold();
    let outcome =
        storage.publish(vec![vec![1; len], vec![2; 4], vec![3; len]], &vec![true, true, true]);
    assert_eq!((outcome.written, outcome.refusal), (1, Some(Refused::Output)));
    assert_eq!(storage.textures[1].staged.bytes, staged().bytes);
    assert_eq!(storage.textures[2].staged.bytes, staged().bytes);
    let mut storage = hold();
    let outcome = storage.publish(outputs(), &vec![true, true, true]);
    assert_eq!((outcome.written, outcome.refusal), (3, None));
    let mut storage = hold();
    assert_eq!(storage.outputs_match(2), Err(Refused::Output));
    assert_eq!(storage.outputs_match(3), Ok(()));
    assert_eq!(storage.take_output(1, vec![0; 4]), Err(Refused::Output));
    assert_eq!(storage.take_output(1, vec![2; len]), Ok(()));
    assert_eq!(storage.textures[1].staged.bytes, vec![2; len]);
}

#[test]
fn staging_without_bytes_or_a_native_format_holds_nothing() {
    let mut storage = StorageTextures::new();
    assert_eq!(storage.take_staged(7, None), Err(Refused::Staging));
    let unformatted = StagedTexture { storage_format: None, ..staged() };
    assert_eq!(
        storage.take_staged(7, Some(unformatted)),
        Err(Refused::Format { texture_ref: 7 })
    );
    assert!(storage.is_empty());
    for reference in [9, 3, 6] {
        add(&mut storage, reference);
    }
    let order: Vec<_> = storage.textures.iter().map(|t| t.reference).collect();
    assert_eq!(order, vec![3, 6, 9]);
    assert!(storage.contains(6));
    assert!(!storage.contains(7));
}

fn bound(format: StorageImageFormat, bindings: Vec<GraphicsTextureBinding>) -> GraphicsStorageTexture {
    GraphicsStorageTexture { format, width: 4, height: 2, bytes: vec![], bindings }
}

fn binding(binding: u32, access: GraphicsTextureAccess, stage: ShaderStage) -> GraphicsTextureBinding {
    GraphicsTextureBinding { binding, access, stage }
}

#[test]
fn graphics_storage_rounding_targets_swapped_channels_of_the_writing_stage() {
    let textures = vec![
        bound(
            StorageImageFormat::Bgra8Unorm,
            vec![
                binding(300, GraphicsTextureAccess::Storage, ShaderStage::Vertex),
                binding(972, GraphicsTextureAccess::Storage, ShaderStage::Fragment),
                binding(705, GraphicsTextureAccess::Sampled, ShaderStage::Fragment),
            ],
        ),
        bound(
            StorageImageFormat::Rgba16Float,
            vec![binding(973, GraphicsTextureAccess::Storage, ShaderStage::Fragment)],
        ),
    ];
    assert_eq!(write_rounding_targets(&textures, ShaderStage::Vertex), Some(vec![300]));
    assert_eq!(write_rounding_targets(&textures, ShaderStage::Fragment), Some(vec![972]));
    let read_only = vec![bound(
        StorageImageFormat::Bgra8Unorm,
        vec![binding(705, GraphicsTextureAccess::Sampled, ShaderStage::Fragment)],
    )];
    assert_eq!(write_rounding_targets(&read_only, ShaderStage::Fragment), None);
    let plain = vec![bound(
        StorageImageFormat::Rgba16Float,
        vec![binding(300, GraphicsTextureAccess::Storage, ShaderStage::Vertex)],
    )];
    assert_eq!(write_rounding_targets(&plain, ShaderStage::Vertex), Some(vec![]));
    // The vertex stage is rounded before the fragment stage; a stage that writes
    // nothing is not asked.
    let vertex = next_rounding(&textures, None);
    assert_eq!(vertex, Some((ShaderStage::Vertex, vec![300])));
    let fragment = next_rounding(&textures, Some(ShaderStage::Vertex));
    assert_eq!(fragment, Some((ShaderStage::Fragment, vec![972])));
    assert_eq!(next_rounding(&textures, Some(ShaderStage::Fragment)), None);
    assert_eq!(next_rounding(&read_only, None), None);
    let refused = |stage: ShaderStage| Err(Refused::WriteRounding { stage });
    for (vertex, fragment, want) in [
        (true, true, Ok(())),
        (false, false, refused(ShaderStage::Vertex)),
        (true, false, refused(ShaderStage::Fragment)),
    ] {
        assert_eq!(round_writes(&textures, RoundingAnswers { vertex, fragment }), want);
    }
    let nothing = RoundingAnswers { vertex: false, fragment: false };
    assert_eq!(round_writes(&read_only, nothing), Ok(()));
    assert_eq!(rounded(ShaderStage::Fragment, false), refused(ShaderStage::Fragment));
    assert_eq!(rounded(ShaderStage::Fragment, true), Ok(()));
    assert_eq!(
        used_bindings(&vec![(4, true), (5, false), (1, true)]),
        vec![4, 1]
    );
}

#[test]
fn a_module_that_cannot_write_the_texture_in_its_own_format_is_refused() {
    let hold = || {
        let mut storage = StorageTextures::new();
        add(&mut storage, 7);
        storage.bind(7, 0, Some(descriptor(0, true)), 300, false).unwrap();
        storage
    };
    let fine = FormatAnswer {
        declared: true,
        specialized: Some(2),
        native: Some(StorageImageFormat::Rgba16Float),
        applied: true,
    };
    for (answer, want) in [
        (FormatAnswer { declared: false, ..fine }, Refused::Format { texture_ref: 7 }),
        (FormatAnswer { specialized: None, ..fine }, Refused::Format { texture_ref: 7 }),
        (
            FormatAnswer { native: Some(StorageImageFormat::Rgba32Float), ..fine },
            Refused::Format { texture_ref: 7 },
        ),
        (FormatAnswer { applied: false, ..fine }, Refused::Specialization),
    ] {
        let refused = hold().resources(&vec![vec![answer]], ROUNDED);
        assert!(matches!(refused, Err(refusal) if refusal == want));
    }
    // A module that leaves the format open writes any.
    let open = FormatAnswer { specialized: Some(0), native: None, ..fine };
    for answer in [fine, open] {
        let mut storage = hold();
        let handed = storage.resources(&vec![vec![answer]], ROUNDED).unwrap_or_default();
        assert_eq!(handed.len(), 1);
        assert_eq!(handed[0].bytes, staged().bytes);
        assert_eq!(handed[0].format, StorageImageFormat::Rgba16Float);
        assert!(storage.textures[0].staged.bytes.is_empty());
    }
    // Rounding fails once the bytes have moved out; the fragment stage writes
    // nothing and is not asked.
    let mut storage = hold();
    let refused = storage.resources(
        &vec![vec![fine]],
        RoundingAnswers { vertex: false, fragment: true },
    );
    let stage = ShaderStage::Vertex;
    assert!(matches!(refused, Err(refusal) if refusal == Refused::WriteRounding { stage }));
    assert!(storage.textures[0].staged.bytes.is_empty());
    let mut storage = hold();
    let unasked = RoundingAnswers { vertex: true, fragment: false };
    assert!(storage.resources(&vec![vec![fine]], unasked).is_ok());
}

const ROUNDED: RoundingAnswers = RoundingAnswers { vertex: true, fragment: true };

fn color(source_page: u64) -> IsolationColor {
    IsolationColor {
        texture_ref: 8,
        memoryless: false,
        owner: Some(80),
        height: 2,
        tight_row: Some(32),
        backing: ColorBacking::Linear {
            target_gva: source_page * PAGE,
            row_stride: 48,
            // Only the first eight pages of the task are mapped.
            pages: if source_page < 8 {
                Some(GuestPageFootprint { pages: vec![source_page * PAGE], page_size: PAGE })
            } else {
                None
            },
        },
    }
}

fn native(source_page: u64) -> NativeRequest {
    NativeRequest {
        width: 4,
        height: 2,
        fragment: 1,
        target_identity: Some(TargetIdentity::Gva {
            gva: source_page * PAGE,
            width: 4,
            height: 2,
            generation: 1,
            format: ash::vk::Format::R16G16B16A16_SFLOAT.as_raw(),
        }),
        secondary_targets: Vec::new(),
        storage_textures: vec![bound(
            StorageImageFormat::Rgba16Float,
            vec![binding(1155, GraphicsTextureAccess::Storage, ShaderStage::Fragment)],
        )],
    }
}

#[test]
fn serial_interlock_isolation_uses_live_owners_and_guest_bytes_not_reference_inequality() {
    for source_page in [6u64, 5, 1000] {
        let mut scopes = ScopeRegistry::new();
        let scope = scopes.open();
        let reference = Some(scope.reference());
        let colors = vec![color(source_page)];
        let mut storage = StorageTextures::new();
        add(&mut storage, 7);
        let native = native(source_page);
        if source_page == 6 {
            storage.textures[0].staged.resident_serve = true;
            assert!(matches!(
                storage.isolate_interlock(&scopes, reference, &colors, &native),
                Err(E::ResidentSeedUnavailable { reference: 7 })
            ));
            storage.textures[0].staged.resident_serve = false;
        }
        let result = storage.isolate_interlock(&scopes, reference, &colors, &native);
        match source_page {
            5 => assert!(matches!(result, Err(E::GuestAlias { source: 8, destination: 7 }))),
            1000 => assert!(matches!(result, Err(E::BackingUnavailable { reference: 8 }))),
            _ => {
                let isolation = result.ok().unwrap();
                assert!(isolation.matches(&scopes, &native).is_ok());
                drop(storage);
                drop(colors);
                assert_eq!(
                    isolation.owners(),
                    &vec![80, 70],
                    "admission retains the serialized destination owner"
                );
                scopes.close(scope);
                assert_eq!(isolation.matches(&scopes, &native), Err(E::ScopeExpired));
            }
        }
    }
}

#[test]
fn an_isolation_is_for_one_request_alone() {
    let mut scopes = ScopeRegistry::new();
    let scope = scopes.open();
    let reference = Some(scope.reference());
    let mut storage = StorageTextures::new();
    add(&mut storage, 7);
    let colors = vec![color(6)];
    let isolation = storage
        .isolate_interlock(&scopes, reference, &colors, &native(6))
        .ok()
        .unwrap();
    for change in 0..5 {
        let mut other = native(6);
        match change {
            0 => other.width = 5,
            1 => other.fragment = 2,
            2 => other.target_identity = Some(TargetIdentity::Surface { id: 3 }),
            3 => other.storage_textures[0].format = StorageImageFormat::Rgba32Float,
            _ => other.storage_textures[0].bindings[0].binding = 1156,
        }
        assert_eq!(isolation.matches(&scopes, &other), Err(E::BindingChanged));
    }
    // An expired scope, another number of targets or textures, and no owner.
    assert!(matches!(
        storage.isolate_interlock(&scopes, None, &colors, &native(6)),
        Err(E::ScopeExpired)
    ));
    assert!(matches!(
        storage.isolate_interlock(&scopes, reference, &vec![], &native(6)),
        Err(E::BindingChanged)
    ));
    let ownerless = vec![IsolationColor { owner: None, ..color(6) }];
    assert!(matches!(
        storage.isolate_interlock(&scopes, reference, &ownerless, &native(6)),
        Err(E::OwnerUnavailable { reference: 8 })
    ));
}

#[test]
fn signatures_carry_the_numbers_vulkan_gives() {
    let mut request = native(6);
    request.storage_textures[0]
        .bindings
        .push(binding(33, GraphicsTextureAccess::Sampled, ShaderStage::Vertex));
    let signature = storage_signature(&request);
    let stages = ash::vk::ShaderStageFlags::FRAGMENT.as_raw();
    let vertex = ash::vk::ShaderStageFlags::VERTEX.as_raw();
    let storage = ash::vk::DescriptorType::STORAGE_IMAGE.as_raw() as u32;
    let sampled = ash::vk::DescriptorType::SAMPLED_IMAGE.as_raw() as u32;
    assert_eq!(signature.len(), 1);
    assert_eq!(
        signature[0].bindings,
        vec![(1155, storage, stages), (33, sampled, vertex)]
    );
}

#[test]
fn only_an_explicit_request_turns_observations_on() {
    assert_eq!(requested(Switch::On), (true, false));
    assert_eq!(requested(Switch::Off), (false, false));
    assert_eq!(requested(Switch::Unset), (false, false));
    assert_eq!(requested(Switch::Unrecognized), (false, true));
}

fn observed_draw(task: u32, pipeline: u32) -> ObservedDraw {
    ObservedDraw {
        scope: Some(2),
        task,
        pipeline,
        gva_generation: 9,
        page_bytes: 0x4000,
        raster_samples: 1,
        first_vertex: 0,
        vertices: 3,
        instances: 1,
        first_instance: 0,
        indexed: "None".to_string(),
        continues: false,
        more: true,
        viewports: "[]".to_string(),
        scissors: "[]".to_string(),
    }
}

fn observed_color(slot: u32, pages: Option<Vec<u64>>) -> ObservedColor {
    ObservedColor {
        slot,
        texture_ref: 8,
        mapping_id: 0,
        target_gva: 0x4000,
        mapping: None,
        linear_pages: pages,
        memoryless: false,
        width: 4,
        height: 2,
        format: 0x73,
        row_stride: 48,
        guest_mip_level: 0,
        sample_count: 1,
    }
}

fn observed_texture(reference: u32, pages: Option<Vec<u64>>) -> ObservedTexture {
    ObservedTexture {
        reference,
        width: 4,
        height: 2,
        format: 0x73,
        mips: 1,
        destination: "Linear".to_string(),
        pages,
        owner_generation: None,
        residency: None,
        residency_text: "None".to_string(),
    }
}

fn observation(task: u32, pipeline: u32, destination_ref: u32) -> ObservationKey {
    ObservationKey {
        task,
        pipeline,
        destination_ref,
        source_slot: 0,
        source_ref: 8,
        source_mapping: 0,
        source_gva: 0x4000,
        source_map_generation: None,
        gva_generation: 9,
        destination_residency: None,
        destination_owner_generation: None,
        scope: Some(2),
    }
}

fn ask_for(counts: &mut ObservationCounts, key: ObservationKey) -> Option<u64> {
    counts.admit_observation(key.task, key.pipeline, key.fingerprint())
}

#[test]
fn one_fingerprint_is_one_observation() {
    let mut counts = ObservationCounts::new();
    assert_eq!(counts.admit_observation(1, 2, 77), Some(1));
    assert_eq!(counts.admit_observation(1, 2, 77), None);
    // It is known across pipelines, and a pipeline takes its place all the same.
    assert_eq!(counts.admit_observation(1, 3, 77), None);
    assert_eq!(counts.admit_observation(1, 3, 78), Some(2));
    // The fingerprint is the standard hash of the fields, one by one.
    let key = ObservationKey {
        source_map_generation: Some(3),
        destination_residency: Some(Residency { key: 4, seed_generation: 5 }),
        ..observation(1, 2, 7)
    };
    let mut hasher = DefaultHasher::new();
    (
        key.task,
        key.pipeline,
        key.destination_ref,
        key.source_slot,
        key.source_ref,
        key.source_mapping,
        key.source_gva,
        key.source_map_generation,
        key.gva_generation,
        (
            key.destination_residency.map(|r| (r.key, r.seed_generation)),
            key.destination_owner_generation,
            key.scope,
        ),
    )
        .hash(&mut hasher);
    assert_eq!(key.fingerprint(), hasher.finish());
}

#[test]
fn observations_are_counted_per_pipeline_and_bounded() {
    let mut counts = ObservationCounts::new();
    assert_eq!(ask_for(&mut counts, observation(1, 2, 0)), Some(1));
    assert_eq!(ask_for(&mut counts, observation(1, 2, 0)), None);
    assert_eq!(ask_for(&mut counts, observation(1, 3, 0)), Some(2));
    for reference in 1..OBSERVATION_LIMIT as u32 {
        let number = ask_for(&mut counts, observation(1, 2, reference));
        assert_eq!(number, Some(u64::from(reference) + 2));
    }
    assert_eq!(ask_for(&mut counts, observation(1, 2, 99)), None);
    for pipeline in 0..PIPELINE_LIMIT as u32 - 2 {
        assert!(ask_for(&mut counts, observation(2, pipeline, 0)).is_some());
    }
    assert_eq!(ask_for(&mut counts, observation(3, 0, 0)), None);
    assert!(ask_for(&mut counts, observation(1, 3, 1)).is_some());
}

#[test]
fn whatever_an_observation_depends_on_makes_it_a_new_one() {
    let key = observation(1, 2, 3);
    let others = [
        ObservationKey { destination_ref: 4, ..key },
        ObservationKey { source_slot: 1, ..key },
        ObservationKey { source_ref: 9, ..key },
        ObservationKey { source_mapping: 5, ..key },
        ObservationKey { source_gva: 0x8000, ..key },
        ObservationKey { source_map_generation: Some(1), ..key },
        ObservationKey { gva_generation: 10, ..key },
        ObservationKey {
            destination_residency: Some(Residency { key: 1, seed_generation: 2 }),
            ..key
        },
        ObservationKey { destination_owner_generation: Some(1), ..key },
        ObservationKey { scope: Some(3), ..key },
        ObservationKey { scope: None, ..key },
    ];
    let mut counts = ObservationCounts::new();
    assert_eq!(ask_for(&mut counts, key), Some(1));
    for (n, other) in others.into_iter().enumerate() {
        assert_eq!(ask_for(&mut counts, other), Some(n as u64 + 2));
        assert_eq!(ask_for(&mut counts, other), None);
    }
}

#[test]
fn an_observation_compares_only_complete_page_lists() {
    let page = || Some(vec![0x4000]);
    let relation = |color: &ObservedColor, pages: Option<Vec<u64>>| {
        let found = relate(color, &observed_texture(7, pages), 0x4000);
        (found.overlap, found.relation)
    };
    let linear = observed_color(0, page());
    let disjoint = (Some(0), "recorded_guest_byte_spans_disjoint");
    let overlap = (Some(0x4000), "recorded_guest_byte_spans_overlap");
    let unknown = (None, "unknown_coverage");
    assert_eq!(relation(&linear, Some(vec![0x8000])), disjoint);
    assert_eq!(relation(&linear, page()), overlap);
    assert_eq!(relation(&linear, None), unknown);
    let entries = relate(&linear, &observed_texture(7, Some(vec![0x8000, 0xc000])), 0x4000);
    assert_eq!((entries.source_entries, entries.destination_entries), (Some(1), Some(2)));
    assert_eq!(relation(&observed_color(0, None), page()), unknown);
    assert_eq!(relation(&observed_color(0, Some(vec![])), page()), unknown);
    let unbacked = ObservedColor { target_gva: 0, ..observed_color(0, page()) };
    assert_eq!(relation(&unbacked, page()), unknown);
    // A surface is read through its live mapping, never as a linear target.
    let surface = |mapped: bool, pages: Option<Vec<u64>>| ObservedColor {
        mapping_id: 5,
        mapping: Some(ObservedMapping { mapped, map_generation: 1, pages }),
        ..observed_color(0, page())
    };
    assert_eq!(relation(&surface(true, Some(vec![0x8000])), page()), disjoint);
    assert_eq!(relation(&surface(true, None), page()), unknown);
    assert_eq!(relation(&surface(false, page()), page()), unknown);
    let gone = ObservedColor { mapping: None, ..surface(true, page()) };
    assert_eq!(relation(&gone, page()), unknown);
    let local = ObservedColor { memoryless: true, ..unbacked };
    assert_eq!(relation(&local, page()), (None, "source_pass_local_no_guest_backing"));
    assert_eq!(describe(&None), "unknown:incomplete_or_invalid_page_coverage");
    assert_eq!(
        describe(&Some(vec![(0x4000, 0x8000), (0xc000, 0xd000)])),
        "complete_recorded_page_union:ranges2:bytes20480:first0x4000:last_end0xd000"
    );
}

#[test]
fn an_observation_line_says_what_it_does_not_grant() {
    let line = observation_line(
        1,
        &observed_texture(7, Some(vec![0x8000])),
        &observed_color(0, Some(vec![0x4000])),
        &observed_draw(3, 4),
    );
    assert_eq!(
        line,
        "interlock_backing_observation observation=1 scope=Some(2) task=3 pipe=4 \
         destination_ref=7 destination=Linear destination_geometry=4x2 destination_format=0x73 \
         destination_mips=1 destination_subresource=resolved_writeback_window \
         destination_owner_generation=None destination_residency=None \
         destination_coverage=complete_recorded_page_union:ranges1:bytes16384:first0x8000:last_end0xc000 \
         destination_page_entries=Some(1) destination_page_bytes=16384 source_slot=0 source_ref=8 \
         source_mid=0 source_gva=0x4000 source_map_generation=None source_gva_generation=Some(9) \
         source_geometry=4x2 source_format=0x73 source_pitch=48 \
         source_coverage=complete_recorded_page_union:ranges1:bytes16384:first0x4000:last_end0x8000 \
         source_page_entries=Some(1) source_page_bytes=16384 \
         source_subresource=whole_mapping_or_linear_span source_plane=unrecorded \
         source_slice=unrecorded source_mip=0 source_native_mip=0 source_native_layer=0 \
         relation=recorded_guest_byte_spans_disjoint overlap_bytes=Some(0) raster_samples=1 \
         samples=1 first_vertex=0 vertices=3 instances=1 first_instance=0 indexed=None \
         continues=false more=true viewports=[] scissors=[] \
         (observation only; no ownership lease or renderer admission is granted)"
    );
    let second = observation_line(
        2,
        &observed_texture(7, None),
        &observed_color(1, None),
        &observed_draw(3, 4),
    );
    assert!(second.contains(" source_gva_generation=None "), "{second}");
    assert!(second.contains(" destination_page_entries=None "), "{second}");
}

#[test]
fn a_report_walks_every_texture_past_every_attachment() {
    let textures = vec![
        observed_texture(7, Some(vec![0x8000])),
        observed_texture(9, Some(vec![0x4000])),
    ];
    let colors = vec![
        observed_color(0, Some(vec![0x4000])),
        observed_color(1, Some(vec![0x8000])),
    ];
    let draw = observed_draw(3, 4);
    let mut counts = ObservationCounts::new();
    let lines = counts.report(&textures, &colors, &draw);
    let expected: Vec<String> = [(0, 0), (0, 1), (1, 0), (1, 1)]
        .into_iter()
        .zip(1u64..)
        .map(|((t, c), n)| observation_line(n, &textures[t], &colors[c], &draw))
        .collect();
    assert_eq!(lines, expected);
    // What was reported once is not reported again; another scope is new.
    assert!(counts.report(&textures, &colors, &draw).is_empty());
    let next = ObservedDraw { scope: Some(3), ..observed_draw(3, 4) };
    let lines = counts.report(&textures, &colors, &next);
    assert_eq!(lines.len(), 4);
    assert_eq!(lines[0], observation_line(5, &textures[0], &colors[0], &next));
    assert!(counts.report(&vec![], &colors, &next).is_empty());
}
