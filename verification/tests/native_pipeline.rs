use reims_vgpu::inputs::VertexAttribute;
use reims_vgpu::native_pipeline::diagnostics::{
    outcome_slug, pending, report_line, Diagnostics, Progress, LIMIT,
};
use reims_vgpu::native_pipeline::metadata::{
    color_blend, draw_metadata, BindingSig, BlendKey, ColorState, DrawRequest, FormatFact,
    Metadata, PassColor, PassDescriptor, ResolvedPipeline, COLOR_WRITE_ALL,
};
use reims_vgpu::native_pipeline::objects::{
    resource_backing, resource_format, BufferSpan, ObjectOwner, Objects, ResourceId, TextureRecord,
};
use reims_vgpu::native_pipeline::reason::PreflightReason;
use reims_vgpu::native_pipeline::samplers::{metadata_samplers, LoadedSampler, SamplerSource};
use reims_vgpu::native_pipeline::scan::{
    collect, scan, DrawOp, DrawSite, GuestRasterState, Prepared, PrimitiveType, ScanFailure,
    StreamOp,
};
use reims_vgpu::native_pipeline::tables::{
    BufferSlot, ObjectSlot, PipelineInputs, ReflectedBinding, ReflectedSampler, ReflectedState,
    Reflection, RenderBindings, ResourceKind, ShaderVariant, SourceInfo, StageTables,
    TextureAccess, TextureDescriptor,
};

const TASK: u32 = 17;
const PIPELINE: ResourceId = ResourceId { slot: 44, generation: 3 };
const RASTER: GuestRasterState = GuestRasterState {
    cull_mode: 0,
    winding: 0,
    depth_clip_mode: 0,
    fill_mode: 0,
};
const RGBA16F: u16 = 0x73;
const RGBA8: u16 = 0x46;
const BGRA8: u16 = 0x50;

fn id(slot: u32) -> ResourceId {
    ResourceId { slot, generation: 1 }
}

struct Fixture {
    objects: Objects,
    formats: Vec<FormatFact>,
    samplers: Vec<LoadedSampler>,
    bindings: RenderBindings,
    pass: PassDescriptor,
    attributes: Vec<VertexAttribute>,
    fragment_reflection: Vec<ReflectedBinding>,
    /// What the vertex and the fragment source declare, where that is known.
    declared: (Option<Vec<u32>>, Option<Vec<u32>>),
    static_samplers: Vec<ReflectedSampler>,
    map_pages_stable: bool,
    sample_count: u32,
}

impl Fixture {
    fn new() -> Self {
        let buffers = |indices: &[u32], base: u32| -> Vec<BufferSlot> {
            indices
                .iter()
                .map(|&index| BufferSlot {
                    index,
                    buffer: Some(id(base + index)),
                    offset: 0,
                    stride: None,
                })
                .collect()
        };
        let objects_at = |range: std::ops::Range<u32>, base: u32| -> Vec<ObjectSlot> {
            range
                .map(|index| ObjectSlot { index, object: Some(id(base + index)), lod_clamps: None })
                .collect()
        };
        let mut f = Self {
            objects: Objects { owners: Vec::new(), buffers: Vec::new(), max_view_chain: 8 },
            formats: [
                (RGBA16F, ash::vk::Format::R16G16B16A16_SFLOAT),
                (RGBA8, ash::vk::Format::R8G8B8A8_UNORM),
                (BGRA8, ash::vk::Format::B8G8R8A8_UNORM),
            ]
            .into_iter()
            .map(|(format, vk)| FormatFact {
                format,
                native_layout: true,
                attachment: Some(vk.as_raw()),
                memoryless_attachment: Some(vk.as_raw()),
            })
            .collect(),
            samplers: (20..24)
                .map(|reference| LoadedSampler { reference, unnormalized_coordinates: false })
                .collect(),
            bindings: RenderBindings {
                pipeline: Some(PIPELINE),
                depth_stencil: None,
                vertex: StageTables {
                    buffers: buffers(&[0, 1, 2, 3, 4], 1),
                    textures: Vec::new(),
                    samplers: Vec::new(),
                },
                fragment: StageTables {
                    buffers: buffers(&[0, 1, 2, 3, 4, 5, 7, 8], 10),
                    textures: objects_at(3..15, 50),
                    samplers: objects_at(0..4, 20),
                },
            },
            pass: PassDescriptor {
                color: vec![color(None); 8],
                depth_texture: None,
                stencil_texture: None,
            },
            attributes: vec![VertexAttribute { buffer_index: 0, format: 0, stride: 0 }; 32],
            fragment_reflection: (0..2)
                .map(|i| ReflectedBinding { kind: ResourceKind::ColorInput, metal_index: i })
                .chain((0..4).map(|i| ReflectedBinding {
                    kind: ResourceKind::Sampler,
                    metal_index: i,
                }))
                .collect(),
            declared: (
                Some(vec![0, 1, 2, 3, 4]),
                // The fragment source as it is bound, its resources moved.
                Some(
                    [672, 673, 674, 675, 676, 677, 679, 680, 192, 193]
                        .into_iter()
                        .chain(707..=718)
                        .chain(832..=835)
                        .collect(),
                ),
            ),
            static_samplers: Vec::new(),
            map_pages_stable: false,
            sample_count: 1,
        };
        for reference in (1..6).chain(10..19) {
            f.objects.buffers.push(BufferSpan { reference, size: 4096 });
        }
        for i in 3..15 {
            f.texture(50 + i, RGBA16F);
        }
        for i in 0..2 {
            let texture = f.texture(100 + i, RGBA16F);
            f.pass.color[i as usize].texture = Some(texture);
        }
        f
    }

    fn texture(&mut self, reference: u32, pixel_format: u16) -> ResourceId {
        self.objects.owners.push(ObjectOwner {
            reference,
            record: TextureRecord::Texture { pixel_format },
            backing: Some(u64::from(0x100 + reference)),
        });
        id(reference)
    }

    fn inputs(&self) -> Result<PipelineInputs, PreflightReason> {
        let mut samplers: Vec<ReflectedSampler> = self.static_samplers.clone();
        samplers.extend((832..=835).map(|binding| ReflectedSampler {
            binding,
            state: ReflectedState::Guest,
        }));
        PipelineInputs::new(
            &self.bindings,
            false,
            ShaderVariant { samplers: Vec::new(), guest_bindings: Vec::new(), pixel_interlock: false },
            ShaderVariant {
                samplers,
                guest_bindings: (832..=835).collect(),
                pixel_interlock: false,
            },
            Some((
                SourceInfo { digest: (1, 2, 3), declared: self.declared.0.clone() },
                SourceInfo { digest: (4, 5, 6), declared: self.declared.1.clone() },
            )),
        )
    }

    fn resolved(&self) -> ResolvedPipeline {
        ResolvedPipeline {
            vertex_attributes: self.attributes.clone(),
            raster_sample_count: self.sample_count,
            color0: state(0),
            color_attachments: vec![state(1)],
            vertex: Reflection { bindings: Vec::new(), textures: Vec::new(), unsupported: false },
            fragment: Reflection {
                bindings: self.fragment_reflection.clone(),
                textures: Vec::new(),
                unsupported: false,
            },
        }
    }

    fn metadata(&self) -> Result<Metadata, PreflightReason> {
        let inputs = self.inputs();
        draw_metadata(
            DrawRequest {
                objects: &self.objects,
                formats: &self.formats,
                samplers: &self.samplers,
                bindings: &self.bindings,
                pass: &self.pass,
                map_pages_stable: self.map_pages_stable,
            },
            Some(&self.resolved()),
            inputs.as_ref().map_err(|reason| *reason),
            RASTER,
            PrimitiveType::Triangle,
            1,
        )
    }

    fn refusal(&self) -> &'static str {
        match self.metadata() {
            Ok(_) => panic!("the draw is prepared"),
            Err(reason) => reason.slug(),
        }
    }
}

fn color(texture: Option<ResourceId>) -> PassColor {
    PassColor { texture, resolve_texture: None, slice: 0, depth_plane: 0 }
}

fn state(slot: u32) -> ColorState {
    ColorState {
        slot,
        blending_enabled: false,
        blend: BlendKey {
            src_rgb: 1,
            dst_rgb: 0,
            op_rgb: 0,
            src_alpha: 1,
            dst_alpha: 0,
            op_alpha: 0,
        },
        write_mask: COLOR_WRITE_ALL,
    }
}

fn assert_b20_shape(metadata: &Metadata) {
    let mut got = metadata.bindings.clone();
    got.sort_by_key(|b| b.binding);
    let sig = |binding: u32, ty: u32, stages: u32| BindingSig { binding, ty, stages, count: 1 };
    let mut expected: Vec<_> = (0..5)
        .chain([672, 673, 674, 675, 676, 677, 679, 680])
        .map(|binding| sig(binding, 7, 17))
        .collect();
    expected.extend((707..=718).map(|binding| sig(binding, 2, 17)));
    expected.extend((832..=835).map(|binding| sig(binding, 0, 17)));
    expected.extend((192..=193).map(|binding| sig(binding, 10, 16)));
    expected.sort_by_key(|b| b.binding);
    assert_eq!(got, expected);
    assert_eq!(
        metadata.pass.color0_format,
        ash::vk::Format::R16G16B16A16_SFLOAT.as_raw()
    );
    assert_eq!(metadata.pass.secondary[0], metadata.pass.color0_format);
    assert_eq!(metadata.pass.secondary.len(), 1);
    assert_eq!(metadata.pass.color_input, 3);
    assert_eq!(metadata.color_write_mask, vec![COLOR_WRITE_ALL; 8]);
}

fn sites(streams: &Vec<Vec<StreamOp>>, passes: u32) -> Vec<DrawSite> {
    let (sites, stopped) = scan(streams, passes);
    assert!(stopped.is_none());
    sites
}

fn stopped(streams: &Vec<Vec<StreamOp>>, passes: u32) -> ScanFailure {
    scan(streams, passes).1.unwrap()
}

fn draw(primitive: PrimitiveType) -> StreamOp {
    StreamOp::Draw(DrawOp::Primitives { primitive: Some(primitive) })
}

#[test]
fn native_collector_admits_inactive_attributes_unused_sampled_and_serializer_samplers() {
    let mut fixture = Fixture::new();
    let absent = ResourceId { slot: 250, generation: 1 };
    fixture.bindings.fragment.textures.insert(
        0,
        ObjectSlot { index: 0, object: Some(absent), lod_clamps: None },
    );
    fixture.bindings.fragment.samplers.push(ObjectSlot {
        index: 9,
        object: Some(absent),
        lod_clamps: None,
    });
    let mut stream = vec![
        StreamOp::WriteDescriptor { descriptor: 0 },
        StreamOp::SetPipeline { pipeline: PIPELINE },
        StreamOp::Bind,
    ];
    stream.extend(vec![draw(PrimitiveType::Triangle); 200]);
    let sites = sites(&vec![stream], 1);
    assert_eq!(sites.len(), 1);
    assert_eq!(sites[0].record, 3);
    let plans: Vec<_> = sites.iter().map(|_| fixture.metadata().ok().unwrap()).collect();
    assert_eq!(plans.len(), 1);
    assert_b20_shape(&plans[0]);
}

#[test]
fn native_collector_preserves_active_attributes_stride_and_format_variants() {
    let mut fixture = Fixture::new();
    fixture.attributes[0] = VertexAttribute { buffer_index: 0, format: 30, stride: 16 };
    assert_eq!(fixture.refusal(), "native_preflight_vertex_attributes");
    fixture.bindings.vertex.buffers[0].stride = Some(0);
    assert!(fixture.metadata().is_ok());
    fixture.bindings.vertex.buffers[0].stride = Some(16);
    assert_eq!(fixture.refusal(), "native_preflight_vertex_attributes");
    fixture.bindings.vertex.buffers[0].stride = Some(0);
    let formats = |f: &Fixture| {
        let pass = f.metadata().ok().unwrap().pass;
        (pass.color0_format, pass.secondary)
    };
    let fp16 = formats(&fixture);
    fixture.pass.color[0].texture = Some(fixture.texture(1010, 0x46));
    let rgba = formats(&fixture);
    fixture.pass.color[0].texture = Some(fixture.texture(1011, 0x50));
    let bgra = formats(&fixture);
    assert_ne!(fp16, rgba);
    assert_ne!(rgba, bgra);
    assert_ne!(fp16, bgra);
}

#[test]
fn native_collector_complete_both_stage_proof_required_before_skipping_unknown_owner() {
    let absent = ObjectSlot {
        index: 0,
        object: Some(ResourceId { slot: 250, generation: 1 }),
        lod_clamps: None,
    };
    for vertex_declares in [false, true] {
        let mut fixture = Fixture::new();
        fixture.bindings.fragment.textures.insert(0, absent);
        // Either source may declare the moved binding of the first texture.
        if vertex_declares {
            fixture.declared.0 = Some(vec![704]);
        } else {
            fixture.declared.1 = Some(vec![704]);
        }
        assert_eq!(fixture.refusal(), "native_preflight_texture_owner");
    }
    for stage in 0..3 {
        let mut fixture = Fixture::new();
        fixture.bindings.fragment.textures.insert(0, absent);
        // A source whose declarations are not known completely proves nothing.
        if stage != 1 {
            fixture.declared.0 = None;
        }
        if stage != 0 {
            fixture.declared.1 = None;
        }
        assert_eq!(fixture.refusal(), "native_preflight_texture_owner");
    }
}

#[test]
fn a_source_nothing_is_known_of_prepares_nothing() {
    let missing = PipelineInputs::new(
        &Fixture::new().bindings,
        false,
        ShaderVariant { samplers: Vec::new(), guest_bindings: Vec::new(), pixel_interlock: false },
        ShaderVariant { samplers: Vec::new(), guest_bindings: Vec::new(), pixel_interlock: false },
        None,
    );
    assert!(matches!(missing, Err(PreflightReason::CachesUnavailable)));
}

#[test]
fn native_collector_sampler_clamps_defaults_and_unnormalized_fallback_match_renderer() {
    let mut fixture = Fixture::new();
    fixture.bindings.fragment.samplers[0].lod_clamps =
        Some((1.25f32.to_bits(), 2.5f32.to_bits()));
    fixture.bindings.fragment.samplers.remove(1);
    let inputs = fixture.inputs().ok().unwrap();
    let samplers =
        metadata_samplers(&fixture.bindings, &inputs, &fixture.samplers).ok().unwrap();
    let overridden = samplers.iter().find(|s| s.binding == 832).unwrap();
    assert_eq!(
        overridden.lod,
        Some((1.25f32.to_bits(), 2.5f32.to_bits()))
    );
    assert_eq!(overridden.source, SamplerSource::Guest { reference: 20 });
    let mut bindings: Vec<_> = samplers.iter().map(|s| s.binding).collect();
    bindings.sort();
    bindings.dedup();
    assert_eq!(bindings.len(), samplers.len(), "no binding is claimed twice");
    assert!(samplers.iter().any(|s| s.binding == 833
        && !s.unnormalized_coordinates
        && s.source == SamplerSource::NormalizedDefault));
    fixture.samplers[0].unnormalized_coordinates = true;
    assert_eq!(fixture.refusal(), "native_preflight_unnormalized_sampler");
    fixture.samplers.remove(0);
    assert_eq!(fixture.refusal(), "native_preflight_sampler");
    let mut fixture = Fixture::new();
    fixture.static_samplers.push(ReflectedSampler {
        binding: 840,
        state: ReflectedState::Unrepresentable,
    });
    assert_eq!(fixture.refusal(), "native_preflight_static_sampler");
    fixture.static_samplers[0].state = ReflectedState::Static { unnormalized: false };
    let inputs = fixture.inputs().ok().unwrap();
    let samplers =
        metadata_samplers(&fixture.bindings, &inputs, &fixture.samplers).ok().unwrap();
    assert!(samplers.iter().any(|s| s.binding == 840 && s.source == SamplerSource::Static));
}

#[test]
fn native_collector_dirty_records_topology_and_fallback_invalidate_consecutive_reuse() {
    let mut stream = vec![
        StreamOp::WriteDescriptor { descriptor: 0 },
        StreamOp::SetPipeline { pipeline: PIPELINE },
    ];
    stream.extend(vec![draw(PrimitiveType::Triangle); 100]);
    let changes = [
        StreamOp::Bind,
        StreamOp::SetViewports { count: 2 },
        StreamOp::SetScissorRects { count: 2 },
        StreamOp::SetCullMode(2),
        StreamOp::WriteDescriptor { descriptor: 0 },
        StreamOp::SetPipeline { pipeline: PIPELINE },
    ];
    for change in changes {
        stream.push(change);
        stream.push(draw(PrimitiveType::Triangle));
        stream.push(draw(PrimitiveType::Triangle));
    }
    stream.push(draw(PrimitiveType::Line));
    let sites = sites(&vec![stream], 1);
    assert_eq!(sites.len(), 1 + changes.len() + 1);
    assert_eq!(sites[2].slots, 2);
    assert_eq!(sites.last().unwrap().topology, PrimitiveType::Line);
}

#[test]
fn native_collector_diagnostics_are_identity_bounded() {
    let mut diagnostics = Diagnostics::new();
    let source = Some(((1, 2, 3), (4, 5, 6)));
    assert!(diagnostics.record(TASK, Some(PIPELINE), source, "refusal"));
    assert!(!diagnostics.record(TASK, Some(PIPELINE), source, "refusal"));
    assert!(diagnostics.record(TASK + 1, Some(PIPELINE), source, "refusal"));
    assert!(diagnostics.record(
        TASK,
        Some(ResourceId { generation: 4, ..PIPELINE }),
        source,
        "refusal"
    ));
    assert!(diagnostics.record(
        TASK,
        Some(PIPELINE),
        Some(((1, 2, 3), (4, 5, 7))),
        "refusal"
    ));
    for task in 0..400 {
        diagnostics.record(task, Some(PIPELINE), source, "refusal");
    }
    assert_eq!(diagnostics.len(), LIMIT);
}

#[test]
fn native_metadata_walk_retains_exact_draw_state_without_running_submission() {
    let stream = vec![
        StreamOp::WriteDescriptor { descriptor: 0 },
        StreamOp::SetPipeline { pipeline: PIPELINE },
        draw(PrimitiveType::Triangle),
        StreamOp::SetCullMode(2),
        StreamOp::SetTriangleFillMode(1),
        draw(PrimitiveType::Triangle),
    ];
    let work = vec![stream];
    let collect = || -> Vec<(u32, u32)> {
        sites(&work, 1)
            .iter()
            .map(|site| {
                assert_eq!(site.topology, PrimitiveType::Triangle);
                assert_eq!(site.slots, 1);
                (site.raster.cull_mode, site.raster.fill_mode)
            })
            .collect()
    };
    assert_eq!(collect(), vec![(0, 0), (2, 1)]);
    assert_eq!(collect(), vec![(0, 0), (2, 1)]);
}

#[test]
fn unavailable_native_metadata_is_memoized_without_resource_table_consumption() {
    let work = vec![vec![draw(PrimitiveType::Triangle)]];
    let mut prepared: Prepared<Progress> = Prepared::new();
    let mut scans = 0;
    let mut asked = 0;
    for _ in 0..2 {
        if prepared.is_unscanned() {
            scans += 1;
            let (sites, failure) = scan(&work, 0);
            let outcomes = sites
                .iter()
                .map(|_| {
                    asked += 1;
                    Ok(Progress::Pending)
                })
                .collect();
            prepared.keep(collect(outcomes, failure));
        }
        let plans = prepared.plans.as_ref().unwrap().as_ref();
        assert!(!pending(plans.ok()));
    }
    assert_eq!((scans, asked), (1, 0));
    let failure = prepared.plans.unwrap().err().unwrap();
    assert_eq!(failure.reason.slug(), "native_preflight_no_pass");
    assert!(failure.pipeline.is_none());
}

#[test]
fn what_was_collected_first_is_kept() {
    let mut prepared: Prepared<u8> = Prepared::new();
    prepared.keep(Ok(vec![1]));
    prepared.keep(Ok(vec![2]));
    assert_eq!(prepared.plans.unwrap().ok(), Some(vec![1]));
    assert!(pending(Some(&vec![Progress::Ready, Progress::Pending])));
    assert!(!pending(Some(&vec![Progress::Ready, Progress::Unavailable])));
    assert!(!pending(None));
}

#[test]
fn a_draw_that_cannot_be_prepared_holds_up_no_other() {
    let plans = collect(
        vec![Ok(1), Err(PreflightReason::Depth), Ok(2), Err(PreflightReason::NoColor)],
        None,
    );
    assert_eq!(plans.ok(), Some(vec![1, 2]));
    let none = collect::<u8>(vec![Err(PreflightReason::Depth)], None);
    assert_eq!(none.ok(), Some(Vec::new()));
}

#[test]
fn draws_before_a_refusal_are_still_prepared_but_give_no_plan() {
    let ops = vec![
        StreamOp::WriteDescriptor { descriptor: 0 },
        StreamOp::SetPipeline { pipeline: PIPELINE },
        draw(PrimitiveType::Triangle),
        draw(PrimitiveType::Line),
        StreamOp::Draw(DrawOp::Indirect),
        draw(PrimitiveType::Point),
    ];
    let (sites, failure) = scan(&vec![ops], 1);
    assert_eq!(sites.iter().map(|site| site.record).collect::<Vec<_>>(), vec![2, 3]);
    let failure = failure.unwrap();
    assert_eq!(failure.reason, PreflightReason::IndirectDraw);
    assert_eq!(failure.pipeline, Some(PIPELINE));
    let kept = collect(vec![Ok(1), Ok(2)], Some(failure));
    assert_eq!(kept.err().map(|e| e.reason), Some(PreflightReason::IndirectDraw));
}

#[test]
fn the_first_bound_slot_decides_an_attribute_stride() {
    let mut fixture = Fixture::new();
    fixture.attributes[0] = VertexAttribute { buffer_index: 5, format: 30, stride: 0 };
    assert!(fixture.metadata().is_ok());
    // A slot nothing is bound to says nothing of the stride.
    fixture.bindings.vertex.buffers.push(BufferSlot {
        index: 5,
        buffer: None,
        offset: 0,
        stride: Some(16),
    });
    assert!(fixture.metadata().is_ok());
    fixture.bindings.vertex.buffers.last_mut().unwrap().buffer = Some(id(2));
    assert_eq!(fixture.refusal(), "native_preflight_vertex_attributes");
    // An attribute without a format is absent, whatever its stride.
    fixture.attributes[0].format = 0;
    assert!(fixture.metadata().is_ok());
}

#[test]
fn a_walk_refuses_what_it_cannot_prepare() {
    let begin = StreamOp::WriteDescriptor { descriptor: 0 };
    let refusal = |ops: Vec<StreamOp>| stopped(&vec![ops], 1).reason;
    assert_eq!(
        refusal(vec![begin, StreamOp::Draw(DrawOp::Indirect)]).slug(),
        "native_preflight_indirect_draw"
    );
    assert_eq!(
        refusal(vec![begin, StreamOp::Draw(DrawOp::Indexed { primitive: None })]).slug(),
        "native_preflight_topology"
    );
    // Another stream starts afresh.
    let two = vec![
        vec![begin, draw(PrimitiveType::Triangle)],
        vec![draw(PrimitiveType::Triangle)],
    ];
    assert_eq!(stopped(&two, 1).reason, PreflightReason::NoPass);
}

#[test]
fn each_shape_a_draw_must_not_have_is_its_own_refusal() {
    let change = |edit: fn(&mut Fixture)| {
        let mut fixture = Fixture::new();
        edit(&mut fixture);
        fixture.refusal()
    };
    assert_eq!(
        change(|f| f.map_pages_stable = true),
        "native_preflight_shared_target_placement"
    );
    assert_eq!(change(|f| f.pass.depth_texture = Some(id(1))), "native_preflight_depth");
    assert_eq!(change(|f| f.sample_count = 4), "native_preflight_multisample");
    assert_eq!(
        change(|f| f.fragment_reflection.push(ReflectedBinding {
            kind: ResourceKind::StorageImage,
            metal_index: 0,
        })),
        "native_preflight_current_storage_proof"
    );
    assert_eq!(
        change(|f| f.bindings.vertex.buffers[1].buffer = Some(id(999))),
        "native_preflight_buffer"
    );
    assert_eq!(
        change(|f| f.bindings.fragment.buffers[1].offset = 4096),
        "native_preflight_buffer_extent"
    );
    assert_eq!(
        change(|f| f.bindings.fragment.textures[0].object = f.pass.color[0].texture),
        "native_preflight_attachment_feedback"
    );
    assert_eq!(
        change(|f| f.objects.owners[0].record = TextureRecord::Memoryless { pixel_format: Some(RGBA16F) }),
        "native_preflight_sampled_memoryless"
    );
    assert_eq!(
        change(|f| f.pass.color[0].slice = 1),
        "native_preflight_attachment_subresource"
    );
    assert_eq!(
        change(|f| f.pass.color[0].texture = None),
        "native_preflight_sparse_attachments"
    );
    assert_eq!(
        change(|f| {
            f.pass.color = vec![color(None)];
        }),
        "native_preflight_no_color"
    );
    assert_eq!(
        change(|f| f.fragment_reflection[0].metal_index = 2),
        "native_preflight_input_attachment"
    );
    assert_eq!(
        change(|f| f.bindings.pipeline = None),
        "native_preflight_no_pipeline"
    );
    assert_eq!(outcome_slug(&Fixture::new().metadata()), "native_preflight_eligible");
}

#[test]
fn formats_and_backings_follow_views_as_far_as_the_chain_may_go() {
    let owner = |reference: u32, record: TextureRecord, backing: Option<u64>| ObjectOwner {
        reference,
        record,
        backing,
    };
    let objects = Objects {
        owners: vec![
            owner(1, TextureRecord::View { pixel_format: 0, base_texture_ref: 2 }, None),
            owner(2, TextureRecord::Texture { pixel_format: RGBA8 }, Some(9)),
            owner(3, TextureRecord::View { pixel_format: BGRA8, base_texture_ref: 2 }, None),
            owner(4, TextureRecord::View { pixel_format: 0, base_texture_ref: 4 }, None),
            owner(5, TextureRecord::Surface { pixel_format: 0, mapping_format: Some(BGRA8) }, Some(3)),
            owner(6, TextureRecord::Surface { pixel_format: RGBA8, mapping_format: None }, None),
            owner(7, TextureRecord::BufferTexture { pixel_format: RGBA8, buffer_ref: 2 }, None),
            owner(8, TextureRecord::Memoryless { pixel_format: None }, None),
            owner(9, TextureRecord::Other, None),
        ],
        buffers: Vec::new(),
        max_view_chain: 4,
    };
    assert_eq!(resource_format(&objects, 1, 0), Ok((RGBA8, false)));
    assert_eq!(resource_format(&objects, 3, 0), Ok((BGRA8, false)));
    assert_eq!(resource_format(&objects, 5, 0), Ok((BGRA8, false)));
    assert_eq!(resource_format(&objects, 4, 0), Err(PreflightReason::ViewChain));
    assert_eq!(resource_format(&objects, 6, 0), Err(PreflightReason::MappingUnavailable));
    assert_eq!(resource_format(&objects, 8, 0), Err(PreflightReason::MemorylessDescriptor));
    assert_eq!(resource_format(&objects, 9, 0), Err(PreflightReason::TextureDescriptor));
    assert_eq!(resource_format(&objects, 99, 0), Err(PreflightReason::TextureOwner));
    assert_eq!(resource_backing(&objects, 1, 0), Ok(Some(9)));
    assert_eq!(resource_backing(&objects, 7, 0), Ok(Some(9)));
    assert_eq!(resource_backing(&objects, 8, 0), Ok(None));
    assert_eq!(resource_backing(&objects, 4, 0), Err(PreflightReason::BackingChain));
    assert_eq!(resource_backing(&objects, 9, 0), Err(PreflightReason::BackingUnavailable));
    assert_eq!(resource_backing(&objects, 99, 0), Err(PreflightReason::BackingOwner));
}

#[test]
fn a_texture_the_shader_writes_or_arrays_is_not_prepared() {
    let mut fixture = Fixture::new();
    let mut resolved = fixture.resolved();
    let mut refuse = |access: TextureAccess, descriptor_count: u32| {
        resolved.fragment.textures =
            vec![TextureDescriptor { index: 3, binding: 35, descriptor_count, access }];
        fixture.map_pages_stable = false;
        let inputs = fixture.inputs().ok().unwrap();
        draw_metadata(
            DrawRequest {
                objects: &fixture.objects,
                formats: &fixture.formats,
                samplers: &fixture.samplers,
                bindings: &fixture.bindings,
                pass: &fixture.pass,
                map_pages_stable: false,
            },
            Some(&resolved),
            Ok(&inputs),
            RASTER,
            PrimitiveType::Triangle,
            1,
        )
        .err()
    };
    assert_eq!(refuse(TextureAccess::Storage, 1), Some(PreflightReason::TextureAccess));
    assert_eq!(refuse(TextureAccess::Sampled, 2), Some(PreflightReason::DescriptorArray));
    assert_eq!(refuse(TextureAccess::Sampled, 1), None);
}

#[test]
fn blending_is_carried_only_where_it_is_enabled() {
    assert_eq!(color_blend(state(0)), None);
    let enabled = ColorState { blending_enabled: true, ..state(0) };
    assert_eq!(color_blend(enabled), Some(enabled.blend));
}

#[test]
fn outcomes_are_reported_with_their_route() {
    assert_eq!(
        report_line(TASK, Some(PIPELINE), None, "native_preflight_eligible").split(" route=").nth(1),
        Some("exact_metadata")
    );
    let line = report_line(TASK, Some(PIPELINE), Some(((1, 2, 3), (4, 5, 6))), "refusal");
    assert!(line.starts_with("native_pipeline_preflight task=17 pipeline=44 generation=3 sourceVS="));
    assert!(line.ends_with(" reason=refusal route=synchronous"), "{line}");
}
