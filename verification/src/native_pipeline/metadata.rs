//! The descriptor layout and pass shape of one draw, worked out from metadata
//! alone.
use crate::inputs::VertexAttribute;
use crate::native_pipeline::objects::{
    backing_of, buffer_size_of, format_of, resource_backing, resource_format, Objects, ResourceId,
};
use crate::native_pipeline::reason::PreflightReason;
use crate::native_pipeline::samplers::{metadata_samplers, samplers_of, LoadedSampler, SamplerResource};
use crate::native_pipeline::scan::{GuestRasterState, PrimitiveType};
use crate::native_pipeline::tables::{
    buffers_collide, descriptor_of, stages_separate, BufferSlot, ObjectSlot, PipelineInputs,
    ReflectedBinding, Reflection, RenderBindings, ResourceKind, ShaderVariant, SourceInfo,
    StageTables, TextureAccess, TextureDescriptor, COLOR_INPUT_BINDING, FRAG_BUFFER_BINDING_OFFSET,
    FRAG_SAMPLED_RESOURCE_BINDING_OFFSET, TEXTURE_BINDING_BASE,
};
use crate::vulkan::{both_stages, descriptor_number, descriptor_type, DescriptorKind};
use vstd::prelude::*;

verus! {

/// Every channel of a colour attachment is written.
pub const COLOR_WRITE_ALL: u32 = 15;

/// One entry of a descriptor layout.
#[derive(Clone, Copy, Debug, PartialEq, Eq, Structural)]
pub struct BindingSig {
    pub binding: u32,
    pub ty: u32,
    pub stages: u32,
    pub count: u32,
}

/// A pixel format, and the Vulkan formats it may be attached as.
#[derive(Clone, Copy, Debug)]
pub struct FormatFact {
    pub format: u16,
    /// The format has a layout this rail samples natively.
    pub native_layout: bool,
    /// The Vulkan format of a guest-backed colour attachment.
    pub attachment: Option<i32>,
    /// The Vulkan format of a pass-local colour attachment.
    pub memoryless_attachment: Option<i32>,
}

/// One colour slot of a pass.
#[derive(Clone, Copy, Debug)]
pub struct PassColor {
    pub texture: Option<ResourceId>,
    pub resolve_texture: Option<ResourceId>,
    pub slice: u32,
    pub depth_plane: u32,
}

/// The attachments of a pass.
pub struct PassDescriptor {
    pub color: Vec<PassColor>,
    pub depth_texture: Option<ResourceId>,
    pub stencil_texture: Option<ResourceId>,
}

/// How one colour slot of a pipeline blends and writes.
#[derive(Clone, Copy, Debug)]
pub struct ColorState {
    pub slot: u32,
    pub blending_enabled: bool,
    pub blend: BlendKey,
    pub write_mask: u32,
}

/// Blend factors and operations.
#[derive(Clone, Copy, Debug, PartialEq, Eq, Structural)]
pub struct BlendKey {
    pub src_rgb: u32,
    pub dst_rgb: u32,
    pub op_rgb: u32,
    pub src_alpha: u32,
    pub dst_alpha: u32,
    pub op_alpha: u32,
}

/// A resolved render pipeline.
pub struct ResolvedPipeline {
    pub vertex_attributes: Vec<VertexAttribute>,
    pub raster_sample_count: u32,
    pub color0: ColorState,
    pub color_attachments: Vec<ColorState>,
    pub vertex: Reflection,
    pub fragment: Reflection,
}

/// The formats of the attachments a pass renders to. Slot zero is kept, and so
/// are the `secondary` ones; `color_input` has a bit for every slot that is
/// also read.
pub struct PassKey {
    pub color0_format: i32,
    pub secondary: Vec<i32>,
    pub color_input: u8,
}

/// Everything needed to create a draw's pipeline ahead of the draw.
pub struct Metadata {
    pub vertex: (u64, u64, u64),
    pub fragment: (u64, u64, u64),
    pub bindings: Vec<BindingSig>,
    pub pass: PassKey,
    pub blend: Option<BlendKey>,
    pub secondary_blend: Vec<Option<BlendKey>>,
    pub color_write_mask: Vec<u32>,
    pub raster: GuestRasterState,
    pub topology: PrimitiveType,
    pub viewport_count: u32,
}

/// What the draw is prepared against.
pub struct DrawContext<'a> {
    pub objects: &'a Objects,
    pub formats: &'a Vec<FormatFact>,
    pub samplers: &'a Vec<LoadedSampler>,
    pub bindings: &'a RenderBindings,
    pub pass: &'a PassDescriptor,
    pub resolved: &'a ResolvedPipeline,
    pub inputs: &'a PipelineInputs,
    /// Guest pages are mapped in place, so render targets are shared with them.
    pub map_pages_stable: bool,
}

/// The facts recorded for a format, the first where several are.
pub open spec fn fact_of(formats: Seq<FormatFact>, format: u16) -> Option<FormatFact>
    decreases formats.len(),
{
    if formats.len() == 0 {
        None
    } else if formats[0].format == format {
        Some(formats[0])
    } else {
        fact_of(formats.skip(1), format)
    }
}

fn find_fact(formats: &Vec<FormatFact>, format: u16) -> (fact: Option<FormatFact>)
    ensures
        fact == fact_of(formats@, format),
{
    let mut n: usize = 0;
    assert(formats@.skip(0) =~= formats@);
    while n < formats.len()
        invariant
            0 <= n <= formats@.len(),
            fact_of(formats@.skip(n as int), format) == fact_of(formats@, format),
        decreases formats@.len() - n,
    {
        let fact: FormatFact = formats[n];
        if fact.format == format {
            return Some(fact);
        }
        assert(formats@.skip(n as int).skip(1) =~= formats@.skip(n + 1));
        n += 1;
    }
    None
}

/// The stride a bound vertex buffer states for its index. A slot without a buffer
/// states none; the first where several are.
pub open spec fn bound_stride(slots: Seq<BufferSlot>, index: u32) -> Option<u64>
    decreases slots.len(),
{
    if slots.len() == 0 {
        None
    } else if slots[0].index == index && slots[0].buffer is Some {
        slots[0].stride
    } else {
        bound_stride(slots.skip(1), index)
    }
}

/// The attribute is fetched: it has a format, and the stride its buffer is bound
/// with, or else its own, is not zero.
pub open spec fn active_attribute(a: VertexAttribute, slots: Seq<BufferSlot>) -> bool {
    a.format != 0 && match bound_stride(slots, a.buffer_index) {
        Some(stride) => stride != 0,
        None => a.stride != 0,
    }
}

/// Some vertex attribute is active.
pub open spec fn any_attribute(attributes: Seq<VertexAttribute>, slots: Seq<BufferSlot>) -> bool {
    exists|k: int|
        0 <= k < attributes.len() && active_attribute(#[trigger] attributes[k], slots)
}

/// The first bound buffer that does not resolve, or whose offset is past its
/// end.
pub open spec fn buffer_refusal(objects: Objects, slots: Seq<BufferSlot>, n: int) -> Option<
    PreflightReason,
>
    decreases slots.len() - n,
{
    if n < 0 || n >= slots.len() {
        None
    } else {
        match slots[n].buffer {
            None => buffer_refusal(objects, slots, n + 1),
            Some(buffer) => match buffer_size_of(objects.buffers@, buffer.slot) {
                None => Some(PreflightReason::Buffer),
                Some(size) => if slots[n].offset >= size {
                    Some(PreflightReason::BufferExtent)
                } else {
                    buffer_refusal(objects, slots, n + 1)
                },
            },
        }
    }
}

/// The layout with the bound buffers from `n` on appended.
pub open spec fn with_buffers(
    slots: Seq<BufferSlot>,
    n: int,
    offset: u32,
    layout: Seq<BindingSig>,
) -> Result<Seq<BindingSig>, PreflightReason>
    decreases slots.len() - n,
{
    if n < 0 || n >= slots.len() {
        Ok(layout)
    } else if slots[n].buffer is None {
        with_buffers(slots, n + 1, offset, layout)
    } else if slots[n].index + offset > u32::MAX {
        Err(PreflightReason::BindingOverflow)
    } else {
        with_buffers(
            slots,
            n + 1,
            offset,
            layout.push(
                BindingSig {
                    binding: (slots[n].index + offset) as u32,
                    ty: descriptor_number(DescriptorKind::StorageBuffer),
                    stages: 17,
                    count: 1,
                },
            ),
        )
    }
}

/// The first colour slot from `n` on that refuses a texture with the given
/// allocation.
pub open spec fn feedback_refusal(
    objects: Objects,
    colors: Seq<PassColor>,
    n: int,
    source: u64,
) -> Option<PreflightReason>
    decreases colors.len() - n,
{
    if n < 0 || n >= colors.len() {
        None
    } else {
        match colors[n].texture {
            None => feedback_refusal(objects, colors, n + 1, source),
            Some(target) => match backing_of(objects, target.slot, 0) {
                Err(reason) => Some(reason),
                Ok(backing) => if backing == Some(source) {
                    Some(PreflightReason::AttachmentFeedback)
                } else {
                    feedback_refusal(objects, colors, n + 1, source)
                },
            },
        }
    }
}

/// Some colour slot attaches the very object.
pub open spec fn attached(colors: Seq<PassColor>, texture: ResourceId) -> bool {
    exists|k: int| 0 <= k < colors.len() && (#[trigger] colors[k]).texture == Some(texture)
}

/// The descriptor binding of a texture slot: the declared one, or the one its
/// index stands for.
pub open spec fn texture_binding(
    descriptor: Option<TextureDescriptor>,
    index: u32,
    offset: u32,
) -> int {
    match descriptor {
        Some(d) => d.binding + offset,
        None => TEXTURE_BINDING_BASE + index + offset,
    }
}

/// A descriptor that is a single sampled texture, or none at all.
pub open spec fn plainly_sampled(descriptor: Option<TextureDescriptor>) -> bool {
    descriptor matches Some(d) ==> d.descriptor_count == 1 && d.access == TextureAccess::Sampled
}

/// What one texture slot adds to the layout: nothing for an empty slot or one
/// neither shader can read, an entry for a texture this rail samples as it is.
pub open spec fn texture_entry(
    context: DrawContext,
    reflection: Reflection,
    offset: u32,
    slot: ObjectSlot,
) -> Result<Option<BindingSig>, PreflightReason> {
    let descriptor = descriptor_of(reflection.textures@, slot.index);
    match slot.object {
        None => Ok(None),
        Some(texture) => if texture_binding(descriptor, slot.index, offset) > u32::MAX {
            Err(PreflightReason::BindingOverflow)
        } else {
            let binding = texture_binding(descriptor, slot.index, offset) as u32;
            if plainly_sampled(descriptor) && context.inputs.sources.0.lacks(binding)
                && context.inputs.sources.1.lacks(binding) {
                Ok(None)
            } else if attached(context.pass.color@, texture) {
                Err(PreflightReason::AttachmentFeedback)
            } else {
                match format_of(*context.objects, texture.slot, 0) {
                    Err(reason) => Err(reason),
                    Ok((format, memoryless)) => if memoryless {
                        Err(PreflightReason::SampledMemoryless)
                    } else {
                        match backing_of(*context.objects, texture.slot, 0) {
                            Err(reason) => Err(reason),
                            Ok(None) => Err(PreflightReason::SampledBacking),
                            Ok(Some(source)) => match feedback_refusal(
                                *context.objects,
                                context.pass.color@,
                                0,
                                source,
                            ) {
                                Some(reason) => Err(reason),
                                None => if !(fact_of(context.formats@, format) matches Some(fact)
                                    && fact.native_layout) {
                                    Err(PreflightReason::SampledSpecialization)
                                } else if descriptor matches Some(d) && d.descriptor_count != 1 {
                                    Err(PreflightReason::DescriptorArray)
                                } else if descriptor matches Some(d) && d.access
                                    != TextureAccess::Sampled {
                                    Err(PreflightReason::TextureAccess)
                                } else {
                                    Ok(
                                        Some(
                                            BindingSig {
                                                binding,
                                                ty: descriptor_number(
                                                    DescriptorKind::SampledImage,
                                                ),
                                                stages: 17,
                                                count: 1,
                                            },
                                        ),
                                    )
                                },
                            },
                        }
                    },
                }
            }
        },
    }
}

/// The layout with the texture slots from `n` on appended.
pub open spec fn with_textures(
    context: DrawContext,
    reflection: Reflection,
    offset: u32,
    slots: Seq<ObjectSlot>,
    n: int,
    layout: Seq<BindingSig>,
) -> Result<Seq<BindingSig>, PreflightReason>
    decreases slots.len() - n,
{
    if n < 0 || n >= slots.len() {
        Ok(layout)
    } else {
        match texture_entry(context, reflection, offset, slots[n]) {
            Err(reason) => Err(reason),
            Ok(None) => with_textures(context, reflection, offset, slots, n + 1, layout),
            Ok(Some(entry)) => with_textures(
                context,
                reflection,
                offset,
                slots,
                n + 1,
                layout.push(entry),
            ),
        }
    }
}

/// The layout with one stage's buffers and textures appended.
pub open spec fn with_stage(
    context: DrawContext,
    fragment: bool,
    layout: Seq<BindingSig>,
) -> Result<Seq<BindingSig>, PreflightReason> {
    let stage = if fragment {
        context.bindings.fragment
    } else {
        context.bindings.vertex
    };
    let reflection = if fragment {
        context.resolved.fragment
    } else {
        context.resolved.vertex
    };
    let buffer_offset = if fragment && context.inputs.buf_collide {
        FRAG_BUFFER_BINDING_OFFSET
    } else {
        0
    };
    let offset = if fragment && context.inputs.separate {
        FRAG_SAMPLED_RESOURCE_BINDING_OFFSET
    } else {
        0
    };
    match with_buffers(stage.buffers@, 0, buffer_offset, layout) {
        Err(reason) => Err(reason),
        Ok(next) => with_textures(context, reflection, offset, stage.textures@, 0, next),
    }
}

/// The layout entries of bound samplers.
pub open spec fn sampler_entries(samplers: Seq<SamplerResource>) -> Seq<BindingSig> {
    Seq::new(
        samplers.len(),
        |k: int|
            BindingSig {
                binding: samplers[k].binding,
                ty: descriptor_number(DescriptorKind::Sampler),
                stages: 17,
                count: 1,
            },
    )
}

/// The Vulkan format of an attachment.
pub open spec fn attachment_format(
    formats: Seq<FormatFact>,
    format: u16,
    memoryless: bool,
) -> Option<i32> {
    match fact_of(formats, format) {
        None => None,
        Some(fact) => if memoryless {
            fact.memoryless_attachment
        } else {
            fact.attachment
        },
    }
}

/// The occupied colour slots from `n` on, each with its Vulkan format.
pub open spec fn with_targets(
    objects: Objects,
    formats: Seq<FormatFact>,
    colors: Seq<PassColor>,
    n: int,
    targets: Seq<(u32, i32)>,
) -> Result<Seq<(u32, i32)>, PreflightReason>
    decreases colors.len() - n,
{
    if n < 0 || n >= colors.len() {
        Ok(targets)
    } else {
        match colors[n].texture {
            None => with_targets(objects, formats, colors, n + 1, targets),
            Some(reference) => if colors[n].resolve_texture is Some || colors[n].slice != 0
                || colors[n].depth_plane != 0 {
                Err(PreflightReason::AttachmentSubresource)
            } else {
                match format_of(objects, reference.slot, 0) {
                    Err(reason) => Err(reason),
                    Ok((format, memoryless)) => match attachment_format(
                        formats,
                        format,
                        memoryless,
                    ) {
                        None => Err(PreflightReason::AttachmentFormat),
                        Some(native) => with_targets(
                            objects,
                            formats,
                            colors,
                            n + 1,
                            targets.push((n as u32, native)),
                        ),
                    },
                }
            },
        }
    }
}

/// Occupied slots are zero, one, two and so on, without a gap.
pub open spec fn contiguous(targets: Seq<(u32, i32)>) -> bool {
    forall|k: int| 0 <= k < targets.len() ==> (#[trigger] targets[k]).0 == k
}

/// The state a pipeline gives a colour slot, the first where several are.
pub open spec fn color_state_of(states: Seq<ColorState>, slot: u32) -> Option<ColorState>
    decreases states.len(),
{
    if states.len() == 0 {
        None
    } else if states[0].slot == slot {
        Some(states[0])
    } else {
        color_state_of(states.skip(1), slot)
    }
}

/// The blend state a colour slot is created with.
pub open spec fn blend_of(color: ColorState) -> Option<BlendKey> {
    if color.blending_enabled {
        Some(color.blend)
    } else {
        None
    }
}

/// The write masks of the eight colour slots.
pub open spec fn write_masks(resolved: ResolvedPipeline, targets: nat) -> Seq<u32> {
    Seq::new(
        8,
        |k: int|
            if k == 0 {
                resolved.color0.write_mask
            } else if k < targets {
                match color_state_of(resolved.color_attachments@, k as u32) {
                    Some(color) => color.write_mask,
                    None => COLOR_WRITE_ALL,
                }
            } else {
                COLOR_WRITE_ALL
            },
    )
}

/// The blend states of the seven colour slots behind slot zero.
pub open spec fn secondary_blends(resolved: ResolvedPipeline, targets: nat) -> Seq<
    Option<BlendKey>,
> {
    Seq::new(
        7,
        |k: int|
            if k + 1 < targets {
                match color_state_of(resolved.color_attachments@, (k + 1) as u32) {
                    Some(color) => blend_of(color),
                    None => None,
                }
            } else {
                None
            },
    )
}

/// The read-back mask and layout with the framebuffer-fetch inputs from `n` on
/// added.
pub open spec fn with_inputs(
    reflected: Seq<ReflectedBinding>,
    n: int,
    targets: nat,
    mask: u8,
    layout: Seq<BindingSig>,
) -> Result<(u8, Seq<BindingSig>), PreflightReason>
    decreases reflected.len() - n,
{
    if n < 0 || n >= reflected.len() {
        Ok((mask, layout))
    } else if reflected[n].kind != ResourceKind::ColorInput {
        with_inputs(reflected, n + 1, targets, mask, layout)
    } else {
        let slot = reflected[n].metal_index;
        if slot >= 8 || slot >= targets {
            Err(PreflightReason::InputAttachment)
        } else {
            with_inputs(
                reflected,
                n + 1,
                targets,
                mask | (1u8 << (slot as u8)),
                layout.push(
                    BindingSig {
                        binding: (COLOR_INPUT_BINDING + slot) as u32,
                        ty: descriptor_number(DescriptorKind::InputAttachment),
                        stages: 16,
                        count: 1,
                    },
                ),
            )
        }
    }
}

/// What holds of a draw before its bindings are looked at, or the reason it
/// does not.
pub open spec fn shape_refusal(context: DrawContext, viewport_count: u32) -> Option<
    PreflightReason,
> {
    if context.map_pages_stable {
        Some(PreflightReason::SharedTargetPlacement)
    } else if viewport_count != 1 {
        Some(PreflightReason::Multiview)
    } else if context.pass.depth_texture is Some || context.pass.stencil_texture is Some
        || context.bindings.depth_stencil is Some {
        Some(PreflightReason::Depth)
    } else if any_attribute(
        context.resolved.vertex_attributes@,
        context.bindings.vertex.buffers@,
    ) {
        Some(PreflightReason::VertexAttributes)
    } else if context.resolved.raster_sample_count > 1 {
        Some(PreflightReason::Multisample)
    } else if context.resolved.vertex.unsupported || context.resolved.fragment.unsupported {
        Some(PreflightReason::ResourceInterface)
    } else if context.resolved.vertex.declares(ResourceKind::StorageImage)
        || context.resolved.fragment.declares(ResourceKind::StorageImage)
        || context.inputs.fragment.pixel_interlock {
        Some(PreflightReason::CurrentStorageProof)
    } else {
        match buffer_refusal(*context.objects, context.bindings.vertex.buffers@, 0) {
            Some(reason) => Some(reason),
            None => buffer_refusal(*context.objects, context.bindings.fragment.buffers@, 0),
        }
    }
}

/// The layout of everything the two stages bind.
pub open spec fn bound_layout(context: DrawContext) -> Result<Seq<BindingSig>, PreflightReason> {
    match with_stage(context, false, Seq::empty()) {
        Err(reason) => Err(reason),
        Ok(vertex) => match with_stage(context, true, vertex) {
            Err(reason) => Err(reason),
            Ok(both) => match samplers_of(
                *context.bindings,
                *context.inputs,
                context.samplers@,
            ) {
                Err(reason) => Err(reason),
                Ok(samplers) => Ok(both + sampler_entries(samplers)),
            },
        },
    }
}

/// The colour attachments of the pass.
pub open spec fn pass_targets(context: DrawContext) -> Result<Seq<(u32, i32)>, PreflightReason> {
    match with_targets(
        *context.objects,
        context.formats@,
        context.pass.color@,
        0,
        Seq::empty(),
    ) {
        Err(reason) => Err(reason),
        Ok(targets) => if targets.len() == 0 {
            Err(PreflightReason::NoColor)
        } else if !contiguous(targets) {
            Err(PreflightReason::SparseAttachments)
        } else if targets.len() > 8 {
            Err(PreflightReason::AttachmentCount)
        } else {
            Ok(targets)
        },
    }
}

/// The metadata of a draw, reduced to what is computed rather than carried.
pub ghost struct Prepared {
    pub layout: Seq<BindingSig>,
    pub targets: Seq<(u32, i32)>,
    pub color_input: u8,
}

/// What a draw is prepared with, or the first reason it is not.
pub open spec fn prepared(context: DrawContext, viewport_count: u32) -> Result<
    Prepared,
    PreflightReason,
> {
    match shape_refusal(context, viewport_count) {
        Some(reason) => Err(reason),
        None => match bound_layout(context) {
            Err(reason) => Err(reason),
            Ok(layout) => match pass_targets(context) {
                Err(reason) => Err(reason),
                Ok(targets) => match with_inputs(
                    context.resolved.fragment.bindings@,
                    0,
                    targets.len(),
                    0,
                    layout,
                ) {
                    Err(reason) => Err(reason),
                    Ok((color_input, all)) => Ok(Prepared { layout: all, targets, color_input }),
                },
            },
        },
    }
}

fn check_buffers(objects: &Objects, slots: &Vec<BufferSlot>) -> (refusal: Option<PreflightReason>)
    ensures
        refusal == buffer_refusal(*objects, slots@, 0),
{
    let mut n: usize = 0;
    while n < slots.len()
        invariant
            0 <= n <= slots@.len(),
            buffer_refusal(*objects, slots@, 0) == buffer_refusal(*objects, slots@, n as int),
        decreases slots@.len() - n,
    {
        let slot: BufferSlot = slots[n];
        if let Some(buffer) = slot.buffer {
            match objects.buffer_size(buffer.slot) {
                None => {
                    return Some(PreflightReason::Buffer);
                },
                Some(size) => {
                    if slot.offset >= size {
                        return Some(PreflightReason::BufferExtent);
                    }
                },
            }
        }
        n += 1;
    }
    None
}

fn find_stride(slots: &Vec<BufferSlot>, index: u32) -> (stride: Option<u64>)
    ensures
        stride == bound_stride(slots@, index),
{
    let mut n: usize = 0;
    assert(slots@.skip(0) =~= slots@);
    while n < slots.len()
        invariant
            0 <= n <= slots@.len(),
            bound_stride(slots@.skip(n as int), index) == bound_stride(slots@, index),
        decreases slots@.len() - n,
    {
        if slots[n].index == index && slots[n].buffer.is_some() {
            return slots[n].stride;
        }
        assert(slots@.skip(n as int).skip(1) =~= slots@.skip(n + 1));
        n += 1;
    }
    None
}

fn has_attribute(attributes: &Vec<VertexAttribute>, slots: &Vec<BufferSlot>) -> (r: bool)
    ensures
        r == any_attribute(attributes@, slots@),
{
    let mut n: usize = 0;
    while n < attributes.len()
        invariant
            0 <= n <= attributes@.len(),
            forall|k: int| 0 <= k < n ==> !active_attribute(#[trigger] attributes@[k], slots@),
        decreases attributes@.len() - n,
    {
        let attribute: VertexAttribute = attributes[n];
        if attribute.format != 0 {
            let stride: u64 = match find_stride(slots, attribute.buffer_index) {
                Some(stride) => stride,
                None => attribute.stride as u64,
            };
            if stride != 0 {
                assert(active_attribute(attributes@[n as int], slots@));
                return true;
            }
        }
        n += 1;
    }
    false
}

fn check_shape(context: &DrawContext, viewport_count: u32) -> (refusal: Option<PreflightReason>)
    ensures
        refusal == shape_refusal(*context, viewport_count),
{
    if context.map_pages_stable {
        return Some(PreflightReason::SharedTargetPlacement);
    }
    if viewport_count != 1 {
        return Some(PreflightReason::Multiview);
    }
    if context.pass.depth_texture.is_some() || context.pass.stencil_texture.is_some()
        || context.bindings.depth_stencil.is_some() {
        return Some(PreflightReason::Depth);
    }
    if has_attribute(&context.resolved.vertex_attributes, &context.bindings.vertex.buffers) {
        return Some(PreflightReason::VertexAttributes);
    }
    if context.resolved.raster_sample_count > 1 {
        return Some(PreflightReason::Multisample);
    }
    if context.resolved.vertex.unsupported || context.resolved.fragment.unsupported {
        return Some(PreflightReason::ResourceInterface);
    }
    if context.resolved.vertex.has_kind(ResourceKind::StorageImage)
        || context.resolved.fragment.has_kind(ResourceKind::StorageImage)
        || context.inputs.fragment.pixel_interlock {
        return Some(PreflightReason::CurrentStorageProof);
    }
    match check_buffers(context.objects, &context.bindings.vertex.buffers) {
        Some(reason) => Some(reason),
        None => check_buffers(context.objects, &context.bindings.fragment.buffers),
    }
}

fn add_buffers(slots: &Vec<BufferSlot>, offset: u32, layout: &mut Vec<BindingSig>) -> (r: Result<
    (),
    PreflightReason,
>)
    ensures
        match with_buffers(slots@, 0, offset, old(layout)@) {
            Ok(next) => r is Ok && final(layout)@ == next,
            Err(reason) => r == Err::<(), PreflightReason>(reason),
        },
{
    let ty: u32 = descriptor_type(DescriptorKind::StorageBuffer);
    let stages: u32 = both_stages();
    let mut n: usize = 0;
    while n < slots.len()
        invariant
            0 <= n <= slots@.len(),
            ty == descriptor_number(DescriptorKind::StorageBuffer),
            stages == 17,
            with_buffers(slots@, 0, offset, old(layout)@) == with_buffers(
                slots@,
                n as int,
                offset,
                layout@,
            ),
        decreases slots@.len() - n,
    {
        let slot: BufferSlot = slots[n];
        if slot.buffer.is_some() {
            match slot.index.checked_add(offset) {
                None => {
                    return Err(PreflightReason::BindingOverflow);
                },
                Some(binding) => {
                    layout.push(BindingSig { binding, ty, stages, count: 1 });
                },
            }
        }
        n += 1;
    }
    Ok(())
}

fn same_resource(a: Option<ResourceId>, b: ResourceId) -> (r: bool)
    ensures
        r == (a == Some(b)),
{
    match a {
        Some(id) => id == b,
        None => false,
    }
}

fn is_attached(colors: &Vec<PassColor>, texture: ResourceId) -> (r: bool)
    ensures
        r == attached(colors@, texture),
{
    let mut n: usize = 0;
    while n < colors.len()
        invariant
            0 <= n <= colors@.len(),
            forall|k: int| 0 <= k < n ==> (#[trigger] colors@[k]).texture != Some(texture),
        decreases colors@.len() - n,
    {
        if same_resource(colors[n].texture, texture) {
            return true;
        }
        n += 1;
    }
    false
}

fn check_feedback(objects: &Objects, colors: &Vec<PassColor>, source: u64) -> (refusal: Option<
    PreflightReason,
>)
    ensures
        refusal == feedback_refusal(*objects, colors@, 0, source),
{
    let mut n: usize = 0;
    while n < colors.len()
        invariant
            0 <= n <= colors@.len(),
            feedback_refusal(*objects, colors@, 0, source) == feedback_refusal(
                *objects,
                colors@,
                n as int,
                source,
            ),
        decreases colors@.len() - n,
    {
        if let Some(target) = colors[n].texture {
            match resource_backing(objects, target.slot, 0) {
                Err(reason) => {
                    return Some(reason);
                },
                Ok(backing) => {
                    if let Some(id) = backing {
                        if id == source {
                            return Some(PreflightReason::AttachmentFeedback);
                        }
                    }
                },
            }
        }
        n += 1;
    }
    None
}

fn texture_sig(
    context: &DrawContext,
    reflection: &Reflection,
    offset: u32,
    slot: ObjectSlot,
) -> (entry: Result<Option<BindingSig>, PreflightReason>)
    ensures
        entry == texture_entry(*context, *reflection, offset, slot),
{
    let texture: ResourceId = match slot.object {
        Some(texture) => texture,
        None => {
            return Ok(None);
        },
    };
    let descriptor: Option<TextureDescriptor> = reflection.texture_descriptor(slot.index);
    let wide: u64 = match descriptor {
        Some(d) => d.binding as u64 + offset as u64,
        None => TEXTURE_BINDING_BASE as u64 + slot.index as u64 + offset as u64,
    };
    if wide > u32::MAX as u64 {
        return Err(PreflightReason::BindingOverflow);
    }
    let binding: u32 = wide as u32;
    let (single, sampled): (bool, bool) = match descriptor {
        Some(d) => (d.descriptor_count == 1, d.access == TextureAccess::Sampled),
        None => (true, true),
    };
    if single && sampled && context.inputs.sources.0.absent(binding)
        && context.inputs.sources.1.absent(binding) {
        return Ok(None);
    }
    if is_attached(&context.pass.color, texture) {
        return Err(PreflightReason::AttachmentFeedback);
    }
    let format: u16 = match resource_format(context.objects, texture.slot, 0) {
        Err(reason) => {
            return Err(reason);
        },
        Ok((format, memoryless)) => {
            if memoryless {
                return Err(PreflightReason::SampledMemoryless);
            }
            format
        },
    };
    let source: u64 = match resource_backing(context.objects, texture.slot, 0) {
        Err(reason) => {
            return Err(reason);
        },
        Ok(None) => {
            return Err(PreflightReason::SampledBacking);
        },
        Ok(Some(source)) => source,
    };
    if let Some(reason) = check_feedback(context.objects, &context.pass.color, source) {
        return Err(reason);
    }
    let native: bool = match find_fact(context.formats, format) {
        Some(fact) => fact.native_layout,
        None => false,
    };
    if !native {
        return Err(PreflightReason::SampledSpecialization);
    }
    if !single {
        return Err(PreflightReason::DescriptorArray);
    }
    if !sampled {
        return Err(PreflightReason::TextureAccess);
    }
    Ok(
        Some(
            BindingSig {
                binding,
                ty: descriptor_type(DescriptorKind::SampledImage),
                stages: both_stages(),
                count: 1,
            },
        ),
    )
}

fn add_textures(
    context: &DrawContext,
    reflection: &Reflection,
    offset: u32,
    slots: &Vec<ObjectSlot>,
    layout: &mut Vec<BindingSig>,
) -> (r: Result<(), PreflightReason>)
    ensures
        match with_textures(*context, *reflection, offset, slots@, 0, old(layout)@) {
            Ok(next) => r is Ok && final(layout)@ == next,
            Err(reason) => r == Err::<(), PreflightReason>(reason),
        },
{
    let mut n: usize = 0;
    while n < slots.len()
        invariant
            0 <= n <= slots@.len(),
            with_textures(*context, *reflection, offset, slots@, 0, old(layout)@) == with_textures(
                *context,
                *reflection,
                offset,
                slots@,
                n as int,
                layout@,
            ),
        decreases slots@.len() - n,
    {
        match texture_sig(context, reflection, offset, slots[n]) {
            Err(reason) => {
                return Err(reason);
            },
            Ok(None) => {},
            Ok(Some(entry)) => {
                layout.push(entry);
            },
        }
        n += 1;
    }
    Ok(())
}

fn add_stage(context: &DrawContext, fragment: bool, layout: &mut Vec<BindingSig>) -> (r: Result<
    (),
    PreflightReason,
>)
    ensures
        match with_stage(*context, fragment, old(layout)@) {
            Ok(next) => r is Ok && final(layout)@ == next,
            Err(reason) => r == Err::<(), PreflightReason>(reason),
        },
{
    let stage: &StageTables = if fragment {
        &context.bindings.fragment
    } else {
        &context.bindings.vertex
    };
    let reflection: &Reflection = if fragment {
        &context.resolved.fragment
    } else {
        &context.resolved.vertex
    };
    let buffer_offset: u32 = if fragment && context.inputs.buf_collide {
        FRAG_BUFFER_BINDING_OFFSET
    } else {
        0
    };
    let offset: u32 = if fragment && context.inputs.separate {
        FRAG_SAMPLED_RESOURCE_BINDING_OFFSET
    } else {
        0
    };
    if let Err(reason) = add_buffers(&stage.buffers, buffer_offset, layout) {
        return Err(reason);
    }
    add_textures(context, reflection, offset, &stage.textures, layout)
}

fn collect_layout(context: &DrawContext) -> (r: Result<Vec<BindingSig>, PreflightReason>)
    ensures
        match bound_layout(*context) {
            Ok(layout) => r matches Ok(v) && v@ == layout,
            Err(reason) => r matches Err(e) && e == reason,
        },
{
    let mut layout: Vec<BindingSig> = Vec::new();
    if let Err(reason) = add_stage(context, false, &mut layout) {
        return Err(reason);
    }
    if let Err(reason) = add_stage(context, true, &mut layout) {
        return Err(reason);
    }
    let samplers: Vec<SamplerResource> = match metadata_samplers(
        context.bindings,
        context.inputs,
        context.samplers,
    ) {
        Ok(samplers) => samplers,
        Err(reason) => {
            return Err(reason);
        },
    };
    let ghost both = layout@;
    let ty: u32 = descriptor_type(DescriptorKind::Sampler);
    let stages: u32 = both_stages();
    let mut n: usize = 0;
    while n < samplers.len()
        invariant
            0 <= n <= samplers@.len(),
            ty == descriptor_number(DescriptorKind::Sampler),
            stages == 17,
            layout@ == both + sampler_entries(samplers@).take(n as int),
        decreases samplers@.len() - n,
    {
        layout.push(BindingSig { binding: samplers[n].binding, ty, stages, count: 1 });
        assert(sampler_entries(samplers@).take(n + 1) =~= sampler_entries(samplers@).take(
            n as int,
        ).push(sampler_entries(samplers@)[n as int]));
        n += 1;
    }
    assert(sampler_entries(samplers@).take(n as int) =~= sampler_entries(samplers@));
    Ok(layout)
}

fn collect_targets(context: &DrawContext) -> (r: Result<Vec<(u32, i32)>, PreflightReason>)
    requires
        context.pass.color@.len() <= u32::MAX,
    ensures
        match pass_targets(*context) {
            Ok(targets) => r matches Ok(v) && v@ == targets,
            Err(reason) => r matches Err(e) && e == reason,
        },
{
    let colors: &Vec<PassColor> = &context.pass.color;
    let mut targets: Vec<(u32, i32)> = Vec::new();
    let mut n: usize = 0;
    while n < colors.len()
        invariant
            0 <= n <= colors@.len() <= u32::MAX,
            colors@ == context.pass.color@,
            with_targets(
                *context.objects,
                context.formats@,
                context.pass.color@,
                0,
                Seq::empty(),
            ) == with_targets(
                *context.objects,
                context.formats@,
                context.pass.color@,
                n as int,
                targets@,
            ),
        decreases colors@.len() - n,
    {
        let color: PassColor = colors[n];
        if let Some(reference) = color.texture {
            if color.resolve_texture.is_some() || color.slice != 0 || color.depth_plane != 0 {
                return Err(PreflightReason::AttachmentSubresource);
            }
            let (format, memoryless): (u16, bool) = match resource_format(
                context.objects,
                reference.slot,
                0,
            ) {
                Ok(answer) => answer,
                Err(reason) => {
                    return Err(reason);
                },
            };
            let native: Option<i32> = match find_fact(context.formats, format) {
                None => None,
                Some(fact) => if memoryless {
                    fact.memoryless_attachment
                } else {
                    fact.attachment
                },
            };
            match native {
                None => {
                    return Err(PreflightReason::AttachmentFormat);
                },
                Some(native) => {
                    targets.push((n as u32, native));
                },
            }
        }
        n += 1;
    }
    if targets.len() == 0 {
        return Err(PreflightReason::NoColor);
    }
    let mut k: usize = 0;
    while k < targets.len()
        invariant
            0 <= k <= targets@.len(),
            targets@.len() > 0,
            forall|i: int| 0 <= i < k ==> (#[trigger] targets@[i]).0 == i,
            with_targets(
                *context.objects,
                context.formats@,
                context.pass.color@,
                0,
                Seq::empty(),
            ) == Ok::<Seq<(u32, i32)>, PreflightReason>(targets@),
        decreases targets@.len() - k,
    {
        if targets[k].0 as usize != k {
            assert(targets@[k as int].0 != k);
            return Err(PreflightReason::SparseAttachments);
        }
        k += 1;
    }
    if targets.len() > 8 {
        return Err(PreflightReason::AttachmentCount);
    }
    Ok(targets)
}

fn color_state(states: &Vec<ColorState>, slot: u32) -> (state: Option<ColorState>)
    ensures
        state == color_state_of(states@, slot),
{
    let mut n: usize = 0;
    assert(states@.skip(0) =~= states@);
    while n < states.len()
        invariant
            0 <= n <= states@.len(),
            color_state_of(states@.skip(n as int), slot) == color_state_of(states@, slot),
        decreases states@.len() - n,
    {
        let state: ColorState = states[n];
        if state.slot == slot {
            return Some(state);
        }
        assert(states@.skip(n as int).skip(1) =~= states@.skip(n + 1));
        n += 1;
    }
    None
}

/// The blend state a colour slot is created with.
pub fn color_blend(color: ColorState) -> (blend: Option<BlendKey>)
    ensures
        blend == blend_of(color),
{
    if color.blending_enabled {
        Some(color.blend)
    } else {
        None
    }
}

fn collect_masks(resolved: &ResolvedPipeline, targets: usize) -> (masks: Vec<u32>)
    ensures
        masks@ == write_masks(*resolved, targets as nat),
{
    let mut masks: Vec<u32> = Vec::new();
    masks.push(resolved.color0.write_mask);
    let mut n: usize = 1;
    while n < 8
        invariant
            1 <= n <= 8,
            masks@ == write_masks(*resolved, targets as nat).take(n as int),
        decreases 8 - n,
    {
        let mask: u32 = if n < targets {
            match color_state(&resolved.color_attachments, n as u32) {
                Some(color) => color.write_mask,
                None => COLOR_WRITE_ALL,
            }
        } else {
            COLOR_WRITE_ALL
        };
        masks.push(mask);
        n += 1;
        assert(masks@ =~= write_masks(*resolved, targets as nat).take(n as int));
    }
    assert(masks@ =~= write_masks(*resolved, targets as nat));
    masks
}

fn collect_blends(resolved: &ResolvedPipeline, targets: usize) -> (blends: Vec<Option<BlendKey>>)
    ensures
        blends@ == secondary_blends(*resolved, targets as nat),
{
    let mut blends: Vec<Option<BlendKey>> = Vec::new();
    let mut n: usize = 0;
    while n < 7
        invariant
            0 <= n <= 7,
            blends@ == secondary_blends(*resolved, targets as nat).take(n as int),
        decreases 7 - n,
    {
        let blend: Option<BlendKey> = if n + 1 < targets {
            match color_state(&resolved.color_attachments, (n + 1) as u32) {
                Some(color) => color_blend(color),
                None => None,
            }
        } else {
            None
        };
        blends.push(blend);
        n += 1;
        assert(blends@ =~= secondary_blends(*resolved, targets as nat).take(n as int));
    }
    assert(blends@ =~= secondary_blends(*resolved, targets as nat));
    blends
}

fn add_inputs(
    reflected: &Vec<ReflectedBinding>,
    targets: usize,
    layout: &mut Vec<BindingSig>,
) -> (r: Result<u8, PreflightReason>)
    ensures
        match with_inputs(reflected@, 0, targets as nat, 0, old(layout)@) {
            Ok((mask, next)) => r == Ok::<u8, PreflightReason>(mask) && final(layout)@ == next,
            Err(reason) => r == Err::<u8, PreflightReason>(reason),
        },
{
    let ty: u32 = descriptor_type(DescriptorKind::InputAttachment);
    let mut mask: u8 = 0;
    let mut n: usize = 0;
    while n < reflected.len()
        invariant
            0 <= n <= reflected@.len(),
            ty == descriptor_number(DescriptorKind::InputAttachment),
            with_inputs(reflected@, 0, targets as nat, 0, old(layout)@) == with_inputs(
                reflected@,
                n as int,
                targets as nat,
                mask,
                layout@,
            ),
        decreases reflected@.len() - n,
    {
        let binding: ReflectedBinding = reflected[n];
        if binding.kind == ResourceKind::ColorInput {
            let slot: u32 = binding.metal_index;
            if slot >= 8 || slot as usize >= targets {
                return Err(PreflightReason::InputAttachment);
            }
            mask = mask | (1u8 << (slot as u8));
            layout.push(
                BindingSig { binding: COLOR_INPUT_BINDING + slot, ty, stages: 16, count: 1 },
            );
        }
        n += 1;
    }
    Ok(mask)
}

/// The metadata of a draw whose pipeline is resolved, or the first reason the
/// draw stays on the synchronous rail.
pub fn draw_metadata_resolved(
    context: &DrawContext,
    raster: GuestRasterState,
    topology: PrimitiveType,
    viewport_count: u32,
) -> (r: Result<Metadata, PreflightReason>)
    requires
        context.pass.color@.len() <= u32::MAX,
    ensures
        match prepared(*context, viewport_count) {
            Err(reason) => r matches Err(e) && e == reason,
            Ok(p) => r matches Ok(m) && {
                &&& m.bindings@ == p.layout
                &&& m.pass.color0_format == p.targets[0].1
                &&& m.pass.secondary@ == Seq::new(
                    (p.targets.len() - 1) as nat,
                    |k: int| p.targets[k + 1].1,
                )
                &&& m.pass.color_input == p.color_input
                &&& m.blend == blend_of(context.resolved.color0)
                &&& m.secondary_blend@ == secondary_blends(*context.resolved, p.targets.len())
                &&& m.color_write_mask@ == write_masks(*context.resolved, p.targets.len())
                &&& m.vertex == context.inputs.sources.0.digest
                &&& m.fragment == context.inputs.sources.1.digest
                &&& m.raster == raster
                &&& m.topology == topology
                &&& m.viewport_count == viewport_count
                &&& blends_as_stated(
                    *context.resolved,
                    p.targets.len(),
                    m.blend,
                    m.secondary_blend@,
                )
                &&& masks_as_stated(*context.resolved, p.targets.len(), m.color_write_mask@)
            },
        },
{
    if let Some(reason) = check_shape(context, viewport_count) {
        return Err(reason);
    }
    let mut layout: Vec<BindingSig> = match collect_layout(context) {
        Ok(layout) => layout,
        Err(reason) => {
            return Err(reason);
        },
    };
    let targets: Vec<(u32, i32)> = match collect_targets(context) {
        Ok(targets) => targets,
        Err(reason) => {
            return Err(reason);
        },
    };
    let color_input: u8 = match add_inputs(
        &context.resolved.fragment.bindings,
        targets.len(),
        &mut layout,
    ) {
        Ok(mask) => mask,
        Err(reason) => {
            return Err(reason);
        },
    };
    proof {
        law_slots_blend_and_write_as_stated(*context.resolved, targets@.len());
    }
    let mut secondary: Vec<i32> = Vec::new();
    let mut n: usize = 1;
    while n < targets.len()
        invariant
            1 <= n <= targets@.len(),
            secondary@ == Seq::new((n - 1) as nat, |k: int| targets@[k + 1].1),
        decreases targets@.len() - n,
    {
        secondary.push(targets[n].1);
        n += 1;
        assert(secondary@ =~= Seq::new((n - 1) as nat, |k: int| targets@[k + 1].1));
    }
    Ok(
        Metadata {
            vertex: context.inputs.sources.0.digest,
            fragment: context.inputs.sources.1.digest,
            bindings: layout,
            pass: PassKey { color0_format: targets[0].1, secondary, color_input },
            blend: color_blend(context.resolved.color0),
            secondary_blend: collect_blends(context.resolved, targets.len()),
            color_write_mask: collect_masks(context.resolved, targets.len()),
            raster,
            topology,
            viewport_count,
        },
    )
}

impl PipelineInputs {
    /// The shaders of a pipeline as the bindings call for them. The variants are
    /// those fetched for the flags that [`RenderBindings::separate_stages`] and
    /// [`RenderBindings::buffer_collision`] answer; without their retained
    /// sources nothing can be prepared.
    pub fn new(
        bindings: &RenderBindings,
        reflected_collision: bool,
        vertex: ShaderVariant,
        fragment: ShaderVariant,
        sources: Option<(SourceInfo, SourceInfo)>,
    ) -> (r: Result<PipelineInputs, PreflightReason>)
        ensures
            match sources {
                None => r matches Err(e) && e == PreflightReason::CachesUnavailable,
                Some(pair) => r matches Ok(inputs) && inputs == (PipelineInputs {
                    vertex,
                    fragment,
                    sources: pair,
                    buf_collide: buffers_collide(
                        bindings.vertex.buffers@,
                        bindings.fragment.buffers@,
                    ),
                    separate: stages_separate(*bindings, reflected_collision),
                }),
            },
    {
        let buf_collide: bool = bindings.buffer_collision();
        let separate: bool = bindings.separate_stages(reflected_collision);
        match sources {
            None => Err(PreflightReason::CachesUnavailable),
            Some(sources) => Ok(
                PipelineInputs { vertex, fragment, sources, buf_collide, separate },
            ),
        }
    }
}

/// What a draw is prepared against before its pipeline is known to resolve.
pub struct DrawRequest<'a> {
    pub objects: &'a Objects,
    pub formats: &'a Vec<FormatFact>,
    pub samplers: &'a Vec<LoadedSampler>,
    pub bindings: &'a RenderBindings,
    pub pass: &'a PassDescriptor,
    pub map_pages_stable: bool,
}

/// The context of a draw whose pipeline resolves.
pub open spec fn resolved_context<'a>(
    request: DrawRequest<'a>,
    resolved: &'a ResolvedPipeline,
    inputs: &'a PipelineInputs,
) -> DrawContext<'a> {
    DrawContext {
        objects: request.objects,
        formats: request.formats,
        samplers: request.samplers,
        bindings: request.bindings,
        pass: request.pass,
        resolved,
        inputs,
        map_pages_stable: request.map_pages_stable,
    }
}

/// The metadata of a draw. `resolved` is the bound pipeline where it resolves,
/// `inputs` its shaders or the reason they are not at hand.
pub fn draw_metadata<'a>(
    request: DrawRequest<'a>,
    resolved: Option<&'a ResolvedPipeline>,
    inputs: Result<&'a PipelineInputs, PreflightReason>,
    raster: GuestRasterState,
    topology: PrimitiveType,
    viewport_count: u32,
) -> (r: Result<Metadata, PreflightReason>)
    requires
        request.pass.color@.len() <= u32::MAX,
    ensures
        request.bindings.pipeline is None ==> (r matches Err(e) && e
            == PreflightReason::NoPipeline),
        request.bindings.pipeline is Some && resolved is None ==> (r matches Err(e) && e
            == PreflightReason::PipelineUnavailable),
        request.bindings.pipeline is Some && resolved is Some ==> match inputs {
            Err(reason) => r matches Err(e) && e == reason,
            Ok(shaders) => {
                let context = resolved_context(request, resolved->0, shaders);
                match prepared(context, viewport_count) {
                    Err(reason) => r matches Err(e) && e == reason,
                    Ok(p) => r matches Ok(m) && {
                        &&& m.bindings@ == p.layout
                        &&& m.pass.color0_format == p.targets[0].1
                        &&& m.pass.secondary@ == Seq::new(
                            (p.targets.len() - 1) as nat,
                            |k: int| p.targets[k + 1].1,
                        )
                        &&& m.pass.color_input == p.color_input
                        &&& m.blend == blend_of(context.resolved.color0)
                        &&& m.secondary_blend@ == secondary_blends(
                            *context.resolved,
                            p.targets.len(),
                        )
                        &&& m.color_write_mask@ == write_masks(*context.resolved, p.targets.len())
                        &&& m.vertex == shaders.sources.0.digest
                        &&& m.fragment == shaders.sources.1.digest
                        &&& m.raster == raster
                        &&& m.topology == topology
                        &&& m.viewport_count == viewport_count
                        &&& blends_as_stated(
                            *context.resolved,
                            p.targets.len(),
                            m.blend,
                            m.secondary_blend@,
                        )
                        &&& masks_as_stated(
                            *context.resolved,
                            p.targets.len(),
                            m.color_write_mask@,
                        )
                    },
                }
            },
        },
{
    if request.bindings.pipeline.is_none() {
        return Err(PreflightReason::NoPipeline);
    }
    let resolved: &'a ResolvedPipeline = match resolved {
        Some(resolved) => resolved,
        None => {
            return Err(PreflightReason::PipelineUnavailable);
        },
    };
    let inputs: &'a PipelineInputs = match inputs {
        Ok(inputs) => inputs,
        Err(reason) => {
            return Err(reason);
        },
    };
    let context: DrawContext = DrawContext {
        objects: request.objects,
        formats: request.formats,
        samplers: request.samplers,
        bindings: request.bindings,
        pass: request.pass,
        resolved,
        inputs,
        map_pages_stable: request.map_pages_stable,
    };
    draw_metadata_resolved(&context, raster, topology, viewport_count)
}

/// An entry any single descriptor may have: one of the kinds a draw binds, one
/// descriptor wide.
pub open spec fn scalar_entry(entry: BindingSig) -> bool {
    &&& entry.count == 1
    &&& entry.ty == descriptor_number(DescriptorKind::InputAttachment) ==> entry.stages == 16
    &&& entry.ty != descriptor_number(DescriptorKind::InputAttachment) ==> entry.stages == 17 && (
    entry.ty == descriptor_number(DescriptorKind::StorageBuffer) || entry.ty == descriptor_number(
        DescriptorKind::SampledImage,
    ) || entry.ty == descriptor_number(DescriptorKind::Sampler))
}

/// Every entry of a layout is scalar.
pub open spec fn scalar_layout(layout: Seq<BindingSig>) -> bool {
    forall|k: int| 0 <= k < layout.len() ==> scalar_entry(#[trigger] layout[k])
}

proof fn lemma_buffers_scalar(
    slots: Seq<BufferSlot>,
    n: int,
    offset: u32,
    layout: Seq<BindingSig>,
)
    requires
        scalar_layout(layout),
    ensures
        with_buffers(slots, n, offset, layout) matches Ok(next) ==> scalar_layout(next),
    decreases slots.len() - n,
{
    if 0 <= n < slots.len() {
        if slots[n].buffer is None {
            lemma_buffers_scalar(slots, n + 1, offset, layout);
        } else if slots[n].index + offset <= u32::MAX {
            lemma_buffers_scalar(
                slots,
                n + 1,
                offset,
                layout.push(
                    BindingSig {
                        binding: (slots[n].index + offset) as u32,
                        ty: descriptor_number(DescriptorKind::StorageBuffer),
                        stages: 17,
                        count: 1,
                    },
                ),
            );
        }
    }
}

proof fn lemma_textures_scalar(
    context: DrawContext,
    reflection: Reflection,
    offset: u32,
    slots: Seq<ObjectSlot>,
    n: int,
    layout: Seq<BindingSig>,
)
    requires
        scalar_layout(layout),
    ensures
        with_textures(context, reflection, offset, slots, n, layout) matches Ok(next)
            ==> scalar_layout(next),
    decreases slots.len() - n,
{
    if 0 <= n < slots.len() {
        match texture_entry(context, reflection, offset, slots[n]) {
            Err(_) => {},
            Ok(None) => {
                lemma_textures_scalar(context, reflection, offset, slots, n + 1, layout);
            },
            Ok(Some(entry)) => {
                lemma_textures_scalar(
                    context,
                    reflection,
                    offset,
                    slots,
                    n + 1,
                    layout.push(entry),
                );
            },
        }
    }
}

proof fn lemma_stage_scalar(context: DrawContext, fragment: bool, layout: Seq<BindingSig>)
    requires
        scalar_layout(layout),
    ensures
        with_stage(context, fragment, layout) matches Ok(next) ==> scalar_layout(next),
{
    let stage = if fragment {
        context.bindings.fragment
    } else {
        context.bindings.vertex
    };
    let reflection = if fragment {
        context.resolved.fragment
    } else {
        context.resolved.vertex
    };
    let buffer_offset = if fragment && context.inputs.buf_collide {
        FRAG_BUFFER_BINDING_OFFSET
    } else {
        0
    };
    let offset = if fragment && context.inputs.separate {
        FRAG_SAMPLED_RESOURCE_BINDING_OFFSET
    } else {
        0
    };
    lemma_buffers_scalar(stage.buffers@, 0, buffer_offset, layout);
    if let Ok(next) = with_buffers(stage.buffers@, 0, buffer_offset, layout) {
        lemma_textures_scalar(context, reflection, offset, stage.textures@, 0, next);
    }
}

proof fn lemma_inputs_scalar(
    reflected: Seq<ReflectedBinding>,
    n: int,
    targets: nat,
    mask: u8,
    layout: Seq<BindingSig>,
)
    requires
        scalar_layout(layout),
    ensures
        with_inputs(reflected, n, targets, mask, layout) matches Ok((m, next)) ==> scalar_layout(
            next,
        ),
    decreases reflected.len() - n,
{
    if 0 <= n < reflected.len() {
        let slot = reflected[n].metal_index;
        if reflected[n].kind != ResourceKind::ColorInput {
            lemma_inputs_scalar(reflected, n + 1, targets, mask, layout);
        } else if slot < 8 && slot < targets {
            lemma_inputs_scalar(
                reflected,
                n + 1,
                targets,
                mask | (1u8 << (slot as u8)),
                layout.push(
                    BindingSig {
                        binding: (COLOR_INPUT_BINDING + slot) as u32,
                        ty: descriptor_number(DescriptorKind::InputAttachment),
                        stages: 16,
                        count: 1,
                    },
                ),
            );
        }
    }
}

/// Whatever a draw is prepared with, every descriptor of its layout is single,
/// framebuffer reads belong to the fragment stage and all others to both, it
/// renders to between one and eight contiguous slots, and it has one viewport.
pub proof fn law_prepared_layout_is_scalar(context: DrawContext, viewport_count: u32)
    ensures
        prepared(context, viewport_count) matches Ok(p) ==> {
            &&& scalar_layout(p.layout)
            &&& 1 <= p.targets.len() <= 8
            &&& contiguous(p.targets)
            &&& viewport_count == 1
        },
{
    lemma_stage_scalar(context, false, Seq::empty());
    if let Ok(vertex) = with_stage(context, false, Seq::empty()) {
        lemma_stage_scalar(context, true, vertex);
    }
    if let (Ok(layout), Ok(targets)) = (bound_layout(context), pass_targets(context)) {
        assert(scalar_layout(layout));
        lemma_inputs_scalar(
            context.resolved.fragment.bindings@,
            0,
            targets.len(),
            0,
            layout,
        );
    }
}

/// A bound buffer's stride overrides the attribute's own: bound with stride zero
/// an attribute is not fetched, bound with any other stride it is.
pub proof fn law_a_bound_stride_decides(a: VertexAttribute, slots: Seq<BufferSlot>, stride: u64)
    requires
        a.format != 0,
        bound_stride(slots, a.buffer_index) == Some(stride),
    ensures
        active_attribute(a, slots) == (stride != 0),
{
}

/// The facts of a format are the first ones recorded for exactly that format, and
/// an unrecorded format has none.
pub proof fn law_a_format_has_its_first_fact(formats: Seq<FormatFact>, format: u16, k: int)
    ensures
        0 <= k < formats.len() && formats[k].format == format && (forall|j: int|
            0 <= j < k ==> !((#[trigger] formats[j]).format == format)) ==> fact_of(formats, format) == Some(formats[k]),
        (forall|j: int| 0 <= j < formats.len() ==> !((#[trigger] formats[j]).format == format)) ==> fact_of(
            formats,
            format,
        ) is None,
    decreases formats.len(),
{
    if formats.len() > 0 {
        let rest = formats.skip(1);
        assert forall|j: int| 0 <= j < rest.len() implies #[trigger] rest[j] == formats[j + 1] by {}
        law_a_format_has_its_first_fact(rest, format, k - 1);
        if 0 < k < formats.len() {
            assert(rest[k - 1] == formats[k]);
        }
    }
}

/// The stride of a buffer index is that of the first slot of exactly that index
/// that holds a buffer, and there is none without such a slot.
pub proof fn law_a_stride_is_that_of_the_bound_buffer(slots: Seq<BufferSlot>, index: u32, k: int)
    ensures
        0 <= k < slots.len() && slots[k].index == index && slots[k].buffer is Some && (forall|j: int|
            0 <= j < k ==> !((#[trigger] slots[j]).index == index && slots[j].buffer is Some)) ==> bound_stride(slots, index) == slots[k].stride,
        (forall|j: int| 0 <= j < slots.len() ==> !((#[trigger] slots[j]).index == index && slots[j].buffer is Some)) ==> bound_stride(
            slots,
            index,
        ) is None,
    decreases slots.len(),
{
    if slots.len() > 0 {
        let rest = slots.skip(1);
        assert forall|j: int| 0 <= j < rest.len() implies #[trigger] rest[j] == slots[j + 1] by {}
        law_a_stride_is_that_of_the_bound_buffer(rest, index, k - 1);
        if 0 < k < slots.len() {
            assert(rest[k - 1] == slots[k]);
        }
    }
}

/// The state of a colour slot is the first one given for exactly that slot, and a
/// slot without one has none.
pub proof fn law_a_slot_has_its_first_state(states: Seq<ColorState>, slot: u32, k: int)
    ensures
        0 <= k < states.len() && states[k].slot == slot && (forall|j: int|
            0 <= j < k ==> !((#[trigger] states[j]).slot == slot)) ==> color_state_of(states, slot) == Some(states[k]),
        (forall|j: int| 0 <= j < states.len() ==> !((#[trigger] states[j]).slot == slot)) ==> color_state_of(
            states,
            slot,
        ) is None,
    decreases states.len(),
{
    if states.len() > 0 {
        let rest = states.skip(1);
        assert forall|j: int| 0 <= j < rest.len() implies #[trigger] rest[j] == states[j + 1] by {}
        law_a_slot_has_its_first_state(rest, slot, k - 1);
        if 0 < k < states.len() {
            assert(rest[k - 1] == states[k]);
        }
    }
}

/// The state at `i` is the first a pipeline gives the slot.
pub open spec fn first_state(states: Seq<ColorState>, slot: int, i: int) -> bool {
    &&& 0 <= i < states.len()
    &&& states[i].slot == slot
    &&& forall|j: int| 0 <= j < i ==> (#[trigger] states[j]).slot != slot
}

/// The pipeline gives the slot no state.
pub open spec fn no_state(states: Seq<ColorState>, slot: int) -> bool {
    forall|j: int| 0 <= j < states.len() ==> (#[trigger] states[j]).slot != slot
}

/// Every colour slot of a draw blends as the pipeline says: slot zero by its own
/// state, each further target by the first state given for exactly its slot, and
/// a slot without a state or behind the last target not at all.
pub open spec fn blends_as_stated(
    resolved: ResolvedPipeline,
    targets: nat,
    first: Option<BlendKey>,
    secondary: Seq<Option<BlendKey>>,
) -> bool {
    &&& secondary.len() == 7
    &&& first is Some <==> resolved.color0.blending_enabled
    &&& first matches Some(key) ==> key == resolved.color0.blend
    &&& forall|slot: int, i: int|
        1 <= slot <= 7 && slot < targets && #[trigger] first_state(
            resolved.color_attachments@,
            slot,
            i,
        ) ==> {
            let state = resolved.color_attachments@[i];
            &&& secondary[slot - 1] is Some <==> state.blending_enabled
            &&& secondary[slot - 1] matches Some(key) ==> key == state.blend
        }
    &&& forall|slot: int|
        1 <= slot <= 7 && (slot >= targets || #[trigger] no_state(
            resolved.color_attachments@,
            slot,
        )) ==> secondary[slot - 1] is None
}

/// Every colour slot of a draw is written as the pipeline says: slot zero by its
/// own mask, each further target by the mask of the first state given for exactly
/// its slot, and any other slot in all four channels.
pub open spec fn masks_as_stated(
    resolved: ResolvedPipeline,
    targets: nat,
    masks: Seq<u32>,
) -> bool {
    &&& masks.len() == 8
    &&& masks[0] == resolved.color0.write_mask
    &&& forall|slot: int, i: int|
        1 <= slot <= 7 && slot < targets && #[trigger] first_state(
            resolved.color_attachments@,
            slot,
            i,
        ) ==> masks[slot] == resolved.color_attachments@[i].write_mask
    &&& forall|slot: int|
        1 <= slot <= 7 && (slot >= targets || #[trigger] no_state(
            resolved.color_attachments@,
            slot,
        )) ==> masks[slot] == 15
}

/// The blend states and write masks of a draw are the ones its pipeline states
/// for each slot.
pub proof fn law_slots_blend_and_write_as_stated(resolved: ResolvedPipeline, targets: nat)
    ensures
        blends_as_stated(
            resolved,
            targets,
            blend_of(resolved.color0),
            secondary_blends(resolved, targets),
        ),
        masks_as_stated(resolved, targets, write_masks(resolved, targets)),
{
    let states = resolved.color_attachments@;
    let secondary = secondary_blends(resolved, targets);
    let masks = write_masks(resolved, targets);
    assert forall|slot: int, i: int|
        1 <= slot <= 7 && slot < targets && #[trigger] first_state(states, slot, i) implies {
        &&& secondary[slot - 1] is Some <==> states[i].blending_enabled
        &&& secondary[slot - 1] matches Some(key) ==> key == states[i].blend
        &&& masks[slot] == states[i].write_mask
    } by {
        law_a_slot_has_its_first_state(states, slot as u32, i);
    }
    assert forall|slot: int|
        1 <= slot <= 7 && (slot >= targets || #[trigger] no_state(
            states,
            slot,
        )) implies secondary[slot - 1] is None && masks[slot] == 15 by {
        if no_state(states, slot) {
            law_a_slot_has_its_first_state(states, slot as u32, 0);
        }
    }
}

/// The draw renders to the slot as the pass states it: a whole texture without a
/// resolve, in the Vulkan format that its pixel format is attached as.
pub open spec fn renders_to(context: DrawContext, slot: int, native: i32) -> bool {
    let color = context.pass.color@[slot];
    &&& color.texture is Some
    &&& color.resolve_texture is None
    &&& color.slice == 0
    &&& color.depth_plane == 0
    &&& exists|i: int|
        0 <= i < context.formats@.len() && format_attached(
            context,
            #[trigger] context.formats@[i],
            i,
            (color.texture->0).slot,
            native,
        )
}

/// The format recorded at `i` is the first of the texture's, and is attached as
/// the Vulkan format.
pub open spec fn format_attached(
    context: DrawContext,
    fact: FormatFact,
    i: int,
    reference: u32,
    native: i32,
) -> bool {
    &&& format_of(*context.objects, reference, 0) matches Ok((format, memoryless)) && fact.format
        == format && (if memoryless {
        fact.memoryless_attachment == Some(native)
    } else {
        fact.attachment == Some(native)
    })
    &&& forall|j: int|
        0 <= j < i ==> (#[trigger] context.formats@[j]).format != fact.format
}

proof fn lemma_fact_found(formats: Seq<FormatFact>, format: u16)
    ensures
        fact_of(formats, format) matches Some(fact) ==> exists|i: int|
            0 <= i < formats.len() && #[trigger] formats[i] == fact && fact.format == format
                && forall|j: int| 0 <= j < i ==> (#[trigger] formats[j]).format != format,
    decreases formats.len(),
{
    if formats.len() > 0 {
        if formats[0].format == format {
            assert(formats[0] == formats[0]);
        } else {
            let rest = formats.skip(1);
            lemma_fact_found(rest, format);
            if let Some(fact) = fact_of(formats, format) {
                let i = choose|i: int|
                    0 <= i < rest.len() && #[trigger] rest[i] == fact && fact.format == format
                        && forall|j: int| 0 <= j < i ==> (#[trigger] rest[j]).format != format;
                assert(formats[i + 1] == rest[i]);
                assert forall|j: int| 0 <= j < i + 1 implies (#[trigger] formats[j]).format
                    != format by {
                    if j > 0 {
                        assert(rest[j - 1].format != format);
                    }
                }
            }
        }
    }
}

/// The slot is among the targets.
spec fn slot_listed(targets: Seq<(u32, i32)>, slot: int) -> bool {
    exists|k: int| 0 <= k < targets.len() && (#[trigger] targets[k]).0 == slot
}

proof fn lemma_targets_occupied(context: DrawContext, n: int, targets: Seq<(u32, i32)>)
    requires
        0 <= n <= context.pass.color@.len() <= u32::MAX,
        forall|k: int|
            0 <= k < targets.len() ==> (#[trigger] targets[k]).0 < n && renders_to(
                context,
                targets[k].0 as int,
                targets[k].1,
            ),
        forall|slot: int|
            0 <= slot < n && (#[trigger] context.pass.color@[slot]).texture is Some
                ==> slot_listed(targets, slot),
    ensures
        with_targets(
            *context.objects,
            context.formats@,
            context.pass.color@,
            n,
            targets,
        ) matches Ok(all) ==> {
            &&& forall|k: int|
                0 <= k < all.len() ==> (#[trigger] all[k]).0 < context.pass.color@.len()
                    && renders_to(context, all[k].0 as int, all[k].1)
            &&& forall|slot: int|
                0 <= slot < context.pass.color@.len() && (
                #[trigger] context.pass.color@[slot]).texture is Some ==> slot_listed(all, slot)
        },
    decreases context.pass.color@.len() - n,
{
    let colors = context.pass.color@;
    if n < colors.len() {
        match colors[n].texture {
            None => {
                lemma_targets_occupied(context, n + 1, targets);
            },
            Some(reference) => {
                if let Ok((format, memoryless)) = format_of(*context.objects, reference.slot, 0) {
                    if let Some(native) = attachment_format(
                        context.formats@,
                        format,
                        memoryless,
                    ) {
                        if colors[n].resolve_texture is None && colors[n].slice == 0
                            && colors[n].depth_plane == 0 {
                            lemma_fact_found(context.formats@, format);
                            let fact = fact_of(context.formats@, format)->0;
                            let i = choose|i: int|
                                0 <= i < context.formats@.len() && #[trigger] context.formats@[i]
                                    == fact && fact.format == format && forall|j: int|
                                    0 <= j < i ==> (#[trigger] context.formats@[j]).format
                                        != format;
                            assert(format_attached(
                                context,
                                context.formats@[i],
                                i,
                                reference.slot,
                                native,
                            ));
                            let next = targets.push((n as u32, native));
                            assert(renders_to(context, n, native));
                            assert forall|slot: int|
                                0 <= slot < n + 1 && (#[trigger] colors[slot]).texture
                                    is Some implies slot_listed(next, slot) by {
                                if slot < n {
                                    let k = choose|k: int|
                                        0 <= k < targets.len() && (#[trigger] targets[k]).0
                                            == slot;
                                    assert(next[k] == targets[k]);
                                } else {
                                    assert(next[targets.len() as int].0 == slot);
                                }
                            }
                            lemma_targets_occupied(context, n + 1, next);
                        }
                    }
                }
            },
        }
    }
}

/// A prepared draw renders to exactly the slots of the pass that hold a texture:
/// the first few, each a whole texture without a resolve and in its own format.
pub proof fn law_a_draw_renders_to_the_occupied_slots(
    context: DrawContext,
    viewport_count: u32,
    slot: int,
)
    requires
        context.pass.color@.len() <= u32::MAX,
        prepared(context, viewport_count) is Ok,
        0 <= slot < context.pass.color@.len(),
    ensures
        ({
            let targets = prepared(context, viewport_count)->Ok_0.targets;
            &&& context.pass.color@[slot].texture is Some <==> slot < targets.len()
            &&& slot < targets.len() ==> renders_to(context, slot, targets[slot].1)
        }),
{
    lemma_targets_occupied(context, 0, Seq::empty());
    let targets = prepared(context, viewport_count)->Ok_0.targets;
    assert(contiguous(targets));
    if slot < targets.len() {
        assert(targets[slot].0 == slot);
        assert(renders_to(context, slot, targets[slot].1));
    }
    if context.pass.color@[slot].texture is Some {
        assert(slot_listed(targets, slot));
        let k = choose|k: int| 0 <= k < targets.len() && (#[trigger] targets[k]).0 == slot;
        assert(targets[k].0 == k);
    }
}

/// The fragment shader reads the slot back.
pub open spec fn reads_back(reflected: Seq<ReflectedBinding>, slot: int, before: int) -> bool {
    exists|i: int|
        0 <= i < before && i < reflected.len() && (#[trigger] reflected[i]).kind
            == ResourceKind::ColorInput && reflected[i].metal_index == slot
}

proof fn lemma_mask_bit(mask: u8, slot: u8, other: u8)
    requires
        slot < 8,
        other < 8,
    ensures
        ((mask | (1u8 << slot)) >> other) & 1 == 1 <==> (slot == other || (mask >> other) & 1 == 1),
{
    assert(((mask | (1u8 << slot)) >> other) & 1 == 1 <==> (slot == other || (mask >> other) & 1
        == 1)) by (bit_vector)
        requires
            slot < 8,
            other < 8,
    ;
}

proof fn lemma_inputs_read_back(
    reflected: Seq<ReflectedBinding>,
    n: int,
    targets: nat,
    mask: u8,
    layout: Seq<BindingSig>,
    slot: u8,
)
    requires
        0 <= n <= reflected.len(),
        slot < 8,
        (mask >> slot) & 1 == 1 <==> reads_back(reflected, slot as int, n),
        forall|i: int|
            0 <= i < n && (#[trigger] reflected[i]).kind == ResourceKind::ColorInput
                ==> reflected[i].metal_index < targets && reflected[i].metal_index < 8,
    ensures
        match with_inputs(reflected, n, targets, mask, layout) {
            Ok((all, entries)) => {
                &&& (all >> slot) & 1 == 1 <==> reads_back(
                    reflected,
                    slot as int,
                    reflected.len() as int,
                )
                &&& layout.is_prefix_of(entries)
                &&& forall|i: int|
                    0 <= i < reflected.len() && (#[trigger] reflected[i]).kind
                        == ResourceKind::ColorInput ==> reflected[i].metal_index < targets
                        && reflected[i].metal_index < 8
            },
            Err(reason) => reason == PreflightReason::InputAttachment && exists|i: int|
                0 <= i < reflected.len() && (#[trigger] reflected[i]).kind
                    == ResourceKind::ColorInput && (reflected[i].metal_index >= targets
                    || reflected[i].metal_index >= 8),
        },
    decreases reflected.len() - n,
{
    if n < reflected.len() {
        let entry = reflected[n];
        if entry.kind != ResourceKind::ColorInput {
            assert(reads_back(reflected, slot as int, n + 1) ==> reads_back(
                reflected,
                slot as int,
                n,
            ));
            lemma_inputs_read_back(reflected, n + 1, targets, mask, layout, slot);
        } else if entry.metal_index < 8 && entry.metal_index < targets {
            let at = entry.metal_index as u8;
            lemma_mask_bit(mask, at, slot);
            let next = layout.push(
                BindingSig {
                    binding: (COLOR_INPUT_BINDING + entry.metal_index) as u32,
                    ty: descriptor_number(DescriptorKind::InputAttachment),
                    stages: 16,
                    count: 1,
                },
            );
            if reads_back(reflected, slot as int, n + 1) && at != slot {
                let i = choose|i: int|
                    0 <= i < n + 1 && i < reflected.len() && (#[trigger] reflected[i]).kind
                        == ResourceKind::ColorInput && reflected[i].metal_index == slot;
                assert(i < n);
            }
            if reads_back(reflected, slot as int, n) {
                let i = choose|i: int|
                    0 <= i < n && i < reflected.len() && (#[trigger] reflected[i]).kind
                        == ResourceKind::ColorInput && reflected[i].metal_index == slot;
                assert(i < n + 1);
            }
            if at == slot {
                assert(reflected[n].kind == ResourceKind::ColorInput);
            }
            lemma_inputs_read_back(
                reflected,
                n + 1,
                targets,
                mask | (1u8 << (entry.metal_index as u8)),
                next,
                slot,
            );
            assert(layout.is_prefix_of(next));
        } else {
            assert(reflected[n].kind == ResourceKind::ColorInput);
        }
    }
}

/// The read-back mask of a prepared draw has the bit of a slot set exactly when
/// the fragment shader reads that slot back, and every slot it reads back is one
/// the draw renders to.
pub proof fn law_read_back_slots_are_targets(
    context: DrawContext,
    viewport_count: u32,
    slot: u8,
)
    requires
        prepared(context, viewport_count) is Ok,
        slot < 8,
    ensures
        ({
            let p = prepared(context, viewport_count)->Ok_0;
            let reflected = context.resolved.fragment.bindings@;
            &&& (p.color_input >> slot) & 1 == 1 <==> reads_back(
                reflected,
                slot as int,
                reflected.len() as int,
            )
            &&& (p.color_input >> slot) & 1 == 1 ==> slot < p.targets.len()
        }),
{
    let reflected = context.resolved.fragment.bindings@;
    let layout = bound_layout(context)->Ok_0;
    let targets = pass_targets(context)->Ok_0;
    assert((0u8 >> slot) & 1 == 0) by (bit_vector);
    lemma_inputs_read_back(reflected, 0, targets.len(), 0, layout, slot);
}

/// The layout has an entry of the binding and kind, for the stages.
pub open spec fn has_entry(layout: Seq<BindingSig>, binding: int, ty: u32, stages: u32) -> bool {
    exists|k: int|
        0 <= k < layout.len() && (#[trigger] layout[k]).binding == binding && layout[k].ty == ty
            && layout[k].stages == stages && layout[k].count == 1
}

proof fn lemma_entry_stays(
    before: Seq<BindingSig>,
    after: Seq<BindingSig>,
    binding: int,
    ty: u32,
    stages: u32,
)
    requires
        before.is_prefix_of(after),
        has_entry(before, binding, ty, stages),
    ensures
        has_entry(after, binding, ty, stages),
{
    let k = choose|k: int|
        0 <= k < before.len() && (#[trigger] before[k]).binding == binding && before[k].ty == ty
            && before[k].stages == stages && before[k].count == 1;
    assert(after[k] == before[k]);
}

proof fn lemma_buffers_listed(
    slots: Seq<BufferSlot>,
    n: int,
    offset: u32,
    layout: Seq<BindingSig>,
    at: int,
)
    requires
        0 <= n <= slots.len(),
    ensures
        with_buffers(slots, n, offset, layout) matches Ok(all) ==> layout.is_prefix_of(all) && (n
            <= at < slots.len() && slots[at].buffer is Some ==> has_entry(
            all,
            slots[at].index + offset,
            7,
            17,
        )),
    decreases slots.len() - n,
{
    if n < slots.len() {
        if slots[n].buffer is None {
            lemma_buffers_listed(slots, n + 1, offset, layout, at);
        } else if slots[n].index + offset <= u32::MAX {
            let entry = BindingSig {
                binding: (slots[n].index + offset) as u32,
                ty: descriptor_number(DescriptorKind::StorageBuffer),
                stages: 17,
                count: 1,
            };
            let next = layout.push(entry);
            lemma_buffers_listed(slots, n + 1, offset, next, at);
            assert(next[layout.len() as int] == entry);
            assert(layout.is_prefix_of(next));
            if at == n {
                if let Ok(all) = with_buffers(slots, n, offset, layout) {
                    assert(has_entry(next, slots[at].index + offset, 7, 17));
                    lemma_entry_stays(next, all, slots[at].index + offset, 7, 17);
                }
            }
        }
    }
}

proof fn lemma_textures_listed(
    context: DrawContext,
    reflection: Reflection,
    offset: u32,
    slots: Seq<ObjectSlot>,
    n: int,
    layout: Seq<BindingSig>,
    at: int,
)
    requires
        0 <= n <= slots.len(),
    ensures
        with_textures(context, reflection, offset, slots, n, layout) matches Ok(all)
            ==> layout.is_prefix_of(all) && (n <= at < slots.len() ==> match texture_entry(
            context,
            reflection,
            offset,
            slots[at],
        ) {
            Ok(Some(entry)) => has_entry(all, entry.binding as int, entry.ty, entry.stages)
                && entry.count == 1,
            Ok(None) => true,
            Err(_) => false,
        }),
    decreases slots.len() - n,
{
    if n < slots.len() {
        match texture_entry(context, reflection, offset, slots[n]) {
            Err(_) => {},
            Ok(None) => {
                lemma_textures_listed(context, reflection, offset, slots, n + 1, layout, at);
            },
            Ok(Some(entry)) => {
                let next = layout.push(entry);
                lemma_textures_listed(context, reflection, offset, slots, n + 1, next, at);
                assert(next[layout.len() as int] == entry);
                assert(layout.is_prefix_of(next));
                if at == n {
                    if let Ok(all) = with_textures(context, reflection, offset, slots, n, layout) {
                        assert(has_entry(next, entry.binding as int, entry.ty, entry.stages));
                        lemma_entry_stays(
                            next,
                            all,
                            entry.binding as int,
                            entry.ty,
                            entry.stages,
                        );
                    }
                }
            },
        }
    }
}

proof fn lemma_stage_listed(
    context: DrawContext,
    fragment: bool,
    layout: Seq<BindingSig>,
    buffer: int,
    texture: int,
)
    ensures
        with_stage(context, fragment, layout) matches Ok(all) ==> {
            let stage = if fragment {
                context.bindings.fragment
            } else {
                context.bindings.vertex
            };
            let reflection = if fragment {
                context.resolved.fragment
            } else {
                context.resolved.vertex
            };
            let moved: int = if fragment && context.inputs.buf_collide {
                672
            } else {
                0
            };
            let offset: u32 = if fragment && context.inputs.separate {
                672
            } else {
                0
            };
            &&& layout.is_prefix_of(all)
            &&& 0 <= buffer < stage.buffers@.len() && stage.buffers@[buffer].buffer is Some
                ==> has_entry(all, stage.buffers@[buffer].index + moved, 7, 17)
            &&& 0 <= texture < stage.textures@.len() ==> match texture_entry(
                context,
                reflection,
                offset,
                stage.textures@[texture],
            ) {
                Ok(Some(entry)) => has_entry(all, entry.binding as int, entry.ty, entry.stages)
                    && entry.count == 1,
                Ok(None) => true,
                Err(_) => false,
            }
        },
{
    let stage = if fragment {
        context.bindings.fragment
    } else {
        context.bindings.vertex
    };
    let reflection = if fragment {
        context.resolved.fragment
    } else {
        context.resolved.vertex
    };
    let moved = if fragment && context.inputs.buf_collide {
        FRAG_BUFFER_BINDING_OFFSET
    } else {
        0
    };
    let offset = if fragment && context.inputs.separate {
        FRAG_SAMPLED_RESOURCE_BINDING_OFFSET
    } else {
        0
    };
    lemma_buffers_listed(stage.buffers@, 0, moved, layout, buffer);
    if let Ok(next) = with_buffers(stage.buffers@, 0, moved, layout) {
        lemma_textures_listed(context, reflection, offset, stage.textures@, 0, next, texture);
        if let Ok(all) = with_stage(context, fragment, layout) {
            assert(next.is_prefix_of(all));
            assert forall|k: int| 0 <= k < layout.len() implies layout[k] == #[trigger] all[k] by {
                assert(next[k] == layout[k]);
            }
            assert(layout.is_prefix_of(all));
            if 0 <= buffer < stage.buffers@.len() && stage.buffers@[buffer].buffer is Some {
                lemma_entry_stays(next, all, stage.buffers@[buffer].index + moved, 7, 17);
            }
        }
    }
}

/// Where a texture index of a stage is bound: at the binding its shader declares
/// for exactly that index, or at the one its index stands for.
pub open spec fn bound_at(reflection: Reflection, index: u32, offset: int, binding: int) -> bool {
    &&& forall|i: int|
        0 <= i < reflection.textures@.len() && (#[trigger] reflection.textures@[i]).index == index
            && (forall|j: int|
            0 <= j < i ==> (#[trigger] reflection.textures@[j]).index != index) ==> binding
            == reflection.textures@[i].binding + offset
    &&& (forall|i: int|
        0 <= i < reflection.textures@.len() ==> (#[trigger] reflection.textures@[i]).index
            != index) ==> binding == 32 + index + offset
}

/// What a prepared draw holds of one bound texture: neither shader can read it,
/// or it is a guest-backed texture of a format this rail samples that no colour
/// slot attaches, neither itself nor through its allocation.
pub open spec fn sampled_apart(
    context: DrawContext,
    texture: ResourceId,
    binding: int,
) -> bool {
    ||| context.inputs.sources.0.declared is Some && context.inputs.sources.1.declared is Some && (
    forall|k: int|
        0 <= k < context.inputs.sources.0.declared->0@.len() ==> #[trigger]
        context.inputs.sources.0.declared->0@[k] != binding) && (forall|k: int|
        0 <= k < context.inputs.sources.1.declared->0@.len() ==> #[trigger]
        context.inputs.sources.1.declared->0@[k] != binding)
    ||| {
        &&& format_of(*context.objects, texture.slot, 0) matches Ok((format, memoryless))
            && !memoryless && (fact_of(context.formats@, format) matches Some(fact)
            && fact.native_layout)
        &&& backing_of(*context.objects, texture.slot, 0) matches Ok(Some(source)) && forall|k: int|
            0 <= k < context.pass.color@.len() && (#[trigger] context.pass.color@[k]).texture
                is Some ==> context.pass.color@[k].texture != Some(texture) && (backing_of(
                *context.objects,
                (context.pass.color@[k].texture->0).slot,
                0,
            ) matches Ok(target) && target != Some(source))
    }
}

/// The layout lists a sampled image at the binding, or neither shader can read it.
pub open spec fn listed_or_unread(
    context: DrawContext,
    layout: Seq<BindingSig>,
    binding: int,
) -> bool {
    has_entry(layout, binding, 2, 17) || (context.inputs.sources.0.lacks(binding as u32)
        && context.inputs.sources.1.lacks(binding as u32))
}

/// The texture at an index is bound where its shader declares it, apart from what
/// the draw renders to, and listed unless neither shader can read it.
pub open spec fn texture_served(
    context: DrawContext,
    layout: Seq<BindingSig>,
    reflection: Reflection,
    index: u32,
    offset: int,
    texture: ResourceId,
) -> bool {
    exists|binding: int| #[trigger]
        bound_at(reflection, index, offset, binding) && sampled_apart(context, texture, binding)
            && listed_or_unread(context, layout, binding)
}

proof fn lemma_no_feedback(objects: Objects, colors: Seq<PassColor>, n: int, source: u64)
    requires
        0 <= n <= colors.len(),
    ensures
        feedback_refusal(objects, colors, n, source) is None ==> forall|k: int|
            n <= k < colors.len() && (#[trigger] colors[k]).texture is Some ==> (backing_of(
                objects,
                (colors[k].texture->0).slot,
                0,
            ) matches Ok(target) && target != Some(source)),
    decreases colors.len() - n,
{
    if n < colors.len() {
        lemma_no_feedback(objects, colors, n + 1, source);
    }
}

proof fn lemma_texture_entry(
    context: DrawContext,
    reflection: Reflection,
    offset: u32,
    slot: ObjectSlot,
)
    ensures
        texture_entry(context, reflection, offset, slot) matches Ok(entry) ==> {
            let binding = texture_binding(
                descriptor_of(reflection.textures@, slot.index),
                slot.index,
                offset,
            );
            &&& bound_at(reflection, slot.index, offset as int, binding)
            &&& slot.object is None ==> entry is None
            &&& slot.object is Some ==> sampled_apart(context, slot.object->0, binding)
            &&& entry matches Some(sig) ==> sig.binding == binding && sig.ty == 2 && sig.stages
                == 17 && sig.count == 1
            &&& slot.object is Some && entry is None ==> context.inputs.sources.0.lacks(
                binding as u32,
            ) && context.inputs.sources.1.lacks(binding as u32)
        },
{
    let index = slot.index;
    let binding = texture_binding(descriptor_of(reflection.textures@, index), index, offset);
    assert(bound_at(reflection, index, offset as int, binding)) by {
        assert forall|i: int|
            0 <= i < reflection.textures@.len() && (#[trigger] reflection.textures@[i]).index
                == index && (forall|j: int|
                0 <= j < i ==> (#[trigger] reflection.textures@[j]).index
                    != index) implies binding == reflection.textures@[i].binding + offset by {
            crate::native_pipeline::tables::law_the_first_declared_descriptor_is_used(
                reflection.textures@,
                index,
                i,
            );
        }
        crate::native_pipeline::tables::law_the_first_declared_descriptor_is_used(
            reflection.textures@,
            index,
            0,
        );
    }
    if let Some(texture) = slot.object {
        if let Ok(Some(source)) = backing_of(*context.objects, texture.slot, 0) {
            lemma_no_feedback(*context.objects, context.pass.color@, 0, source);
        }
        if context.inputs.sources.0.lacks(binding as u32) && context.inputs.sources.1.lacks(
            binding as u32,
        ) && binding <= u32::MAX {
            let one = context.inputs.sources.0.declared->0@;
            let other = context.inputs.sources.1.declared->0@;
            assert forall|k: int| 0 <= k < one.len() implies #[trigger] one[k] != binding by {
                assert(one.contains(one[k]));
            }
            assert forall|k: int| 0 <= k < other.len() implies #[trigger] other[k] != binding by {
                assert(other.contains(other[k]));
            }
        }
    }
}

/// The layout of a prepared draw lists every buffer either stage binds, at its
/// index, those of the fragment stage moved where buffers of both stages have one
/// index.
pub proof fn law_every_bound_buffer_is_listed(
    context: DrawContext,
    viewport_count: u32,
    at: int,
)
    requires
        prepared(context, viewport_count) is Ok,
    ensures
        ({
            let layout = prepared(context, viewport_count)->Ok_0.layout;
            let vertex = context.bindings.vertex.buffers@;
            let fragment = context.bindings.fragment.buffers@;
            &&& 0 <= at < vertex.len() && vertex[at].buffer is Some ==> has_entry(
                layout,
                vertex[at].index as int,
                7,
                17,
            )
            &&& 0 <= at < fragment.len() && fragment[at].buffer is Some ==> has_entry(
                layout,
                fragment[at].index + if context.inputs.buf_collide {
                    672int
                } else {
                    0int
                },
                7,
                17,
            )
        }),
{
    lemma_stage_listed(context, false, Seq::empty(), at, 0);
    let first = with_stage(context, false, Seq::empty())->Ok_0;
    lemma_stage_listed(context, true, first, at, 0);
    lemma_layout_kept(context, viewport_count);
    let both = with_stage(context, true, first)->Ok_0;
    let layout = prepared(context, viewport_count)->Ok_0.layout;
    let vertex = context.bindings.vertex.buffers@;
    let fragment = context.bindings.fragment.buffers@;
    if 0 <= at < vertex.len() && vertex[at].buffer is Some {
        lemma_entry_stays(first, both, vertex[at].index as int, 7, 17);
        lemma_entry_stays(both, layout, vertex[at].index as int, 7, 17);
    }
    if 0 <= at < fragment.len() && fragment[at].buffer is Some {
        lemma_entry_stays(
            both,
            layout,
            fragment[at].index + if context.inputs.buf_collide {
                672int
            } else {
                0int
            },
            7,
            17,
        );
    }
}

proof fn lemma_layout_kept(context: DrawContext, viewport_count: u32)
    requires
        prepared(context, viewport_count) is Ok,
    ensures
        ({
            let first = with_stage(context, false, Seq::empty())->Ok_0;
            let both = with_stage(context, true, first)->Ok_0;
            both.is_prefix_of(prepared(context, viewport_count)->Ok_0.layout)
        }),
{
    let first = with_stage(context, false, Seq::empty())->Ok_0;
    let both = with_stage(context, true, first)->Ok_0;
    let layout = bound_layout(context)->Ok_0;
    let targets = pass_targets(context)->Ok_0;
    assert((0u8 >> 0u8) & 1 == 0) by (bit_vector);
    lemma_inputs_read_back(context.resolved.fragment.bindings@, 0, targets.len(), 0, layout, 0);
    let all = prepared(context, viewport_count)->Ok_0.layout;
    assert(layout.is_prefix_of(all));
    assert forall|k: int| 0 <= k < both.len() implies both[k] == #[trigger] all[k] by {
        assert(layout[k] == both[k]);
    }
}

/// A texture bound to a prepared draw is one neither shader can read, or it is
/// listed as a sampled image at its binding and has no byte that the draw renders
/// to: no draw is prepared that samples its own attachment.
pub proof fn law_a_prepared_draw_samples_no_attachment(
    context: DrawContext,
    viewport_count: u32,
    fragment: bool,
    at: int,
    texture: ResourceId,
)
    requires
        prepared(context, viewport_count) is Ok,
        0 <= at < (if fragment {
            context.bindings.fragment
        } else {
            context.bindings.vertex
        }).textures@.len(),
        (if fragment {
            context.bindings.fragment
        } else {
            context.bindings.vertex
        }).textures@[at].object == Some(texture),
    ensures
        ({
            let stage = if fragment {
                context.bindings.fragment
            } else {
                context.bindings.vertex
            };
            let reflection = if fragment {
                context.resolved.fragment
            } else {
                context.resolved.vertex
            };
            let offset: int = if fragment && context.inputs.separate {
                672
            } else {
                0
            };
            let layout = prepared(context, viewport_count)->Ok_0.layout;
            texture_served(context, layout, reflection, stage.textures@[at].index, offset, texture)
        }),
{
    let stage = if fragment {
        context.bindings.fragment
    } else {
        context.bindings.vertex
    };
    let reflection = if fragment {
        context.resolved.fragment
    } else {
        context.resolved.vertex
    };
    let offset: u32 = if fragment && context.inputs.separate {
        672
    } else {
        0
    };
    let first = with_stage(context, false, Seq::empty())->Ok_0;
    let both = with_stage(context, true, first)->Ok_0;
    let layout = prepared(context, viewport_count)->Ok_0.layout;
    lemma_stage_listed(context, false, Seq::empty(), 0, at);
    lemma_stage_listed(context, true, first, 0, at);
    lemma_layout_kept(context, viewport_count);
    lemma_texture_entry(context, reflection, offset, stage.textures@[at]);
    let index = stage.textures@[at].index;
    let binding = texture_binding(descriptor_of(reflection.textures@, index), index, offset);
    assert(bound_at(reflection, index, offset as int, binding));
    if let Ok(Some(entry)) = texture_entry(context, reflection, offset, stage.textures@[at]) {
        if !fragment {
            lemma_entry_stays(first, both, binding, 2, 17);
        }
        lemma_entry_stays(both, layout, binding, 2, 17);
        assert(has_entry(layout, binding, 2, 17));
    }
    assert(texture_served(context, layout, reflection, index, offset as int, texture));
}

proof fn lemma_buffers_resolve(objects: Objects, slots: Seq<BufferSlot>, n: int)
    requires
        0 <= n <= slots.len(),
    ensures
        buffer_refusal(objects, slots, n) is None <==> forall|k: int|
            n <= k < slots.len() && (#[trigger] slots[k]).buffer is Some ==> (buffer_size_of(
                objects.buffers@,
                (slots[k].buffer->0).slot,
            ) matches Some(size) && slots[k].offset < size),
        buffer_refusal(objects, slots, n) matches Some(reason) ==> exists|k: int|
            n <= k < slots.len() && (#[trigger] slots[k]).buffer is Some && match buffer_size_of(
                objects.buffers@,
                (slots[k].buffer->0).slot,
            ) {
                None => reason == PreflightReason::Buffer,
                Some(size) => reason == PreflightReason::BufferExtent && slots[k].offset >= size,
            },
    decreases slots.len() - n,
{
    if n < slots.len() {
        lemma_buffers_resolve(objects, slots, n + 1);
    }
}

/// Every buffer that either stage binds resolves, with its offset inside it.
pub open spec fn buffers_inside(objects: Objects, slots: Seq<BufferSlot>) -> bool {
    forall|k: int|
        0 <= k < slots.len() && (#[trigger] slots[k]).buffer is Some ==> (buffer_size_of(
            objects.buffers@,
            (slots[k].buffer->0).slot,
        ) matches Some(size) && slots[k].offset < size)
}

/// A vertex attribute is fetched.
pub open spec fn fetched(a: VertexAttribute, slots: Seq<BufferSlot>) -> bool {
    &&& a.format != 0
    &&& bound_stride(slots, a.buffer_index) matches Some(stride) ==> stride > 0
    &&& bound_stride(slots, a.buffer_index) is None ==> a.stride > 0
}

/// The bindings of a draw are looked at only where it has one viewport, renders to
/// targets of its own, has no depth or stencil, fetches no vertex attribute,
/// renders one sample, writes no storage image, orders no pixels and finds all its
/// buffers; each of these has its own reason when it fails.
pub proof fn law_a_shape_is_refused_for_what_it_has(context: DrawContext, viewport_count: u32)
    ensures
        shape_refusal(context, viewport_count) is None <==> {
            &&& !context.map_pages_stable
            &&& viewport_count == 1
            &&& context.pass.depth_texture is None
            &&& context.pass.stencil_texture is None
            &&& context.bindings.depth_stencil is None
            &&& forall|k: int|
                0 <= k < context.resolved.vertex_attributes@.len() ==> !fetched(
                    #[trigger] context.resolved.vertex_attributes@[k],
                    context.bindings.vertex.buffers@,
                )
            &&& context.resolved.raster_sample_count <= 1
            &&& !context.resolved.vertex.unsupported
            &&& !context.resolved.fragment.unsupported
            &&& forall|k: int|
                0 <= k < context.resolved.vertex.bindings@.len() ==> (
                #[trigger] context.resolved.vertex.bindings@[k]).kind != ResourceKind::StorageImage
            &&& forall|k: int|
                0 <= k < context.resolved.fragment.bindings@.len() ==> (
                #[trigger] context.resolved.fragment.bindings@[k]).kind
                    != ResourceKind::StorageImage
            &&& !context.inputs.fragment.pixel_interlock
            &&& buffers_inside(*context.objects, context.bindings.vertex.buffers@)
            &&& buffers_inside(*context.objects, context.bindings.fragment.buffers@)
        },
        shape_refusal(context, viewport_count) matches Some(reason) ==> match reason {
            PreflightReason::SharedTargetPlacement => context.map_pages_stable,
            PreflightReason::Multiview => viewport_count != 1,
            PreflightReason::Depth => context.pass.depth_texture is Some
                || context.pass.stencil_texture is Some || context.bindings.depth_stencil is Some,
            PreflightReason::VertexAttributes => exists|k: int|
                0 <= k < context.resolved.vertex_attributes@.len() && fetched(
                    #[trigger] context.resolved.vertex_attributes@[k],
                    context.bindings.vertex.buffers@,
                ),
            PreflightReason::Multisample => context.resolved.raster_sample_count > 1,
            PreflightReason::ResourceInterface => context.resolved.vertex.unsupported
                || context.resolved.fragment.unsupported,
            PreflightReason::CurrentStorageProof => context.resolved.vertex.declares(
                ResourceKind::StorageImage,
            ) || context.resolved.fragment.declares(ResourceKind::StorageImage)
                || context.inputs.fragment.pixel_interlock,
            PreflightReason::Buffer => true,
            PreflightReason::BufferExtent => true,
            _ => false,
        },
{
    lemma_buffers_resolve(*context.objects, context.bindings.vertex.buffers@, 0);
    lemma_buffers_resolve(*context.objects, context.bindings.fragment.buffers@, 0);
    let attributes = context.resolved.vertex_attributes@;
    let slots = context.bindings.vertex.buffers@;
    assert forall|k: int| 0 <= k < attributes.len() implies active_attribute(
        #[trigger] attributes[k],
        slots,
    ) == fetched(attributes[k], slots) by {}
    if any_attribute(attributes, slots) {
        let k = choose|k: int|
            0 <= k < attributes.len() && active_attribute(#[trigger] attributes[k], slots);
        assert(fetched(attributes[k], slots));
    }
}

/// A draw is prepared against what it was asked with.
pub proof fn law_a_context_is_the_request<'a>(
    request: DrawRequest<'a>,
    resolved: &'a ResolvedPipeline,
    inputs: &'a PipelineInputs,
)
    ensures
        ({
            let context = resolved_context(request, resolved, inputs);
            &&& context.objects == request.objects
            &&& context.formats == request.formats
            &&& context.samplers == request.samplers
            &&& context.bindings == request.bindings
            &&& context.pass == request.pass
            &&& context.resolved == resolved
            &&& context.inputs == inputs
            &&& context.map_pages_stable == request.map_pages_stable
        }),
{
}

/// The buffers of a stage are refused exactly when the binding of a bound one does
/// not fit, and for that reason alone.
pub proof fn law_a_buffer_binding_overflows_only_past_the_last(
    slots: Seq<BufferSlot>,
    n: int,
    offset: u32,
    layout: Seq<BindingSig>,
)
    requires
        0 <= n <= slots.len(),
    ensures
        with_buffers(slots, n, offset, layout) is Err <==> exists|k: int|
            n <= k < slots.len() && (#[trigger] slots[k]).buffer is Some && slots[k].index + offset
                >= 0x1_0000_0000,
        with_buffers(slots, n, offset, layout) matches Err(reason) ==> reason
            == PreflightReason::BindingOverflow,
    decreases slots.len() - n,
{
    if n < slots.len() {
        if slots[n].buffer is None {
            law_a_buffer_binding_overflows_only_past_the_last(slots, n + 1, offset, layout);
        } else if slots[n].index + offset <= u32::MAX {
            law_a_buffer_binding_overflows_only_past_the_last(
                slots,
                n + 1,
                offset,
                layout.push(
                    BindingSig {
                        binding: (slots[n].index + offset) as u32,
                        ty: descriptor_number(DescriptorKind::StorageBuffer),
                        stages: 17,
                        count: 1,
                    },
                ),
            );
        } else {
            assert(slots[n].buffer is Some);
        }
    }
}

/// A bound texture is refused for its binding exactly when that does not fit; it is
/// refused for what it is only where one of the shaders can read it. An empty slot
/// is never refused.
pub proof fn law_a_refused_texture_has_its_reason(
    context: DrawContext,
    reflection: Reflection,
    offset: u32,
    slot: ObjectSlot,
)
    ensures
        ({
            let entry = texture_entry(context, reflection, offset, slot);
            let descriptor = descriptor_of(reflection.textures@, slot.index);
            let binding = match descriptor {
                Some(d) => d.binding + offset,
                None => 32 + slot.index + offset,
            };
            &&& slot.object is None ==> entry == Ok::<Option<BindingSig>, PreflightReason>(None)
            &&& entry == Err::<Option<BindingSig>, PreflightReason>(
                PreflightReason::BindingOverflow,
            ) <==> slot.object is Some && binding >= 0x1_0000_0000
            &&& slot.object is Some && binding < 0x1_0000_0000 && (descriptor is None || (
            descriptor->0.descriptor_count == 1 && descriptor->0.access == TextureAccess::Sampled))
                && context.inputs.sources.0.lacks(binding as u32) && context.inputs.sources.1.lacks(
                binding as u32,
            ) ==> entry == Ok::<Option<BindingSig>, PreflightReason>(None)
            &&& entry == Err::<Option<BindingSig>, PreflightReason>(
                PreflightReason::DescriptorArray,
            ) ==> descriptor is Some && descriptor->0.descriptor_count != 1
            &&& entry == Err::<Option<BindingSig>, PreflightReason>(
                PreflightReason::TextureAccess,
            ) ==> descriptor is Some && descriptor->0.descriptor_count == 1
                && descriptor->0.access != TextureAccess::Sampled
            &&& entry == Err::<Option<BindingSig>, PreflightReason>(
                PreflightReason::SampledMemoryless,
            ) ==> (format_of(*context.objects, (slot.object->0).slot, 0) matches Ok(answer)
                && answer.1)
            &&& entry == Err::<Option<BindingSig>, PreflightReason>(
                PreflightReason::SampledBacking,
            ) ==> backing_of(*context.objects, (slot.object->0).slot, 0) == Ok::<
                Option<u64>,
                PreflightReason,
            >(None)
            &&& entry matches Ok(Some(sig)) ==> descriptor is None || (
            descriptor->0.descriptor_count == 1 && descriptor->0.access == TextureAccess::Sampled)
        }),
{
    let texture = slot.object->0;
    lemma_object_reasons(*context.objects, texture.slot, 0);
    if let Ok(Some(source)) = backing_of(*context.objects, texture.slot, 0) {
        lemma_feedback_reasons(*context.objects, context.pass.color@, 0, source);
    }
}

proof fn lemma_object_reasons(objects: Objects, reference: u32, depth: int)
    requires
        depth >= 0,
    ensures
        format_of(objects, reference, depth) matches Err(reason) ==> reason
            == PreflightReason::ViewChain || reason == PreflightReason::TextureOwner || reason
            == PreflightReason::MemorylessDescriptor || reason
            == PreflightReason::MappingUnavailable || reason == PreflightReason::TextureDescriptor,
        backing_of(objects, reference, depth) matches Err(reason) ==> reason
            == PreflightReason::BackingChain || reason == PreflightReason::BackingOwner || reason
            == PreflightReason::BackingUnavailable,
    decreases objects.max_view_chain - depth,
{
    if depth < objects.max_view_chain {
        if let Some(owner) = crate::native_pipeline::objects::owner_of(
            objects.owners@,
            reference,
        ) {
            match owner.record {
                crate::native_pipeline::objects::TextureRecord::View {
                    pixel_format,
                    base_texture_ref,
                } => {
                    lemma_object_reasons(objects, base_texture_ref, depth + 1);
                },
                crate::native_pipeline::objects::TextureRecord::BufferTexture {
                    pixel_format,
                    buffer_ref,
                } => {
                    lemma_object_reasons(objects, buffer_ref, depth + 1);
                },
                _ => {},
            }
        }
    }
}

proof fn lemma_feedback_reasons(objects: Objects, colors: Seq<PassColor>, n: int, source: u64)
    requires
        0 <= n <= colors.len(),
    ensures
        feedback_refusal(objects, colors, n, source) matches Some(reason) ==> reason
            == PreflightReason::AttachmentFeedback || reason == PreflightReason::BackingChain
            || reason == PreflightReason::BackingOwner || reason
            == PreflightReason::BackingUnavailable,
    decreases colors.len() - n,
{
    if n < colors.len() {
        if let Some(target) = colors[n].texture {
            lemma_object_reasons(objects, target.slot, 0);
        }
        lemma_feedback_reasons(objects, colors, n + 1, source);
    }
}

} // verus!
