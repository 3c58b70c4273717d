//! Why a draw stays on the synchronous rail.
use vstd::prelude::*;

verus! {

/// The reasons native preparation declines a draw.
#[derive(Clone, Copy, Debug, PartialEq, Eq, Structural)]
pub enum PreflightReason {
    SharedTargetPlacement,
    Multiview,
    Depth,
    VertexAttributes,
    Multisample,
    ResourceInterface,
    CurrentStorageProof,
    Buffer,
    BufferExtent,
    BindingOverflow,
    AttachmentFeedback,
    SampledMemoryless,
    SampledBacking,
    SampledSpecialization,
    DescriptorArray,
    TextureAccess,
    Sampler,
    StaticSampler,
    UnnormalizedSampler,
    AttachmentSubresource,
    AttachmentFormat,
    NoColor,
    SparseAttachments,
    AttachmentCount,
    InputAttachment,
    ViewChain,
    TextureOwner,
    MemorylessDescriptor,
    MappingUnavailable,
    TextureDescriptor,
    BackingChain,
    BackingOwner,
    BackingUnavailable,
    NoPipeline,
    PipelineUnavailable,
    CachesUnavailable,
    IndirectDraw,
    Topology,
    NoPass,
}

impl PreflightReason {
    /// The name a reason is reported under.
    pub open spec fn slug_text(self) -> Seq<char> {
        match self {
            PreflightReason::SharedTargetPlacement => "native_preflight_shared_target_placement"@,
            PreflightReason::Multiview => "native_preflight_multiview"@,
            PreflightReason::Depth => "native_preflight_depth"@,
            PreflightReason::VertexAttributes => "native_preflight_vertex_attributes"@,
            PreflightReason::Multisample => "native_preflight_multisample"@,
            PreflightReason::ResourceInterface => "native_preflight_resource_interface"@,
            PreflightReason::CurrentStorageProof => "native_preflight_current_storage_proof"@,
            PreflightReason::Buffer => "native_preflight_buffer"@,
            PreflightReason::BufferExtent => "native_preflight_buffer_extent"@,
            PreflightReason::BindingOverflow => "native_preflight_binding_overflow"@,
            PreflightReason::AttachmentFeedback => "native_preflight_attachment_feedback"@,
            PreflightReason::SampledMemoryless => "native_preflight_sampled_memoryless"@,
            PreflightReason::SampledBacking => "native_preflight_sampled_backing"@,
            PreflightReason::SampledSpecialization => "native_preflight_sampled_specialization"@,
            PreflightReason::DescriptorArray => "native_preflight_descriptor_array"@,
            PreflightReason::TextureAccess => "native_preflight_texture_access"@,
            PreflightReason::Sampler => "native_preflight_sampler"@,
            PreflightReason::StaticSampler => "native_preflight_static_sampler"@,
            PreflightReason::UnnormalizedSampler => "native_preflight_unnormalized_sampler"@,
            PreflightReason::AttachmentSubresource => "native_preflight_attachment_subresource"@,
            PreflightReason::AttachmentFormat => "native_preflight_attachment_format"@,
            PreflightReason::NoColor => "native_preflight_no_color"@,
            PreflightReason::SparseAttachments => "native_preflight_sparse_attachments"@,
            PreflightReason::AttachmentCount => "native_preflight_attachment_count"@,
            PreflightReason::InputAttachment => "native_preflight_input_attachment"@,
            PreflightReason::ViewChain => "native_preflight_view_chain"@,
            PreflightReason::TextureOwner => "native_preflight_texture_owner"@,
            PreflightReason::MemorylessDescriptor => "native_preflight_memoryless_descriptor"@,
            PreflightReason::MappingUnavailable => "native_preflight_mapping_unavailable"@,
            PreflightReason::TextureDescriptor => "native_preflight_texture_descriptor"@,
            PreflightReason::BackingChain => "native_preflight_backing_chain"@,
            PreflightReason::BackingOwner => "native_preflight_backing_owner"@,
            PreflightReason::BackingUnavailable => "native_preflight_backing_unavailable"@,
            PreflightReason::NoPipeline => "native_preflight_no_pipeline"@,
            PreflightReason::PipelineUnavailable => "native_preflight_pipeline_unavailable"@,
            PreflightReason::CachesUnavailable => "native_preflight_caches_unavailable"@,
            PreflightReason::IndirectDraw => "native_preflight_indirect_draw"@,
            PreflightReason::Topology => "native_preflight_topology"@,
            PreflightReason::NoPass => "native_preflight_no_pass"@,
        }
    }

    /// The name a reason is reported under.
    pub fn slug(self) -> (text: &'static str)
        ensures
            text@ == self.slug_text(),
    {
        match self {
            PreflightReason::SharedTargetPlacement => "native_preflight_shared_target_placement",
            PreflightReason::Multiview => "native_preflight_multiview",
            PreflightReason::Depth => "native_preflight_depth",
            PreflightReason::VertexAttributes => "native_preflight_vertex_attributes",
            PreflightReason::Multisample => "native_preflight_multisample",
            PreflightReason::ResourceInterface => "native_preflight_resource_interface",
            PreflightReason::CurrentStorageProof => "native_preflight_current_storage_proof",
            PreflightReason::Buffer => "native_preflight_buffer",
            PreflightReason::BufferExtent => "native_preflight_buffer_extent",
            PreflightReason::BindingOverflow => "native_preflight_binding_overflow",
            PreflightReason::AttachmentFeedback => "native_preflight_attachment_feedback",
            PreflightReason::SampledMemoryless => "native_preflight_sampled_memoryless",
            PreflightReason::SampledBacking => "native_preflight_sampled_backing",
            PreflightReason::SampledSpecialization => "native_preflight_sampled_specialization",
            PreflightReason::DescriptorArray => "native_preflight_descriptor_array",
            PreflightReason::TextureAccess => "native_preflight_texture_access",
            PreflightReason::Sampler => "native_preflight_sampler",
            PreflightReason::StaticSampler => "native_preflight_static_sampler",
            PreflightReason::UnnormalizedSampler => "native_preflight_unnormalized_sampler",
            PreflightReason::AttachmentSubresource => "native_preflight_attachment_subresource",
            PreflightReason::AttachmentFormat => "native_preflight_attachment_format",
            PreflightReason::NoColor => "native_preflight_no_color",
            PreflightReason::SparseAttachments => "native_preflight_sparse_attachments",
            PreflightReason::AttachmentCount => "native_preflight_attachment_count",
            PreflightReason::InputAttachment => "native_preflight_input_attachment",
            PreflightReason::ViewChain => "native_preflight_view_chain",
            PreflightReason::TextureOwner => "native_preflight_texture_owner",
            PreflightReason::MemorylessDescriptor => "native_preflight_memoryless_descriptor",
            PreflightReason::MappingUnavailable => "native_preflight_mapping_unavailable",
            PreflightReason::TextureDescriptor => "native_preflight_texture_descriptor",
            PreflightReason::BackingChain => "native_preflight_backing_chain",
            PreflightReason::BackingOwner => "native_preflight_backing_owner",
            PreflightReason::BackingUnavailable => "native_preflight_backing_unavailable",
            PreflightReason::NoPipeline => "native_preflight_no_pipeline",
            PreflightReason::PipelineUnavailable => "native_preflight_pipeline_unavailable",
            PreflightReason::CachesUnavailable => "native_preflight_caches_unavailable",
            PreflightReason::IndirectDraw => "native_preflight_indirect_draw",
            PreflightReason::Topology => "native_preflight_topology",
            PreflightReason::NoPass => "native_preflight_no_pass",
        }
    }
}

/// No two reasons are reported under one name.
pub proof fn law_every_reason_has_a_name_of_its_own(a: PreflightReason, b: PreflightReason)
    ensures
        a.slug_text() == b.slug_text() ==> a == b,
{
    reveal_strlit("native_preflight_shared_target_placement");
    reveal_strlit("native_preflight_multiview");
    reveal_strlit("native_preflight_depth");
    reveal_strlit("native_preflight_vertex_attributes");
    reveal_strlit("native_preflight_multisample");
    reveal_strlit("native_preflight_resource_interface");
    reveal_strlit("native_preflight_current_storage_proof");
    reveal_strlit("native_preflight_buffer");
    reveal_strlit("native_preflight_buffer_extent");
    reveal_strlit("native_preflight_binding_overflow");
    reveal_strlit("native_preflight_attachment_feedback");
    reveal_strlit("native_preflight_sampled_memoryless");
    reveal_strlit("native_preflight_sampled_backing");
    reveal_strlit("native_preflight_sampled_specialization");
    reveal_strlit("native_preflight_descriptor_array");
    reveal_strlit("native_preflight_texture_access");
    reveal_strlit("native_preflight_sampler");
    reveal_strlit("native_preflight_static_sampler");
    reveal_strlit("native_preflight_unnormalized_sampler");
    reveal_strlit("native_preflight_attachment_subresource");
    reveal_strlit("native_preflight_attachment_format");
    reveal_strlit("native_preflight_no_color");
    reveal_strlit("native_preflight_sparse_attachments");
    reveal_strlit("native_preflight_attachment_count");
    reveal_strlit("native_preflight_input_attachment");
    reveal_strlit("native_preflight_view_chain");
    reveal_strlit("native_preflight_texture_owner");
    reveal_strlit("native_preflight_memoryless_descriptor");
    reveal_strlit("native_preflight_mapping_unavailable");
    reveal_strlit("native_preflight_texture_descriptor");
    reveal_strlit("native_preflight_backing_chain");
    reveal_strlit("native_preflight_backing_owner");
    reveal_strlit("native_preflight_backing_unavailable");
    reveal_strlit("native_preflight_no_pipeline");
    reveal_strlit("native_preflight_pipeline_unavailable");
    reveal_strlit("native_preflight_caches_unavailable");
    reveal_strlit("native_preflight_indirect_draw");
    reveal_strlit("native_preflight_topology");
    reveal_strlit("native_preflight_no_pass");
    assert("native_preflight_shared_target_placement"@.len() == 40 && "native_preflight_shared_target_placement"@[20] == 'r' && "native_preflight_shared_target_placement"@[39] == 't');
    assert("native_preflight_multiview"@.len() == 26 && "native_preflight_multiview"@[20] == 't' && "native_preflight_multiview"@[25] == 'w');
    assert("native_preflight_depth"@.len() == 22 && "native_preflight_depth"@[20] == 't' && "native_preflight_depth"@[21] == 'h');
    assert("native_preflight_vertex_attributes"@.len() == 34 && "native_preflight_vertex_attributes"@[20] == 't' && "native_preflight_vertex_attributes"@[33] == 's');
    assert("native_preflight_multisample"@.len() == 28 && "native_preflight_multisample"@[20] == 't' && "native_preflight_multisample"@[27] == 'e');
    assert("native_preflight_resource_interface"@.len() == 35 && "native_preflight_resource_interface"@[20] == 'o' && "native_preflight_resource_interface"@[34] == 'e');
    assert("native_preflight_current_storage_proof"@.len() == 38 && "native_preflight_current_storage_proof"@[20] == 'r' && "native_preflight_current_storage_proof"@[37] == 'f');
    assert("native_preflight_buffer"@.len() == 23 && "native_preflight_buffer"@[20] == 'f' && "native_preflight_buffer"@[22] == 'r');
    assert("native_preflight_buffer_extent"@.len() == 30 && "native_preflight_buffer_extent"@[20] == 'f' && "native_preflight_buffer_extent"@[29] == 't');
    assert("native_preflight_binding_overflow"@.len() == 33 && "native_preflight_binding_overflow"@[20] == 'd' && "native_preflight_binding_overflow"@[32] == 'w');
    assert("native_preflight_attachment_feedback"@.len() == 36 && "native_preflight_attachment_feedback"@[20] == 'a' && "native_preflight_attachment_feedback"@[35] == 'k');
    assert("native_preflight_sampled_memoryless"@.len() == 35 && "native_preflight_sampled_memoryless"@[20] == 'p' && "native_preflight_sampled_memoryless"@[34] == 's');
    assert("native_preflight_sampled_backing"@.len() == 32 && "native_preflight_sampled_backing"@[20] == 'p' && "native_preflight_sampled_backing"@[31] == 'g');
    assert("native_preflight_sampled_specialization"@.len() == 39 && "native_preflight_sampled_specialization"@[20] == 'p' && "native_preflight_sampled_specialization"@[38] == 'n');
    assert("native_preflight_descriptor_array"@.len() == 33 && "native_preflight_descriptor_array"@[20] == 'c' && "native_preflight_descriptor_array"@[32] == 'y');
    assert("native_preflight_texture_access"@.len() == 31 && "native_preflight_texture_access"@[20] == 't' && "native_preflight_texture_access"@[30] == 's');
    assert("native_preflight_sampler"@.len() == 24 && "native_preflight_sampler"@[20] == 'p' && "native_preflight_sampler"@[23] == 'r');
    assert("native_preflight_static_sampler"@.len() == 31 && "native_preflight_static_sampler"@[20] == 't' && "native_preflight_static_sampler"@[30] == 'r');
    assert("native_preflight_unnormalized_sampler"@.len() == 37 && "native_preflight_unnormalized_sampler"@[20] == 'o' && "native_preflight_unnormalized_sampler"@[36] == 'r');
    assert("native_preflight_attachment_subresource"@.len() == 39 && "native_preflight_attachment_subresource"@[20] == 'a' && "native_preflight_attachment_subresource"@[38] == 'e');
    assert("native_preflight_attachment_format"@.len() == 34 && "native_preflight_attachment_format"@[20] == 'a' && "native_preflight_attachment_format"@[33] == 't');
    assert("native_preflight_no_color"@.len() == 25 && "native_preflight_no_color"@[20] == 'c' && "native_preflight_no_color"@[24] == 'r');
    assert("native_preflight_sparse_attachments"@.len() == 35 && "native_preflight_sparse_attachments"@[20] == 'r' && "native_preflight_sparse_attachments"@[34] == 's');
    assert("native_preflight_attachment_count"@.len() == 33 && "native_preflight_attachment_count"@[20] == 'a' && "native_preflight_attachment_count"@[32] == 't');
    assert("native_preflight_input_attachment"@.len() == 33 && "native_preflight_input_attachment"@[20] == 'u' && "native_preflight_input_attachment"@[32] == 't');
    assert("native_preflight_view_chain"@.len() == 27 && "native_preflight_view_chain"@[20] == 'w' && "native_preflight_view_chain"@[26] == 'n');
    assert("native_preflight_texture_owner"@.len() == 30 && "native_preflight_texture_owner"@[20] == 't' && "native_preflight_texture_owner"@[29] == 'r');
    assert("native_preflight_memoryless_descriptor"@.len() == 38 && "native_preflight_memoryless_descriptor"@[20] == 'o' && "native_preflight_memoryless_descriptor"@[37] == 'r');
    assert("native_preflight_mapping_unavailable"@.len() == 36 && "native_preflight_mapping_unavailable"@[20] == 'p' && "native_preflight_mapping_unavailable"@[35] == 'e');
    assert("native_preflight_texture_descriptor"@.len() == 35 && "native_preflight_texture_descriptor"@[20] == 't' && "native_preflight_texture_descriptor"@[34] == 'r');
    assert("native_preflight_backing_chain"@.len() == 30 && "native_preflight_backing_chain"@[20] == 'k' && "native_preflight_backing_chain"@[29] == 'n');
    assert("native_preflight_backing_owner"@.len() == 30 && "native_preflight_backing_owner"@[20] == 'k' && "native_preflight_backing_owner"@[29] == 'r');
    assert("native_preflight_backing_unavailable"@.len() == 36 && "native_preflight_backing_unavailable"@[20] == 'k' && "native_preflight_backing_unavailable"@[35] == 'e');
    assert("native_preflight_no_pipeline"@.len() == 28 && "native_preflight_no_pipeline"@[20] == 'p' && "native_preflight_no_pipeline"@[27] == 'e');
    assert("native_preflight_pipeline_unavailable"@.len() == 37 && "native_preflight_pipeline_unavailable"@[20] == 'e' && "native_preflight_pipeline_unavailable"@[36] == 'e');
    assert("native_preflight_caches_unavailable"@.len() == 35 && "native_preflight_caches_unavailable"@[20] == 'h' && "native_preflight_caches_unavailable"@[34] == 'e');
    assert("native_preflight_indirect_draw"@.len() == 30 && "native_preflight_indirect_draw"@[20] == 'i' && "native_preflight_indirect_draw"@[29] == 'w');
    assert("native_preflight_topology"@.len() == 25 && "native_preflight_topology"@[20] == 'o' && "native_preflight_topology"@[24] == 'y');
    assert("native_preflight_no_pass"@.len() == 24 && "native_preflight_no_pass"@[20] == 'p' && "native_preflight_no_pass"@[23] == 's');
}

} // verus!
