//! The Vulkan enumerants the device names, read from `ash`.
use vstd::prelude::*;

verus! {

/// The kinds of descriptor a draw binds.
#[derive(Clone, Copy, Debug, PartialEq, Eq, Structural)]
pub enum DescriptorKind {
    Sampler,
    SampledImage,
    StorageImage,
    StorageBuffer,
    InputAttachment,
}

/// The graphics stages a descriptor is visible to.
#[derive(Clone, Copy, Debug, PartialEq, Eq, Structural)]
pub enum ShaderStage {
    Vertex,
    Fragment,
}

/// The number Vulkan gives a descriptor kind.
pub open spec fn descriptor_number(kind: DescriptorKind) -> u32 {
    match kind {
        DescriptorKind::Sampler => 0,
        DescriptorKind::SampledImage => 2,
        DescriptorKind::StorageImage => 3,
        DescriptorKind::StorageBuffer => 7,
        DescriptorKind::InputAttachment => 10,
    }
}

/// The flag Vulkan gives a shader stage.
pub open spec fn stage_flag(stage: ShaderStage) -> u32 {
    match stage {
        ShaderStage::Vertex => 1,
        ShaderStage::Fragment => 16,
    }
}

/// `ash::vk::DescriptorType::as_raw` on the constant of each kind.
#[verifier::external_body]
pub(crate) fn descriptor_type(kind: DescriptorKind) -> (raw: u32)
    ensures
        raw == descriptor_number(kind),
{
    let value = match kind {
        DescriptorKind::Sampler => ash::vk::DescriptorType::SAMPLER,
        DescriptorKind::SampledImage => ash::vk::DescriptorType::SAMPLED_IMAGE,
        DescriptorKind::StorageImage => ash::vk::DescriptorType::STORAGE_IMAGE,
        DescriptorKind::StorageBuffer => ash::vk::DescriptorType::STORAGE_BUFFER,
        DescriptorKind::InputAttachment => ash::vk::DescriptorType::INPUT_ATTACHMENT,
    };
    value.as_raw() as u32
}

/// `ash::vk::ShaderStageFlags::as_raw` on the constant of each stage.
#[verifier::external_body]
pub(crate) fn stage_flags(stage: ShaderStage) -> (raw: u32)
    ensures
        raw == stage_flag(stage),
{
    let value = match stage {
        ShaderStage::Vertex => ash::vk::ShaderStageFlags::VERTEX,
        ShaderStage::Fragment => ash::vk::ShaderStageFlags::FRAGMENT,
    };
    value.as_raw()
}

/// The flags of both graphics stages together.
pub(crate) fn both_stages() -> (raw: u32)
    ensures
        raw == 17,
{
    let vertex: u32 = stage_flags(ShaderStage::Vertex);
    let fragment: u32 = stage_flags(ShaderStage::Fragment);
    assert(1u32 | 16u32 == 17u32) by (bit_vector);
    vertex | fragment
}

} // verus!
