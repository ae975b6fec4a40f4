//! The raw Vulkan values that the renderer's own enums and flag sets stand
//! for, as the backend hands them to the driver.
use vstd::prelude::*;

use crate::domain::ImageLayout;
use crate::types::{CullMode, DescriptorType, FrontFace, ShaderStages};

verus! {

pub open spec fn image_layout_value(l: ImageLayout) -> i32 {
    match l {
        ImageLayout::Undefined => 0,
        ImageLayout::General => 1,
        ImageLayout::ColorAttachment => 2,
        ImageLayout::DepthAttachment => 3,
        ImageLayout::ShaderReadOnly => 5,
        ImageLayout::TransferSrc => 6,
        ImageLayout::TransferDst => 7,
        ImageLayout::Present => 1000001002,
        ImageLayout::DepthReadOnly => 1000241001,
    }
}

/// The Vulkan image layout of `l`; a depth attachment is in the combined
/// depth/stencil attachment layout.
pub fn image_layout_raw(l: ImageLayout) -> (r: i32)
    ensures
        r == image_layout_value(l),
{
    match l {
        ImageLayout::Undefined => 0,
        ImageLayout::General => 1,
        ImageLayout::ColorAttachment => 2,
        ImageLayout::DepthAttachment => 3,
        ImageLayout::ShaderReadOnly => 5,
        ImageLayout::TransferSrc => 6,
        ImageLayout::TransferDst => 7,
        ImageLayout::Present => 1000001002,
        ImageLayout::DepthReadOnly => 1000241001,
    }
}

/// The Vulkan cull-mode bits of `c`.
pub fn cull_mode_bits(c: CullMode) -> (r: u32)
    ensures
        r == (match c {
            CullMode::NoCull => 0u32,
            CullMode::Front => 1u32,
            CullMode::Back => 2u32,
            CullMode::FrontAndBack => 3u32,
        }),
{
    match c {
        CullMode::NoCull => 0,
        CullMode::Front => 1,
        CullMode::Back => 2,
        CullMode::FrontAndBack => 3,
    }
}

/// The Vulkan front-face value of `f`.
pub fn front_face_raw(f: FrontFace) -> (r: i32)
    ensures
        r == (match f {
            FrontFace::CounterClockwise => 0i32,
            FrontFace::Clockwise => 1i32,
        }),
{
    match f {
        FrontFace::CounterClockwise => 0,
        FrontFace::Clockwise => 1,
    }
}

/// The Vulkan shader-stage bits of `s`: its vertex, fragment and compute
/// stages; other bits have no Vulkan stage here.
pub fn shader_stage_bits(s: ShaderStages) -> (r: u32)
    ensures
        r == (if s.0 & 1 != 0 {
            0x1u32
        } else {
            0u32
        }) | (if s.0 & 2 != 0 {
            0x10u32
        } else {
            0u32
        }) | (if s.0 & 4 != 0 {
            0x20u32
        } else {
            0u32
        }),
{
    let vertex: u32 = if s.0 & ShaderStages::VERTEX().0 != 0 {
        0x1
    } else {
        0
    };
    let fragment: u32 = if s.0 & ShaderStages::FRAGMENT().0 != 0 {
        0x10
    } else {
        0
    };
    let compute: u32 = if s.0 & ShaderStages::COMPUTE().0 != 0 {
        0x20
    } else {
        0
    };
    vertex | fragment | compute
}

/// The Vulkan descriptor type of `t`.
pub fn descriptor_type_raw(t: DescriptorType) -> (r: i32)
    ensures
        r == (match t {
            DescriptorType::Sampler => 0i32,
            DescriptorType::CombinedImageSampler => 1i32,
            DescriptorType::SampledImage => 2i32,
            DescriptorType::StorageImage => 3i32,
            DescriptorType::UniformTexelBuffer => 4i32,
            DescriptorType::StorageTexelBuffer => 5i32,
            DescriptorType::UniformBuffer => 6i32,
            DescriptorType::StorageBuffer => 7i32,
            DescriptorType::UniformBufferDynamic => 8i32,
            DescriptorType::StorageBufferDynamic => 9i32,
            DescriptorType::InputAttachment => 10i32,
        }),
{
    match t {
        DescriptorType::Sampler => 0,
        DescriptorType::CombinedImageSampler => 1,
        DescriptorType::SampledImage => 2,
        DescriptorType::StorageImage => 3,
        DescriptorType::UniformTexelBuffer => 4,
        DescriptorType::StorageTexelBuffer => 5,
        DescriptorType::UniformBuffer => 6,
        DescriptorType::StorageBuffer => 7,
        DescriptorType::UniformBufferDynamic => 8,
        DescriptorType::StorageBufferDynamic => 9,
        DescriptorType::InputAttachment => 10,
    }
}

} // verus!
