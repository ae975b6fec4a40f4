//! The commands a pass records, before any backend sees them.
use vstd::prelude::*;

use crate::domain::{DescriptorSetId, ResourceId};
use crate::pipeline_config::PipelineId;
use crate::types::PushConstantRange;

verus! {

/// One recorded command of a pass.
#[derive(Debug)]
pub enum PassCommand {
    PushConstants { range: PushConstantRange, data: Vec<u8> },
    Draw { vertex_count: u32 },
    DrawIndexed { index_count: u32, instance_count: u32, first_index: u32 },
    Dispatch { x: u32, y: u32, z: u32 },
    CopyBuffer { src: ResourceId, dst: ResourceId, size: u64, dst_offset: u64 },
    CopyBufferToImage { src: ResourceId, dst: ResourceId },
    BindVertexBuffer(ResourceId, u64),
    BindIndexBuffer(ResourceId, u64),
    BindPipeline(PipelineId),
    BindDescriptorSet(DescriptorSetId),
}

} // verus!
