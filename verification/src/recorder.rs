//! Recorders handed to the code that fills a pass: each holds the command
//! buffer of the pass and, for graphics and compute, the pipelines and the
//! layout of the pipeline bound last, which descriptor bindings use.
use vstd::prelude::*;

use crate::command_buffer::CommandBuffer;
use crate::descriptor::{bind_op, DescriptorSet};
use crate::pipeline_config::PipelineId;
use crate::record::{PipelineManager, RecordOp};
use crate::resource::{Buffer, Image};
use crate::type_states::{Bound, IndexBuffer, Inside, Outside, Recording, TransferDst, TransferSrc, Updated, VertexBuffer};
use crate::types::{IndexType, PipelineBindPoint, ShaderStages};

verus! {

/// Records a graphics pass inside its rendering.
pub struct RenderRecorder2D<'a> {
    cmd: CommandBuffer<Recording, Inside>,
    pipelines: &'a PipelineManager,
    layout: Option<u64>,
}

impl<'a> RenderRecorder2D<'a> {
    pub closed spec fn command_buffer(&self) -> CommandBuffer<Recording, Inside> {
        self.cmd
    }

    pub closed spec fn pipelines_spec(&self) -> PipelineManager {
        *self.pipelines
    }

    /// The layout of the pipeline bound last, if any.
    pub closed spec fn layout_spec(&self) -> Option<u64> {
        self.layout
    }

    /// `self` is `before` with `op` recorded and nothing else changed.
    pub open spec fn recorded(&self, before: &Self, op: RecordOp) -> bool {
        &&& self.command_buffer().appended(&before.command_buffer(), op)
        &&& self.pipelines_spec() == before.pipelines_spec()
        &&& self.layout_spec() == before.layout_spec()
    }

    pub fn new(cmd: CommandBuffer<Recording, Inside>, pipelines: &'a PipelineManager, layout: Option<u64>) -> (r: Self)
        ensures
            r.command_buffer() == cmd,
            r.pipelines_spec() == *pipelines,
            r.layout_spec() == layout,
    {
        RenderRecorder2D { cmd, pipelines, layout }
    }

    /// The command buffer, with what was recorded.
    pub fn into_command_buffer(self) -> (r: CommandBuffer<Recording, Inside>)
        ensures
            r == self.command_buffer(),
    {
        self.cmd
    }

    pub fn draw(&mut self, vertices: u32)
        ensures
            final(self).recorded(old(self), RecordOp::Draw { vertex_count: vertices }),
    {
        self.cmd.draw(vertices);
    }

    pub fn draw_indexed(&mut self, index_count: u32, instance_count: u32, first_index: u32)
        ensures
            final(self).recorded(old(self), RecordOp::DrawIndexed { index_count, instance_count, first_index }),
    {
        self.cmd.draw_indexed(index_count, instance_count, first_index);
    }

    pub fn bind_vertex_buffer(&mut self, vb: &Buffer<VertexBuffer>)
        ensures
            final(self).recorded(old(self), RecordOp::BindVertexBuffer { buffer: vb.handle_spec(), offset: 0 }),
    {
        self.cmd.bind_vertex_buffer(vb);
    }

    pub fn bind_index_buffer(&mut self, ib: &Buffer<IndexBuffer>)
        ensures
            final(self).recorded(
                old(self),
                RecordOp::BindIndexBuffer { buffer: ib.handle_spec(), offset: 0, index_type: IndexType::spec_raw(1) },
            ),
    {
        self.cmd.bind_index_buffer(ib);
    }

    /// Binds `set` to the layout of the pipeline bound last.
    pub fn bind_descriptor_set<Iface>(&mut self, set: DescriptorSet<Updated, Iface>) -> (r: DescriptorSet<Bound, Iface>)
        requires
            old(self).layout_spec() is Some,
        ensures
            final(self).recorded(
                old(self),
                bind_op(PipelineBindPoint::spec_raw(0), old(self).layout_spec().unwrap(), 0, set.handle_spec()),
            ),
            r.handle_spec() == set.handle_spec(),
            r.writes_spec() == set.writes_spec(),
    {
        let layout = self.layout.unwrap();
        self.cmd.bind_descriptor_set(layout, set)
    }

    /// Binds `set`, kept for later frames, to the layout of the pipeline
    /// bound last.
    pub fn bind_descriptor_set_ref<Iface>(&mut self, set: &DescriptorSet<Updated, Iface>)
        requires
            old(self).layout_spec() is Some,
        ensures
            final(self).recorded(
                old(self),
                bind_op(PipelineBindPoint::spec_raw(0), old(self).layout_spec().unwrap(), 0, set.handle_spec()),
            ),
    {
        let layout = self.layout.unwrap();
        self.cmd.bind_descriptor_set_ref(layout, set);
    }

    /// Pushes `data` as constants, at byte `offset` of the range, to the
    /// layout of the pipeline bound last.
    pub fn push_constants(&mut self, stages: ShaderStages, offset: u32, data: Vec<u8>)
        requires
            old(self).layout_spec() is Some,
        ensures
            final(self).command_buffer().handle_spec() == old(self).command_buffer().handle_spec(),
            final(self).command_buffer().family_spec() == old(self).command_buffer().family_spec(),
            final(self).command_buffer().renderings_spec() == old(self).command_buffer().renderings_spec(),
            final(self).command_buffer().push_data_spec() == old(self).command_buffer().push_data_spec().push(data@),
            final(self).command_buffer().image_barriers_spec() == old(self).command_buffer().image_barriers_spec(),
            final(self).command_buffer().buffer_barriers_spec() == old(self).command_buffer().buffer_barriers_spec(),
            final(self).command_buffer().ops_spec() == old(self).command_buffer().ops_spec().push(
                RecordOp::PushConstantData {
                    layout: old(self).layout_spec().unwrap(),
                    stages,
                    offset,
                    data: old(self).command_buffer().push_data_spec().len() as usize,
                },
            ),
            final(self).pipelines_spec() == old(self).pipelines_spec(),
            final(self).layout_spec() == old(self).layout_spec(),
    {
        let layout = self.layout.unwrap();
        self.cmd.push_constants(layout, stages, offset, data);
    }

    /// Binds pipeline `id`; its layout is used by later bindings.
    pub fn bind_pipeline(&mut self, id: PipelineId)
        requires
            id.0 < old(self).pipelines_spec().slots().len(),
        ensures
            final(self).command_buffer().appended(
                &old(self).command_buffer(),
                RecordOp::BindPipeline {
                    bind_point: PipelineBindPoint::spec_raw(0),
                    pipeline: old(self).pipelines_spec().slots()[id.0 as int].handle,
                },
            ),
            final(self).pipelines_spec() == old(self).pipelines_spec(),
            final(self).layout_spec() == Some(old(self).pipelines_spec().slots()[id.0 as int].layout),
    {
        let handle = self.pipelines.handle(id);
        self.cmd.bind_graphics_pipeline(handle);
        self.layout = Some(self.pipelines.layout(id));
    }

    /// Sets the viewport; its components are the bit patterns of `f32`s.
    pub fn set_viewport_region(&mut self, x_bits: u32, y_bits: u32, width_bits: u32, height_bits: u32)
        ensures
            final(self).recorded(old(self), RecordOp::SetViewport { x_bits, y_bits, width_bits, height_bits }),
    {
        self.cmd.set_viewport_rect(x_bits, y_bits, width_bits, height_bits);
    }

    pub fn set_scissor_region(&mut self, x: i32, y: i32, width: u32, height: u32)
        ensures
            final(self).recorded(old(self), RecordOp::SetScissor { offset_x: x, offset_y: y, width, height }),
    {
        self.cmd.set_scissor_rect(x, y, width, height);
    }
}

/// Records a compute pass.
pub struct ComputeRecorder<'a> {
    cmd: CommandBuffer<Recording, Outside>,
    pipelines: &'a PipelineManager,
    layout: Option<u64>,
}

impl<'a> ComputeRecorder<'a> {
    pub closed spec fn command_buffer(&self) -> CommandBuffer<Recording, Outside> {
        self.cmd
    }

    pub closed spec fn pipelines_spec(&self) -> PipelineManager {
        *self.pipelines
    }

    /// The layout of the pipeline bound last, if any.
    pub closed spec fn layout_spec(&self) -> Option<u64> {
        self.layout
    }

    pub fn new(cmd: CommandBuffer<Recording, Outside>, pipelines: &'a PipelineManager, layout: Option<u64>) -> (r: Self)
        ensures
            r.command_buffer() == cmd,
            r.pipelines_spec() == *pipelines,
            r.layout_spec() == layout,
    {
        ComputeRecorder { cmd, pipelines, layout }
    }

    /// The command buffer, with what was recorded.
    pub fn into_command_buffer(self) -> (r: CommandBuffer<Recording, Outside>)
        ensures
            r == self.command_buffer(),
    {
        self.cmd
    }

    pub fn dispatch(&mut self, x: u32, y: u32, z: u32)
        ensures
            final(self).command_buffer().appended(&old(self).command_buffer(), RecordOp::Dispatch { x, y, z }),
            final(self).pipelines_spec() == old(self).pipelines_spec(),
            final(self).layout_spec() == old(self).layout_spec(),
    {
        self.cmd.dispatch(x, y, z);
    }

    /// Binds `set` to the layout of the compute pipeline bound last.
    pub fn bind_compute_descriptor_set<Iface>(&mut self, set: DescriptorSet<Updated, Iface>) -> (r: DescriptorSet<
        Bound,
        Iface,
    >)
        requires
            old(self).layout_spec() is Some,
        ensures
            final(self).command_buffer().appended(
                &old(self).command_buffer(),
                bind_op(PipelineBindPoint::spec_raw(1), old(self).layout_spec().unwrap(), 0, set.handle_spec()),
            ),
            final(self).pipelines_spec() == old(self).pipelines_spec(),
            final(self).layout_spec() == old(self).layout_spec(),
            r.handle_spec() == set.handle_spec(),
            r.writes_spec() == set.writes_spec(),
    {
        let layout = self.layout.unwrap();
        self.cmd.bind_compute_descriptor_set(layout, set)
    }

    /// Pushes `data` as compute constants, from the start of the range, to
    /// the layout of the compute pipeline bound last.
    pub fn push_compute_constants(&mut self, data: Vec<u8>)
        requires
            old(self).layout_spec() is Some,
        ensures
            final(self).command_buffer().handle_spec() == old(self).command_buffer().handle_spec(),
            final(self).command_buffer().family_spec() == old(self).command_buffer().family_spec(),
            final(self).command_buffer().renderings_spec() == old(self).command_buffer().renderings_spec(),
            final(self).command_buffer().push_data_spec() == old(self).command_buffer().push_data_spec().push(data@),
            final(self).command_buffer().image_barriers_spec() == old(self).command_buffer().image_barriers_spec(),
            final(self).command_buffer().buffer_barriers_spec() == old(self).command_buffer().buffer_barriers_spec(),
            final(self).command_buffer().ops_spec() == old(self).command_buffer().ops_spec().push(
                RecordOp::PushConstantData {
                    layout: old(self).layout_spec().unwrap(),
                    stages: ShaderStages(4),
                    offset: 0,
                    data: old(self).command_buffer().push_data_spec().len() as usize,
                },
            ),
            final(self).pipelines_spec() == old(self).pipelines_spec(),
            final(self).layout_spec() == old(self).layout_spec(),
    {
        let layout = self.layout.unwrap();
        self.cmd.push_compute_constants(layout, ShaderStages::COMPUTE(), 0, data);
    }

    /// Binds compute pipeline `id`; its layout is used by later bindings.
    pub fn bind_pipeline(&mut self, id: PipelineId)
        requires
            id.0 < old(self).pipelines_spec().slots().len(),
        ensures
            final(self).command_buffer().appended(
                &old(self).command_buffer(),
                RecordOp::BindPipeline {
                    bind_point: PipelineBindPoint::spec_raw(1),
                    pipeline: old(self).pipelines_spec().slots()[id.0 as int].handle,
                },
            ),
            final(self).pipelines_spec() == old(self).pipelines_spec(),
            final(self).layout_spec() == Some(old(self).pipelines_spec().slots()[id.0 as int].layout),
    {
        let handle = self.pipelines.handle(id);
        self.cmd.bind_compute_pipeline(handle);
        self.layout = Some(self.pipelines.layout(id));
    }
}

/// Records a transfer pass.
pub struct TransferRecorder {
    cmd: CommandBuffer<Recording, Outside>,
}

impl TransferRecorder {
    pub closed spec fn command_buffer(&self) -> CommandBuffer<Recording, Outside> {
        self.cmd
    }

    pub fn new(cmd: CommandBuffer<Recording, Outside>) -> (r: Self)
        ensures
            r.command_buffer() == cmd,
    {
        TransferRecorder { cmd }
    }

    /// The command buffer, with what was recorded.
    pub fn into_command_buffer(self) -> (r: CommandBuffer<Recording, Outside>)
        ensures
            r == self.command_buffer(),
    {
        self.cmd
    }

    /// Copies `size` bytes from byte `src_offset` of `src` to byte
    /// `dst_offset` of `dst`; both ranges lie inside their buffers.
    pub fn copy_buffer(
        &mut self,
        src: &Buffer<TransferSrc>,
        dst: &Buffer<TransferDst>,
        size: u64,
        src_offset: u64,
        dst_offset: u64,
    )
        requires
            src_offset + size <= src.size_spec(),
            dst_offset + size <= dst.size_spec(),
            src.offset_spec() + src_offset <= u64::MAX,
            dst.offset_spec() + dst_offset <= u64::MAX,
        ensures
            final(self).command_buffer().appended(
                &old(self).command_buffer(),
                RecordOp::CopyBuffer {
                    src: src.handle_spec(),
                    dst: dst.handle_spec(),
                    src_offset: (src.offset_spec() + src_offset) as u64,
                    dst_offset: (dst.offset_spec() + dst_offset) as u64,
                    size,
                },
            ),
    {
        self.cmd.copy_buffer_offset(src, dst, size, src_offset, dst_offset);
    }

    /// Copies `src`, from its first byte, into the whole of `dst`.
    pub fn copy_buffer_to_image(&mut self, src: &Buffer<TransferSrc>, dst: &Image<TransferDst>)
        requires
            0 < src.size_spec(),
        ensures
            final(self).command_buffer().handle_spec() == old(self).command_buffer().handle_spec(),
            final(self).command_buffer().family_spec() == old(self).command_buffer().family_spec(),
            final(self).command_buffer().same_lists(&old(self).command_buffer()),
            final(self).command_buffer().ops_spec().len() == old(self).command_buffer().ops_spec().len() + 1,
            final(self).command_buffer().ops_spec().take(old(self).command_buffer().ops_spec().len() as int)
                == old(self).command_buffer().ops_spec(),
            final(self).command_buffer().ops_spec().last() matches RecordOp::CopyBufferToImage {
                buffer,
                offset,
                image,
                extent,
            } && buffer == src.handle_spec() && offset == src.offset_spec() && image == dst.handle_spec() && extent@
                == dst.extent_spec(),
    {
        self.cmd.copy_buffer_to_image(src, 0, dst);
    }

    /// Copies the first `size` bytes of raw buffer `src` to the start of raw
    /// buffer `dst`.
    pub fn copy_buffer_raw(&mut self, src: u64, dst: u64, size: u64)
        ensures
            final(self).command_buffer().appended(
                &old(self).command_buffer(),
                RecordOp::CopyBuffer { src, dst, src_offset: 0, dst_offset: 0, size },
            ),
    {
        self.cmd.record(RecordOp::CopyBuffer { src, dst, src_offset: 0, dst_offset: 0, size });
    }

    /// Copies the first `size` bytes of raw buffer `src` to byte
    /// `dst_offset` of raw buffer `dst`.
    pub fn copy_buffer_raw_offset(&mut self, src: u64, dst: u64, size: u64, dst_offset: u64)
        ensures
            final(self).command_buffer().appended(
                &old(self).command_buffer(),
                RecordOp::CopyBuffer { src, dst, src_offset: 0, dst_offset, size },
            ),
    {
        self.cmd.record(RecordOp::CopyBuffer { src, dst, src_offset: 0, dst_offset, size });
    }
}

} // verus!
