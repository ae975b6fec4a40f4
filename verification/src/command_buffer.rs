//! A command buffer as the list of what is recorded into it. Its state
//! (initial, recording, executable) and its render scope (outside or inside
//! a rendering) are in its type, so that each command can only be recorded
//! where the device accepts it; each command appends one operation on raw
//! handles, which the device gets when the buffer is submitted.
use vstd::prelude::*;

use std::marker::PhantomData;

use crate::descriptor::{bind_op, DescriptorSet};
use crate::executor_plan::{BufferBarrierInfo2, ImageBarrierInfo};
use crate::record::RecordOp;
use crate::rendering::RenderingDesc;
use crate::resource::{Buffer, Image};
use crate::type_states::{
    Bound, Executable, IndexBuffer, Initial, Inside, Outside, Recording, TransferDst, TransferSrc, Updated,
    VertexBuffer,
};
use crate::types::{IndexType, PipelineBindPoint, ShaderStages};

verus! {

/// A command pool of one queue family.
pub struct CommandPool {
    pool: u64,
    family: u32,
}

impl CommandPool {
    pub closed spec fn pool_spec(&self) -> u64 {
        self.pool
    }

    pub closed spec fn family_spec(&self) -> u32 {
        self.family
    }

    /// The pool the device created as `pool` for queue family `family`.
    pub fn new(pool: u64, family: u32) -> (r: Self)
        ensures
            r.pool_spec() == pool,
            r.family_spec() == family,
    {
        CommandPool { pool, family }
    }

    /// The command buffer the device allocated from this pool as `buffer`.
    pub fn allocate(&self, buffer: u64) -> (r: CommandBuffer<Initial, Outside>)
        ensures
            r.handle_spec() == buffer,
            r.family_spec() == self.family_spec(),
            r.ops_spec().len() == 0,
            r.renderings_spec().len() == 0,
            r.push_data_spec().len() == 0,
            r.image_barriers_spec().len() == 0,
            r.buffer_barriers_spec().len() == 0,
    {
        CommandBuffer {
            buffer,
            family: self.family,
            ops: Vec::new(),
            renderings: Vec::new(),
            push_data: Vec::new(),
            image_barriers: Vec::new(),
            buffer_barriers: Vec::new(),
            _state: PhantomData,
            _render: PhantomData,
        }
    }

    pub fn handle(&self) -> (r: u64)
        ensures
            r == self.pool_spec(),
    {
        self.pool
    }
}

/// A command buffer of queue family `family` in state `S` and render scope
/// `R`: the operations recorded so far, in order, and the rendering
/// descriptions, push-constant bytes and barrier lists they name.
pub struct CommandBuffer<S, R> {
    buffer: u64,
    family: u32,
    ops: Vec<RecordOp>,
    renderings: Vec<RenderingDesc>,
    push_data: Vec<Vec<u8>>,
    image_barriers: Vec<Vec<ImageBarrierInfo>>,
    buffer_barriers: Vec<Vec<BufferBarrierInfo2>>,
    _state: PhantomData<S>,
    _render: PhantomData<R>,
}

impl<S, R> CommandBuffer<S, R> {
    pub closed spec fn handle_spec(&self) -> u64 {
        self.buffer
    }

    pub closed spec fn family_spec(&self) -> u32 {
        self.family
    }

    pub closed spec fn ops_spec(&self) -> Seq<RecordOp> {
        self.ops@
    }

    pub closed spec fn renderings_spec(&self) -> Seq<RenderingDesc> {
        self.renderings@
    }

    pub closed spec fn push_data_spec(&self) -> Seq<Seq<u8>> {
        Seq::new(self.push_data@.len(), |i: int| self.push_data@[i]@)
    }

    pub closed spec fn image_barriers_spec(&self) -> Seq<Seq<ImageBarrierInfo>> {
        Seq::new(self.image_barriers@.len(), |i: int| self.image_barriers@[i]@)
    }

    pub closed spec fn buffer_barriers_spec(&self) -> Seq<Seq<BufferBarrierInfo2>> {
        Seq::new(self.buffer_barriers@.len(), |i: int| self.buffer_barriers@[i]@)
    }

    /// `self` names the same rendering descriptions, push-constant bytes
    /// and barrier lists as `other`.
    pub open spec fn same_lists<T, U>(&self, other: &CommandBuffer<T, U>) -> bool {
        &&& self.renderings_spec() == other.renderings_spec()
        &&& self.push_data_spec() == other.push_data_spec()
        &&& self.image_barriers_spec() == other.image_barriers_spec()
        &&& self.buffer_barriers_spec() == other.buffer_barriers_spec()
    }

    /// `self` is `other` with `op` recorded after what `other` holds.
    pub open spec fn appended<T, U>(&self, other: &CommandBuffer<T, U>, op: RecordOp) -> bool {
        &&& self.handle_spec() == other.handle_spec()
        &&& self.family_spec() == other.family_spec()
        &&& self.ops_spec() == other.ops_spec().push(op)
        &&& self.same_lists(other)
    }

    /// `self` is `other` in another state, with nothing recorded.
    pub open spec fn same_contents<T, U>(&self, other: &CommandBuffer<T, U>) -> bool {
        &&& self.handle_spec() == other.handle_spec()
        &&& self.family_spec() == other.family_spec()
        &&& self.ops_spec() == other.ops_spec()
        &&& self.same_lists(other)
    }

    pub fn handle(&self) -> (r: u64)
        ensures
            r == self.handle_spec(),
    {
        self.buffer
    }

    pub fn family(&self) -> (r: u32)
        ensures
            r == self.family_spec(),
    {
        self.family
    }

    /// The operations recorded so far, in order.
    pub fn ops(&self) -> (r: &Vec<RecordOp>)
        ensures
            r@ == self.ops_spec(),
    {
        &self.ops
    }

    /// The rendering descriptions that `BeginRenderingWith` operations name.
    pub fn renderings(&self) -> (r: &Vec<RenderingDesc>)
        ensures
            r@ == self.renderings_spec(),
    {
        &self.renderings
    }

    /// The byte strings that `PushConstantData` operations name.
    pub fn push_data(&self) -> (r: &Vec<Vec<u8>>)
        ensures
            r@.len() == self.push_data_spec().len(),
            forall|i: int| 0 <= i < r@.len() ==> #[trigger] r@[i]@ == self.push_data_spec()[i],
    {
        &self.push_data
    }

    /// The image barrier lists that `ImageBarriers` operations name.
    pub fn image_barrier_lists(&self) -> (r: &Vec<Vec<ImageBarrierInfo>>)
        ensures
            r@.len() == self.image_barriers_spec().len(),
            forall|i: int| 0 <= i < r@.len() ==> #[trigger] r@[i]@ == self.image_barriers_spec()[i],
    {
        &self.image_barriers
    }

    /// The buffer barrier lists that `BufferBarriers` operations name.
    pub fn buffer_barrier_lists(&self) -> (r: &Vec<Vec<BufferBarrierInfo2>>)
        ensures
            r@.len() == self.buffer_barriers_spec().len(),
            forall|i: int| 0 <= i < r@.len() ==> #[trigger] r@[i]@ == self.buffer_barriers_spec()[i],
    {
        &self.buffer_barriers
    }

    /// Records the image barriers `barriers`, together.
    pub fn image_barrier(&mut self, barriers: Vec<ImageBarrierInfo>)
        ensures
            final(self).handle_spec() == old(self).handle_spec(),
            final(self).family_spec() == old(self).family_spec(),
            final(self).renderings_spec() == old(self).renderings_spec(),
            final(self).push_data_spec() == old(self).push_data_spec(),
            final(self).image_barriers_spec() == old(self).image_barriers_spec().push(barriers@),
            final(self).buffer_barriers_spec() == old(self).buffer_barriers_spec(),
            final(self).ops_spec() == old(self).ops_spec().push(
                RecordOp::ImageBarriers { list: old(self).image_barriers_spec().len() as usize },
            ),
    {
        let index = self.image_barriers.len();
        self.image_barriers.push(barriers);
        self.ops.push(RecordOp::ImageBarriers { list: index });
        proof {
            assert(self.image_barriers_spec() =~= old(self).image_barriers_spec().push(barriers@));
        }
    }

    /// Records the buffer barriers `barriers`, together.
    pub fn buffer_barrier(&mut self, barriers: Vec<BufferBarrierInfo2>)
        ensures
            final(self).handle_spec() == old(self).handle_spec(),
            final(self).family_spec() == old(self).family_spec(),
            final(self).renderings_spec() == old(self).renderings_spec(),
            final(self).push_data_spec() == old(self).push_data_spec(),
            final(self).image_barriers_spec() == old(self).image_barriers_spec(),
            final(self).buffer_barriers_spec() == old(self).buffer_barriers_spec().push(barriers@),
            final(self).ops_spec() == old(self).ops_spec().push(
                RecordOp::BufferBarriers { list: old(self).buffer_barriers_spec().len() as usize },
            ),
    {
        let index = self.buffer_barriers.len();
        self.buffer_barriers.push(barriers);
        self.ops.push(RecordOp::BufferBarriers { list: index });
        proof {
            assert(self.buffer_barriers_spec() =~= old(self).buffer_barriers_spec().push(barriers@));
        }
    }

    fn retype<T, U>(self) -> (r: CommandBuffer<T, U>)
        ensures
            r.same_contents(&self),
    {
        CommandBuffer {
            buffer: self.buffer,
            family: self.family,
            ops: self.ops,
            renderings: self.renderings,
            push_data: self.push_data,
            image_barriers: self.image_barriers,
            buffer_barriers: self.buffer_barriers,
            _state: PhantomData,
            _render: PhantomData,
        }
    }

    pub(crate) fn record(&mut self, op: RecordOp)
        ensures
            final(self).appended(old(self), op),
    {
        self.ops.push(op);
    }
}

impl<R> CommandBuffer<Recording, R> {
    fn record_push(&mut self, layout: u64, stages: ShaderStages, offset: u32, data: Vec<u8>)
        ensures
            final(self).handle_spec() == old(self).handle_spec(),
            final(self).family_spec() == old(self).family_spec(),
            final(self).renderings_spec() == old(self).renderings_spec(),
            final(self).push_data_spec() == old(self).push_data_spec().push(data@),
            final(self).image_barriers_spec() == old(self).image_barriers_spec(),
            final(self).buffer_barriers_spec() == old(self).buffer_barriers_spec(),
            final(self).ops_spec() == old(self).ops_spec().push(
                RecordOp::PushConstantData { layout, stages, offset, data: old(self).push_data_spec().len() as usize },
            ),
    {
        let index = self.push_data.len();
        self.push_data.push(data);
        self.ops.push(RecordOp::PushConstantData { layout, stages, offset, data: index });
        proof {
            assert(self.push_data_spec() =~= old(self).push_data_spec().push(data@));
        }
    }
}

impl CommandBuffer<Initial, Outside> {
    /// Starts recording.
    pub fn begin(self) -> (r: CommandBuffer<Recording, Outside>)
        ensures
            r.same_contents(&self),
    {
        self.retype()
    }
}

impl CommandBuffer<Recording, Outside> {
    /// Ends recording; only outside a rendering.
    pub fn end(self) -> (r: CommandBuffer<Executable, Outside>)
        ensures
            r.same_contents(&self),
    {
        self.retype()
    }

    /// Begins the rendering that `desc` describes.
    pub fn begin_rendering(self, desc: RenderingDesc) -> (r: CommandBuffer<Recording, Inside>)
        ensures
            r.handle_spec() == self.handle_spec(),
            r.family_spec() == self.family_spec(),
            r.renderings_spec() == self.renderings_spec().push(desc),
            r.push_data_spec() == self.push_data_spec(),
            r.image_barriers_spec() == self.image_barriers_spec(),
            r.buffer_barriers_spec() == self.buffer_barriers_spec(),
            r.ops_spec() == self.ops_spec().push(RecordOp::BeginRenderingWith { desc: self.renderings_spec().len() as usize }),
    {
        let mut s = self;
        let index = s.renderings.len();
        s.renderings.push(desc);
        s.ops.push(RecordOp::BeginRenderingWith { desc: index });
        s.retype()
    }

    pub fn bind_compute_pipeline(&mut self, handle: u64)
        ensures
            final(self).appended(old(self), RecordOp::BindPipeline { bind_point: PipelineBindPoint::spec_raw(1), pipeline: handle }),
    {
        self.record(RecordOp::BindPipeline { bind_point: PipelineBindPoint::COMPUTE(), pipeline: handle });
    }

    pub fn dispatch(&mut self, x: u32, y: u32, z: u32)
        ensures
            final(self).appended(old(self), RecordOp::Dispatch { x, y, z }),
    {
        self.record(RecordOp::Dispatch { x, y, z });
    }

    /// Copies the first `size` bytes of `src` to the start of `dst`.
    pub fn copy_buffer(&mut self, src: &Buffer<TransferSrc>, dst: &Buffer<TransferDst>, size: u64)
        ensures
            final(self).appended(
                old(self),
                RecordOp::CopyBuffer {
                    src: src.handle_spec(),
                    dst: dst.handle_spec(),
                    src_offset: src.offset_spec(),
                    dst_offset: dst.offset_spec(),
                    size,
                },
            ),
    {
        let op = RecordOp::CopyBuffer {
            src: src.handle(),
            dst: dst.handle(),
            src_offset: src.offset(),
            dst_offset: dst.offset(),
            size,
        };
        self.record(op);
    }

    /// Copies `src`, from byte `src_offset` of it, into the whole of `dst`.
    pub fn copy_buffer_to_image(&mut self, src: &Buffer<TransferSrc>, src_offset: u64, dst: &Image<TransferDst>)
        requires
            src_offset < src.size_spec(),
            src.offset_spec() + src_offset <= u64::MAX,
        ensures
            final(self).handle_spec() == old(self).handle_spec(),
            final(self).family_spec() == old(self).family_spec(),
            final(self).same_lists(old(self)),
            final(self).ops_spec().len() == old(self).ops_spec().len() + 1,
            final(self).ops_spec().take(old(self).ops_spec().len() as int) == old(self).ops_spec(),
            final(self).ops_spec().last() matches RecordOp::CopyBufferToImage { buffer, offset, image, extent }
                && buffer == src.handle_spec() && offset == src.offset_spec() + src_offset && image == dst.handle_spec()
                && extent@ == dst.extent_spec(),
    {
        let op = RecordOp::CopyBufferToImage {
            buffer: src.handle(),
            offset: src.offset() + src_offset,
            image: dst.handle(),
            extent: dst.extent(),
        };
        self.record(op);
        proof {
            assert(self.ops_spec().take(old(self).ops_spec().len() as int) =~= old(self).ops_spec());
        }
    }

    /// Copies `size` bytes from byte `src_offset` of `src` to byte
    /// `dst_offset` of `dst`; both ranges lie inside their buffers.
    pub fn copy_buffer_offset(
        &mut self,
        src: &Buffer<TransferSrc>,
        dst: &Buffer<TransferDst>,
        size: u64,
        src_offset: u64,
        dst_offset: u64,
    )
        requires
            src_offset + size <= src.size_spec(),
            dst_offset + size <= dst.size_spec(),
            src.offset_spec() + src_offset <= u64::MAX,
            dst.offset_spec() + dst_offset <= u64::MAX,
        ensures
            final(self).appended(
                old(self),
                RecordOp::CopyBuffer {
                    src: src.handle_spec(),
                    dst: dst.handle_spec(),
                    src_offset: (src.offset_spec() + src_offset) as u64,
                    dst_offset: (dst.offset_spec() + dst_offset) as u64,
                    size,
                },
            ),
    {
        let op = RecordOp::CopyBuffer {
            src: src.handle(),
            dst: dst.handle(),
            src_offset: src.offset() + src_offset,
            dst_offset: dst.offset() + dst_offset,
            size,
        };
        self.record(op);
    }

    /// Pushes `data` as compute constants at byte `offset` of the range.
    pub fn push_compute_constants(&mut self, layout: u64, stages: ShaderStages, offset: u32, data: Vec<u8>)
        ensures
            final(self).handle_spec() == old(self).handle_spec(),
            final(self).family_spec() == old(self).family_spec(),
            final(self).renderings_spec() == old(self).renderings_spec(),
            final(self).push_data_spec() == old(self).push_data_spec().push(data@),
            final(self).image_barriers_spec() == old(self).image_barriers_spec(),
            final(self).buffer_barriers_spec() == old(self).buffer_barriers_spec(),
            final(self).ops_spec() == old(self).ops_spec().push(
                RecordOp::PushConstantData { layout, stages, offset, data: old(self).push_data_spec().len() as usize },
            ),
    {
        self.record_push(layout, stages, offset, data);
    }

    /// Binds `set` for compute at set number 0 of `pipeline_layout`.
    pub fn bind_compute_descriptor_set<Iface>(
        &mut self,
        pipeline_layout: u64,
        set: DescriptorSet<Updated, Iface>,
    ) -> (r: DescriptorSet<Bound, Iface>)
        ensures
            final(self).appended(old(self), bind_op(PipelineBindPoint::spec_raw(1), pipeline_layout, 0, set.handle_spec())),
            r.handle_spec() == set.handle_spec(),
            r.writes_spec() == set.writes_spec(),
    {
        let op = RecordOp::BindDescriptorSet {
            bind_point: PipelineBindPoint::COMPUTE(),
            layout: pipeline_layout,
            first_set: 0,
            set: set.handle(),
        };
        self.record(op);
        set.into_bound()
    }
}

impl CommandBuffer<Recording, Inside> {
    /// Ends the rendering.
    pub fn end_rendering(self) -> (r: CommandBuffer<Recording, Outside>)
        ensures
            r.appended(&self, RecordOp::EndRendering),
    {
        let mut s = self;
        s.ops.push(RecordOp::EndRendering);
        s.retype()
    }

    pub fn bind_graphics_pipeline(&mut self, handle: u64)
        ensures
            final(self).appended(old(self), RecordOp::BindPipeline { bind_point: PipelineBindPoint::spec_raw(0), pipeline: handle }),
    {
        self.record(RecordOp::BindPipeline { bind_point: PipelineBindPoint::GRAPHICS(), pipeline: handle });
    }

    /// Sets the viewport; its components are the bit patterns of `f32`s.
    pub fn set_viewport_rect(&mut self, x_bits: u32, y_bits: u32, width_bits: u32, height_bits: u32)
        ensures
            final(self).appended(old(self), RecordOp::SetViewport { x_bits, y_bits, width_bits, height_bits }),
    {
        self.record(RecordOp::SetViewport { x_bits, y_bits, width_bits, height_bits });
    }

    pub fn set_scissor_rect(&mut self, x: i32, y: i32, width: u32, height: u32)
        ensures
            final(self).appended(old(self), RecordOp::SetScissor { offset_x: x, offset_y: y, width, height }),
    {
        self.record(RecordOp::SetScissor { offset_x: x, offset_y: y, width, height });
    }

    /// Draws `vertices` vertices, one instance.
    pub fn draw(&mut self, vertices: u32)
        ensures
            final(self).appended(old(self), RecordOp::Draw { vertex_count: vertices }),
    {
        self.record(RecordOp::Draw { vertex_count: vertices });
    }

    pub fn draw_indexed(&mut self, index_count: u32, instance_count: u32, first_index: u32)
        ensures
            final(self).appended(old(self), RecordOp::DrawIndexed { index_count, instance_count, first_index }),
    {
        self.record(RecordOp::DrawIndexed { index_count, instance_count, first_index });
    }

    /// Binds `vb` from its first byte.
    pub fn bind_vertex_buffer(&mut self, vb: &Buffer<VertexBuffer>)
        ensures
            final(self).appended(old(self), RecordOp::BindVertexBuffer { buffer: vb.handle_spec(), offset: 0 }),
    {
        self.record(RecordOp::BindVertexBuffer { buffer: vb.handle(), offset: 0 });
    }

    /// Binds `ib`, of 32-bit indices, from its first byte.
    pub fn bind_index_buffer(&mut self, ib: &Buffer<IndexBuffer>)
        ensures
            final(self).appended(
                old(self),
                RecordOp::BindIndexBuffer { buffer: ib.handle_spec(), offset: 0, index_type: IndexType::spec_raw(1) },
            ),
    {
        self.record(RecordOp::BindIndexBuffer { buffer: ib.handle(), offset: 0, index_type: IndexType::U32() });
    }

    /// Pushes `data` as constants at byte `offset` of the range.
    pub fn push_constants(&mut self, layout: u64, stages: ShaderStages, offset: u32, data: Vec<u8>)
        ensures
            final(self).handle_spec() == old(self).handle_spec(),
            final(self).family_spec() == old(self).family_spec(),
            final(self).renderings_spec() == old(self).renderings_spec(),
            final(self).push_data_spec() == old(self).push_data_spec().push(data@),
            final(self).image_barriers_spec() == old(self).image_barriers_spec(),
            final(self).buffer_barriers_spec() == old(self).buffer_barriers_spec(),
            final(self).ops_spec() == old(self).ops_spec().push(
                RecordOp::PushConstantData { layout, stages, offset, data: old(self).push_data_spec().len() as usize },
            ),
    {
        self.record_push(layout, stages, offset, data);
    }

    /// Binds `set` for graphics at set number 0 of `pipeline_layout`.
    pub fn bind_descriptor_set<Iface>(&mut self, pipeline_layout: u64, set: DescriptorSet<Updated, Iface>) -> (r:
        DescriptorSet<Bound, Iface>)
        ensures
            final(self).appended(old(self), bind_op(PipelineBindPoint::spec_raw(0), pipeline_layout, 0, set.handle_spec())),
            r.handle_spec() == set.handle_spec(),
            r.writes_spec() == set.writes_spec(),
    {
        let (bound, op) = set.bind(pipeline_layout, 0);
        self.record(op);
        bound
    }

    /// Binds `set` for graphics at set number 0 of `pipeline_layout`,
    /// keeping it for later frames.
    pub fn bind_descriptor_set_ref<Iface>(&mut self, pipeline_layout: u64, set: &DescriptorSet<Updated, Iface>)
        ensures
            final(self).appended(old(self), bind_op(PipelineBindPoint::spec_raw(0), pipeline_layout, 0, set.handle_spec())),
    {
        let op = set.bind_ref(pipeline_layout, 0);
        self.record(op);
    }
}

} // verus!
