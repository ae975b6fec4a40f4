//! GPU buffers and images with their usage state in the type. Each state
//! change returns the barrier that the command buffer doing it must record,
//! and moves ownership of the resource to that command buffer's queue
//! family, except the release halves of a queue transfer.
use vstd::prelude::*;

use std::marker::PhantomData;

use crate::arena::{Lifetime, SubAllocation};
use crate::domain::{Access, ImageLayout, Stage};
use crate::executor_plan::{BufferBarrierInfo2, ImageBarrierInfo};
use crate::type_states::{
    ColorAttachment, IndexBuffer, PresentSrc, ShaderReadOnly, StorageReadWrite, TransferDst, TransferSrc, Undefined,
    UniformReadOnly, VertexBuffer,
};
use crate::types::{AccessFlags2, Extent2D, Extent3D, Format, ImageAspect, PipelineStageFlags2, QUEUE_FAMILY_IGNORED};

verus! {

/// The queue families of a barrier: none when the resource stays on its
/// family, else the transfer from one to the other.
pub open spec fn barrier_families(src: u32, dst: u32) -> (u32, u32) {
    if src == dst {
        (QUEUE_FAMILY_IGNORED, QUEUE_FAMILY_IGNORED)
    } else {
        (src, dst)
    }
}

/// A buffer barrier with stage and access bits as given.
pub open spec fn buffer_barrier_bits(
    buffer: u64,
    src_stage: u64,
    src_access: u64,
    dst_stage: u64,
    dst_access: u64,
    src_family: u32,
    dst_family: u32,
) -> BufferBarrierInfo2 {
    BufferBarrierInfo2 {
        buffer,
        src_stage: PipelineStageFlags2(src_stage),
        src_access: AccessFlags2(src_access),
        dst_stage: PipelineStageFlags2(dst_stage),
        dst_access: AccessFlags2(dst_access),
        src_queue_family: barrier_families(src_family, dst_family).0,
        dst_queue_family: barrier_families(src_family, dst_family).1,
    }
}

/// An image barrier on the color aspect.
pub open spec fn image_barrier_spec(
    image: u64,
    old_layout: ImageLayout,
    new_layout: ImageLayout,
    src_stage: Stage,
    src_access: Access,
    dst_stage: Stage,
    dst_access: Access,
    src_family: u32,
    dst_family: u32,
) -> ImageBarrierInfo {
    ImageBarrierInfo {
        image,
        old_layout,
        new_layout,
        src_stage,
        src_access,
        dst_stage,
        dst_access,
        aspect: ImageAspect::Color,
        src_queue_family: barrier_families(src_family, dst_family).0,
        dst_queue_family: barrier_families(src_family, dst_family).1,
    }
}

fn families(src: u32, dst: u32) -> (r: (u32, u32))
    ensures
        r == barrier_families(src, dst),
{
    if src == dst {
        (QUEUE_FAMILY_IGNORED, QUEUE_FAMILY_IGNORED)
    } else {
        (src, dst)
    }
}

fn buffer_barrier(
    buffer: u64,
    src_stage: PipelineStageFlags2,
    src_access: AccessFlags2,
    dst_stage: PipelineStageFlags2,
    dst_access: AccessFlags2,
    src_family: u32,
    dst_family: u32,
) -> (b: BufferBarrierInfo2)
    ensures
        b == buffer_barrier_bits(buffer, src_stage.0, src_access.0, dst_stage.0, dst_access.0, src_family, dst_family),
{
    let (sf, df) = families(src_family, dst_family);
    BufferBarrierInfo2 {
        buffer,
        src_stage,
        src_access,
        dst_stage,
        dst_access,
        src_queue_family: sf,
        dst_queue_family: df,
    }
}

/// The barrier that moves `image` from `old_layout` to `new_layout`,
/// between the given stages and accesses and from one queue family to
/// another; the families are ignored when they are the same.
pub fn image_barrier(
    image: u64,
    old_layout: ImageLayout,
    new_layout: ImageLayout,
    src_stage: Stage,
    src_access: Access,
    dst_stage: Stage,
    dst_access: Access,
    aspect: ImageAspect,
    src_family: u32,
    dst_family: u32,
) -> (b: ImageBarrierInfo)
    ensures
        b == (ImageBarrierInfo {
            aspect,
            ..image_barrier_spec(
                image,
                old_layout,
                new_layout,
                src_stage,
                src_access,
                dst_stage,
                dst_access,
                src_family,
                dst_family,
            )
        }),
{
    let (sf, df) = families(src_family, dst_family);
    ImageBarrierInfo {
        image,
        old_layout,
        new_layout,
        src_stage,
        src_access,
        dst_stage,
        dst_access,
        aspect,
        src_queue_family: sf,
        dst_queue_family: df,
    }
}

/// The two halves of a queue ownership transfer name the same pair of
/// families: releasing a transfer destination to `dst` for vertex input,
/// then acquiring it as a vertex buffer on `dst`, and likewise releasing an
/// image to `dst` for sampling and acquiring it there. Vulkan requires the
/// pairs to match.
pub proof fn lemma_transfer_halves_match(buffer: u64, image: u64, owner: u32, dst: u32)
    requires
        owner != dst,
    ensures
        ({
            let release = buffer_barrier_bits(buffer, 0x1000, 0x1000, 0, 0, owner, dst);
            let acquire = buffer_barrier_bits(buffer, 0, 0, 0x4, 0x4, owner, dst);
            release.src_queue_family == acquire.src_queue_family && release.dst_queue_family
                == acquire.dst_queue_family && (release.src_queue_family, release.dst_queue_family) == (owner, dst)
        }),
        ({
            let release = image_barrier_spec(
                image,
                ImageLayout::TransferDst,
                ImageLayout::ShaderReadOnly,
                Stage::Transfer,
                Access::TransferWrite,
                Stage::Fragment,
                Access::SampledRead,
                owner,
                dst,
            );
            let acquire = image_barrier_spec(
                image,
                ImageLayout::TransferDst,
                ImageLayout::ShaderReadOnly,
                Stage::Top,
                Access::NoAccess,
                Stage::Fragment,
                Access::SampledRead,
                owner,
                dst,
            );
            release.src_queue_family == acquire.src_queue_family && release.dst_queue_family
                == acquire.dst_queue_family && release.old_layout == acquire.old_layout && release.new_layout
                == acquire.new_layout && (release.src_queue_family, release.dst_queue_family) == (owner, dst)
        }),
{
}

/// A buffer in state `S`, with the allocation it owns, if any, and the queue
/// family that owns it.
pub struct Buffer<S> {
    handle: u64,
    allocation: Option<SubAllocation>,
    logical_size: u64,
    family: u32,
    _state: PhantomData<S>,
}

impl<S> Buffer<S> {
    pub closed spec fn handle_spec(&self) -> u64 {
        self.handle
    }

    pub closed spec fn allocation_spec(&self) -> Option<SubAllocation> {
        self.allocation
    }

    pub closed spec fn size_spec(&self) -> u64 {
        self.logical_size
    }

    pub closed spec fn family_spec(&self) -> u32 {
        self.family
    }

    /// `self` is `other` in another state, owned by `family`.
    pub open spec fn moved<T>(&self, other: &Buffer<T>, family: u32) -> bool {
        &&& self.handle_spec() == other.handle_spec()
        &&& self.allocation_spec() == other.allocation_spec()
        &&& self.size_spec() == other.size_spec()
        &&& self.family_spec() == family
    }

    fn retype<T>(self) -> (b: Buffer<T>)
        ensures
            b.moved(&self, self.family_spec()),
    {
        Buffer {
            handle: self.handle,
            allocation: self.allocation,
            logical_size: self.logical_size,
            family: self.family,
            _state: PhantomData,
        }
    }

    fn moved_to<T>(self, family: u32) -> (b: Buffer<T>)
        ensures
            b.moved(&self, family),
    {
        Buffer {
            handle: self.handle,
            allocation: self.allocation,
            logical_size: self.logical_size,
            family,
            _state: PhantomData,
        }
    }

    pub fn handle(&self) -> (h: u64)
        ensures
            h == self.handle_spec(),
    {
        self.handle
    }

    pub fn size(&self) -> (s: u64)
        ensures
            s == self.size_spec(),
    {
        self.logical_size
    }

    pub fn family(&self) -> (f: u32)
        ensures
            f == self.family_spec(),
    {
        self.family
    }

    /// Where the buffer starts in its memory: its allocation's offset, or 0.
    pub open spec fn offset_spec(&self) -> u64 {
        match self.allocation_spec() {
            Some(a) => a.spec_offset(),
            None => 0,
        }
    }

    /// Where the buffer starts in its memory: its allocation's offset, or 0.
    pub fn offset(&self) -> (o: u64)
        ensures
            o == self.offset_spec(),
    {
        match &self.allocation {
            Some(a) => a.offset(),
            None => 0,
        }
    }

    /// The bytes a descriptor covers: the allocation's size, or the
    /// buffer's own.
    pub fn range(&self) -> (r: u64)
        ensures
            r == (match self.allocation_spec() {
                Some(a) => a.spec_size(),
                None => self.size_spec(),
            }),
    {
        match &self.allocation {
            Some(a) => a.size(),
            None => self.logical_size,
        }
    }

    pub fn memory(&self) -> (m: Option<u64>)
        ensures
            m == (match self.allocation_spec() {
                Some(a) => Some(a.spec_memory()),
                None => None,
            }),
    {
        match &self.allocation {
            Some(a) => Some(a.memory()),
            None => None,
        }
    }

    /// Records when the GPU is done with the buffer's allocation.
    pub fn finalize_lifetime(&mut self, t: u64)
        requires
            old(self).allocation_spec() matches Some(a) ==> a.spec_lifetime() == Lifetime::Unset && t > 0,
        ensures
            final(self).handle_spec() == old(self).handle_spec(),
            final(self).size_spec() == old(self).size_spec(),
            final(self).family_spec() == old(self).family_spec(),
            (match old(self).allocation_spec() {
                Some(a) => final(self).allocation_spec() matches Some(b) && b.spec_lifetime() == Lifetime::Submitted(t)
                    && b.spec_offset() == a.spec_offset() && b.spec_size() == a.spec_size() && b.spec_memory()
                    == a.spec_memory() && b.spec_block_idx() == a.spec_block_idx() && b.spec_node_idx()
                    == a.spec_node_idx() && b.spec_generation() == a.spec_generation(),
                None => final(self).allocation_spec() is None,
            }),
    {
        if let Some(a) = &mut self.allocation {
            a.finalize_lifetime(t);
        }
    }

    /// The allocation the buffer owned, to give back once the buffer is
    /// destroyed.
    pub fn into_allocation(self) -> (a: Option<SubAllocation>)
        ensures
            a == self.allocation_spec(),
    {
        self.allocation
    }

    /// A buffer that does not own its memory.
    pub fn from_raw_view(handle: u64, size: u64, family: u32) -> (b: Self)
        ensures
            b.handle_spec() == handle,
            b.size_spec() == size,
            b.family_spec() == family,
            b.allocation_spec() is None,
    {
        Buffer { handle, allocation: None, logical_size: size, family, _state: PhantomData }
    }
}

impl Buffer<Undefined> {
    /// A buffer over `allocation`, of `logical_size` bytes, owned by `family`.
    pub fn allocate(logical_size: u64, allocation: SubAllocation, family: u32) -> (b: Self)
        ensures
            b.handle_spec() == allocation.spec_buffer(),
            b.allocation_spec() == Some(allocation),
            b.size_spec() == logical_size,
            b.family_spec() == family,
    {
        let handle = allocation.buffer();
        Buffer { handle, allocation: Some(allocation), logical_size, family, _state: PhantomData }
    }
}

impl Buffer<TransferSrc> {
    /// A staging buffer `handle`, bound to `allocation`.
    pub fn staging(handle: u64, logical_size: u64, allocation: SubAllocation, family: u32) -> (b: Self)
        ensures
            b.handle_spec() == handle,
            b.allocation_spec() == Some(allocation),
            b.size_spec() == logical_size,
            b.family_spec() == family,
    {
        Buffer { handle, allocation: Some(allocation), logical_size, family, _state: PhantomData }
    }
}
impl Buffer<Undefined> {
    /// The buffer becomes a transfer destination. Nothing before it needs waiting for; a buffer of another
    /// family moves to the recording queue's.
    pub fn into_transfer_dst(self, cmd_family: u32) -> (r: (Buffer<TransferDst>, BufferBarrierInfo2))
        ensures
            r.0.moved(&self, cmd_family),
            r.1 == buffer_barrier_bits(
                self.handle_spec(),
                0, 0,
                0x1000,
                0x1000,
                self.family_spec(),
                cmd_family,
            ),
    {
        let src_stage = PipelineStageFlags2::NONE();
        let src_access = AccessFlags2::NONE();
        let b = buffer_barrier(self.handle, src_stage, src_access, PipelineStageFlags2::TRANSFER(), AccessFlags2::TRANSFER_WRITE(), self.family, cmd_family);
        (self.moved_to(cmd_family), b)
    }

    /// The buffer becomes a transfer source. Nothing before it needs waiting for; a buffer of another
    /// family moves to the recording queue's.
    pub fn into_transfer_src(self, cmd_family: u32) -> (r: (Buffer<TransferSrc>, BufferBarrierInfo2))
        ensures
            r.0.moved(&self, cmd_family),
            r.1 == buffer_barrier_bits(
                self.handle_spec(),
                0, 0,
                0x1000,
                0x800,
                self.family_spec(),
                cmd_family,
            ),
    {
        let src_stage = PipelineStageFlags2::NONE();
        let src_access = AccessFlags2::NONE();
        let b = buffer_barrier(self.handle, src_stage, src_access, PipelineStageFlags2::TRANSFER(), AccessFlags2::TRANSFER_READ(), self.family, cmd_family);
        (self.moved_to(cmd_family), b)
    }

    /// The buffer becomes a vertex buffer. Nothing before it needs waiting for; a buffer of another
    /// family moves to the recording queue's.
    pub fn into_vertex_buffer(self, cmd_family: u32) -> (r: (Buffer<VertexBuffer>, BufferBarrierInfo2))
        ensures
            r.0.moved(&self, cmd_family),
            r.1 == buffer_barrier_bits(
                self.handle_spec(),
                0, 0,
                0x4,
                0x4,
                self.family_spec(),
                cmd_family,
            ),
    {
        let src_stage = PipelineStageFlags2::NONE();
        let src_access = AccessFlags2::NONE();
        let b = buffer_barrier(self.handle, src_stage, src_access, PipelineStageFlags2::VERTEX_INPUT(), AccessFlags2::VERTEX_ATTRIBUTE_READ(), self.family, cmd_family);
        (self.moved_to(cmd_family), b)
    }

    /// The buffer becomes compute storage. Nothing before it needs waiting for; a buffer of another
    /// family moves to the recording queue's.
    pub fn into_storage(self, cmd_family: u32) -> (r: (Buffer<StorageReadWrite>, BufferBarrierInfo2))
        ensures
            r.0.moved(&self, cmd_family),
            r.1 == buffer_barrier_bits(
                self.handle_spec(),
                0, 0,
                0x800,
                (0x20u64 | 0x40u64),
                self.family_spec(),
                cmd_family,
            ),
    {
        let src_stage = PipelineStageFlags2::NONE();
        let src_access = AccessFlags2::NONE();
        let b = buffer_barrier(self.handle, src_stage, src_access, PipelineStageFlags2::COMPUTE_SHADER(), AccessFlags2::SHADER_READ() | AccessFlags2::SHADER_WRITE(), self.family, cmd_family);
        (self.moved_to(cmd_family), b)
    }

}

impl Buffer<TransferSrc> {
    /// A transfer source becomes a transfer destination. Ownership moves to the recording queue's
    /// family; when it changes, this is the acquire half of the transfer and
    /// waits for nothing on this queue.
    pub fn into_transfer_dst(self, cmd_family: u32) -> (r: (Buffer<TransferDst>, BufferBarrierInfo2))
        ensures
            r.0.moved(&self, cmd_family),
            r.1 == buffer_barrier_bits(
                self.handle_spec(),
                if self.family_spec() != cmd_family { 0 } else { 0x1000 }, if self.family_spec() != cmd_family { 0 } else { 0x800 },
                0x1000,
                0x1000,
                self.family_spec(),
                cmd_family,
            ),
    {
        let acq = self.family != cmd_family;
        let src_stage = if acq { PipelineStageFlags2::NONE() } else { PipelineStageFlags2::TRANSFER() };
        let src_access = if acq { AccessFlags2::NONE() } else { AccessFlags2::TRANSFER_READ() };
        let b = buffer_barrier(self.handle, src_stage, src_access, PipelineStageFlags2::TRANSFER(), AccessFlags2::TRANSFER_WRITE(), self.family, cmd_family);
        (self.moved_to(cmd_family), b)
    }

}

impl Buffer<StorageReadWrite> {
    /// Compute storage becomes a transfer source. Ownership moves to the recording queue's
    /// family; when it changes, this is the acquire half of the transfer and
    /// waits for nothing on this queue.
    pub fn into_transfer_src(self, cmd_family: u32) -> (r: (Buffer<TransferSrc>, BufferBarrierInfo2))
        ensures
            r.0.moved(&self, cmd_family),
            r.1 == buffer_barrier_bits(
                self.handle_spec(),
                if self.family_spec() != cmd_family { 0 } else { 0x800 }, if self.family_spec() != cmd_family { 0 } else { 0x40 },
                0x1000,
                0x800,
                self.family_spec(),
                cmd_family,
            ),
    {
        let acq = self.family != cmd_family;
        let src_stage = if acq { PipelineStageFlags2::NONE() } else { PipelineStageFlags2::COMPUTE_SHADER() };
        let src_access = if acq { AccessFlags2::NONE() } else { AccessFlags2::SHADER_WRITE() };
        let b = buffer_barrier(self.handle, src_stage, src_access, PipelineStageFlags2::TRANSFER(), AccessFlags2::TRANSFER_READ(), self.family, cmd_family);
        (self.moved_to(cmd_family), b)
    }

    /// Compute storage stays compute storage, after the writes before. Ownership moves to the recording queue's
    /// family; when it changes, this is the acquire half of the transfer and
    /// waits for nothing on this queue.
    pub fn into_storage(self, cmd_family: u32) -> (r: (Buffer<StorageReadWrite>, BufferBarrierInfo2))
        ensures
            r.0.moved(&self, cmd_family),
            r.1 == buffer_barrier_bits(
                self.handle_spec(),
                if self.family_spec() != cmd_family { 0 } else { 0x800 }, if self.family_spec() != cmd_family { 0 } else { (0x20u64 | 0x40u64) },
                0x800,
                (0x20u64 | 0x40u64),
                self.family_spec(),
                cmd_family,
            ),
    {
        let acq = self.family != cmd_family;
        let src_stage = if acq { PipelineStageFlags2::NONE() } else { PipelineStageFlags2::COMPUTE_SHADER() };
        let src_access = if acq { AccessFlags2::NONE() } else { AccessFlags2::SHADER_READ() | AccessFlags2::SHADER_WRITE() };
        let b = buffer_barrier(self.handle, src_stage, src_access, PipelineStageFlags2::COMPUTE_SHADER(), AccessFlags2::SHADER_READ() | AccessFlags2::SHADER_WRITE(), self.family, cmd_family);
        (self.moved_to(cmd_family), b)
    }

}

impl Buffer<VertexBuffer> {
    /// A vertex buffer becomes a transfer destination again. Ownership moves to the recording queue's
    /// family; when it changes, this is the acquire half of the transfer and
    /// waits for nothing on this queue.
    pub fn into_transfer_dst(self, cmd_family: u32) -> (r: (Buffer<TransferDst>, BufferBarrierInfo2))
        ensures
            r.0.moved(&self, cmd_family),
            r.1 == buffer_barrier_bits(
                self.handle_spec(),
                if self.family_spec() != cmd_family { 0 } else { 0x4 }, if self.family_spec() != cmd_family { 0 } else { 0x4 },
                0x1000,
                0x1000,
                self.family_spec(),
                cmd_family,
            ),
    {
        let acq = self.family != cmd_family;
        let src_stage = if acq { PipelineStageFlags2::NONE() } else { PipelineStageFlags2::VERTEX_INPUT() };
        let src_access = if acq { AccessFlags2::NONE() } else { AccessFlags2::VERTEX_ATTRIBUTE_READ() };
        let b = buffer_barrier(self.handle, src_stage, src_access, PipelineStageFlags2::TRANSFER(), AccessFlags2::TRANSFER_WRITE(), self.family, cmd_family);
        (self.moved_to(cmd_family), b)
    }

}

impl Buffer<UniformReadOnly> {
    /// A uniform buffer becomes a transfer destination again. Ownership moves to the recording queue's
    /// family; when it changes, this is the acquire half of the transfer and
    /// waits for nothing on this queue.
    pub fn into_transfer_dst(self, cmd_family: u32) -> (r: (Buffer<TransferDst>, BufferBarrierInfo2))
        ensures
            r.0.moved(&self, cmd_family),
            r.1 == buffer_barrier_bits(
                self.handle_spec(),
                if self.family_spec() != cmd_family { 0 } else { (0x8u64 | 0x80u64) }, if self.family_spec() != cmd_family { 0 } else { 0x8 },
                0x1000,
                0x1000,
                self.family_spec(),
                cmd_family,
            ),
    {
        let acq = self.family != cmd_family;
        let src_stage = if acq { PipelineStageFlags2::NONE() } else { PipelineStageFlags2::VERTEX_SHADER() | PipelineStageFlags2::FRAGMENT_SHADER() };
        let src_access = if acq { AccessFlags2::NONE() } else { AccessFlags2::UNIFORM_READ() };
        let b = buffer_barrier(self.handle, src_stage, src_access, PipelineStageFlags2::TRANSFER(), AccessFlags2::TRANSFER_WRITE(), self.family, cmd_family);
        (self.moved_to(cmd_family), b)
    }

}

impl Buffer<TransferDst> {
    /// A transfer destination becomes a vertex buffer. Ownership moves to the recording queue's
    /// family; when it changes, this is the acquire half of the transfer and
    /// waits for nothing on this queue.
    pub fn into_vertex_buffer(self, cmd_family: u32) -> (r: (Buffer<VertexBuffer>, BufferBarrierInfo2))
        ensures
            r.0.moved(&self, cmd_family),
            r.1 == buffer_barrier_bits(
                self.handle_spec(),
                if self.family_spec() != cmd_family { 0 } else { 0x1000 }, if self.family_spec() != cmd_family { 0 } else { 0x1000 },
                0x4,
                0x4,
                self.family_spec(),
                cmd_family,
            ),
    {
        let acq = self.family != cmd_family;
        let src_stage = if acq { PipelineStageFlags2::NONE() } else { PipelineStageFlags2::TRANSFER() };
        let src_access = if acq { AccessFlags2::NONE() } else { AccessFlags2::TRANSFER_WRITE() };
        let b = buffer_barrier(self.handle, src_stage, src_access, PipelineStageFlags2::VERTEX_INPUT(), AccessFlags2::VERTEX_ATTRIBUTE_READ(), self.family, cmd_family);
        (self.moved_to(cmd_family), b)
    }

    /// A transfer destination becomes an index buffer. Ownership moves to the recording queue's
    /// family; when it changes, this is the acquire half of the transfer and
    /// waits for nothing on this queue.
    pub fn into_index_buffer(self, cmd_family: u32) -> (r: (Buffer<IndexBuffer>, BufferBarrierInfo2))
        ensures
            r.0.moved(&self, cmd_family),
            r.1 == buffer_barrier_bits(
                self.handle_spec(),
                if self.family_spec() != cmd_family { 0 } else { 0x1000 }, if self.family_spec() != cmd_family { 0 } else { 0x1000 },
                0x4,
                0x2,
                self.family_spec(),
                cmd_family,
            ),
    {
        let acq = self.family != cmd_family;
        let src_stage = if acq { PipelineStageFlags2::NONE() } else { PipelineStageFlags2::TRANSFER() };
        let src_access = if acq { AccessFlags2::NONE() } else { AccessFlags2::TRANSFER_WRITE() };
        let b = buffer_barrier(self.handle, src_stage, src_access, PipelineStageFlags2::VERTEX_INPUT(), AccessFlags2::INDEX_READ(), self.family, cmd_family);
        (self.moved_to(cmd_family), b)
    }

    /// A transfer destination becomes a uniform buffer. Ownership moves to the recording queue's
    /// family; when it changes, this is the acquire half of the transfer and
    /// waits for nothing on this queue.
    pub fn into_uniform(self, cmd_family: u32) -> (r: (Buffer<UniformReadOnly>, BufferBarrierInfo2))
        ensures
            r.0.moved(&self, cmd_family),
            r.1 == buffer_barrier_bits(
                self.handle_spec(),
                if self.family_spec() != cmd_family { 0 } else { 0x1000 }, if self.family_spec() != cmd_family { 0 } else { 0x1000 },
                (0x8u64 | 0x80u64),
                0x8,
                self.family_spec(),
                cmd_family,
            ),
    {
        let acq = self.family != cmd_family;
        let src_stage = if acq { PipelineStageFlags2::NONE() } else { PipelineStageFlags2::TRANSFER() };
        let src_access = if acq { AccessFlags2::NONE() } else { AccessFlags2::TRANSFER_WRITE() };
        let b = buffer_barrier(self.handle, src_stage, src_access, PipelineStageFlags2::VERTEX_SHADER() | PipelineStageFlags2::FRAGMENT_SHADER(), AccessFlags2::UNIFORM_READ(), self.family, cmd_family);
        (self.moved_to(cmd_family), b)
    }

    /// The transfer destination becomes compute storage. A buffer of another
    /// family is acquired by the recording queue's family with a barrier; on
    /// the same family no barrier is needed.
    pub fn into_storage(self, cmd_family: u32) -> (r: (Buffer<StorageReadWrite>, Option<BufferBarrierInfo2>))
        ensures
            r.0.moved(&self, cmd_family),
            r.1 == (if self.family_spec() != cmd_family {
                Some(buffer_barrier_bits(self.handle_spec(), 0, 0, 0x800, (0x20u64 | 0x40u64), self.family_spec(), cmd_family))
            } else {
                None
            }),
    {
        if self.family != cmd_family {
            let b = buffer_barrier(
                self.handle,
                PipelineStageFlags2::NONE(),
                AccessFlags2::NONE(),
                PipelineStageFlags2::COMPUTE_SHADER(),
                AccessFlags2::SHADER_READ() | AccessFlags2::SHADER_WRITE(),
                self.family,
                cmd_family,
            );
            (self.moved_to(cmd_family), Some(b))
        } else {
            (self.retype(), None)
        }
    }

    /// The release half of handing the transfer destination to `dst_family`
    /// as a vertex buffer; it stays owned by its family until acquired.
    pub fn release_to_vertex(self, dst_family: u32) -> (r: (Buffer<TransferDst>, BufferBarrierInfo2))
        ensures
            r.0.moved(&self, self.family_spec()),
            r.1 == buffer_barrier_bits(self.handle_spec(), 0x1000, 0x1000, 0, 0, self.family_spec(), dst_family),
    {
        let b = buffer_barrier(
            self.handle,
            PipelineStageFlags2::TRANSFER(),
            AccessFlags2::TRANSFER_WRITE(),
            PipelineStageFlags2::NONE(),
            AccessFlags2::NONE(),
            self.family,
            dst_family,
        );
        (self.retype(), b)
    }

    /// The release half of handing the transfer destination to `dst_family`
    /// as compute storage.
    pub fn into_storage_release(self, dst_family: u32) -> (r: (Buffer<StorageReadWrite>, BufferBarrierInfo2))
        ensures
            r.0.moved(&self, self.family_spec()),
            r.1 == buffer_barrier_bits(self.handle_spec(), 0x1000, 0x1000, 0, 0, self.family_spec(), dst_family),
    {
        let b = buffer_barrier(
            self.handle,
            PipelineStageFlags2::TRANSFER(),
            AccessFlags2::TRANSFER_WRITE(),
            PipelineStageFlags2::NONE(),
            AccessFlags2::NONE(),
            self.family,
            dst_family,
        );
        (self.retype(), b)
    }

}

/// An image in layout `S`, with the allocation it owns, if any, and the
/// queue family that owns it.
pub struct Image<S> {
    handle: u64,
    allocation: Option<SubAllocation>,
    format: Format,
    extent: Extent3D,
    family: u32,
    _state: PhantomData<S>,
}

impl<S> Image<S> {
    pub closed spec fn handle_spec(&self) -> u64 {
        self.handle
    }

    pub closed spec fn allocation_spec(&self) -> Option<SubAllocation> {
        self.allocation
    }

    pub closed spec fn format_spec(&self) -> Format {
        self.format
    }

    pub closed spec fn extent_spec(&self) -> (u32, u32, u32) {
        self.extent@
    }

    pub closed spec fn family_spec(&self) -> u32 {
        self.family
    }

    /// `self` is `other` in another layout, owned by `family`.
    pub open spec fn moved<T>(&self, other: &Image<T>, family: u32) -> bool {
        &&& self.handle_spec() == other.handle_spec()
        &&& self.allocation_spec() == other.allocation_spec()
        &&& self.format_spec() == other.format_spec()
        &&& self.extent_spec() == other.extent_spec()
        &&& self.family_spec() == family
    }

    fn moved_to<T>(self, family: u32) -> (i: Image<T>)
        ensures
            i.moved(&self, family),
    {
        Image {
            handle: self.handle,
            allocation: self.allocation,
            format: self.format,
            extent: self.extent,
            family,
            _state: PhantomData,
        }
    }

    pub fn handle(&self) -> (h: u64)
        ensures
            h == self.handle_spec(),
    {
        self.handle
    }

    pub fn extent(&self) -> (e: Extent3D)
        ensures
            e@ == self.extent_spec(),
    {
        self.extent
    }

    pub fn format(&self) -> (f: Format)
        ensures
            f == self.format_spec(),
    {
        self.format
    }

    pub fn family(&self) -> (f: u32)
        ensures
            f == self.family_spec(),
    {
        self.family
    }

    /// Records when the GPU is done with the image's allocation.
    pub fn finalize_lifetime(&mut self, t: u64)
        requires
            old(self).allocation_spec() matches Some(a) ==> a.spec_lifetime() == Lifetime::Unset && t > 0,
        ensures
            final(self).handle_spec() == old(self).handle_spec(),
            final(self).format_spec() == old(self).format_spec(),
            final(self).extent_spec() == old(self).extent_spec(),
            final(self).family_spec() == old(self).family_spec(),
            (match old(self).allocation_spec() {
                Some(a) => final(self).allocation_spec() matches Some(b) && b.spec_lifetime() == Lifetime::Submitted(t)
                    && b.spec_offset() == a.spec_offset() && b.spec_size() == a.spec_size() && b.spec_memory()
                    == a.spec_memory() && b.spec_block_idx() == a.spec_block_idx() && b.spec_node_idx()
                    == a.spec_node_idx() && b.spec_generation() == a.spec_generation(),
                None => final(self).allocation_spec() is None,
            }),
    {
        if let Some(a) = &mut self.allocation {
            a.finalize_lifetime(t);
        }
    }

    /// The allocation the image owned, to give back once it is destroyed.
    pub fn into_allocation(self) -> (a: Option<SubAllocation>)
        ensures
            a == self.allocation_spec(),
    {
        self.allocation
    }
}

impl Image<Undefined> {
    /// A 2D image `handle` of `format` and `extent`, bound to `allocation`,
    /// which must hold the image's `required_size` bytes at an offset aligned
    /// to `required_alignment`.
    pub fn allocate_2d(
        handle: u64,
        allocation: SubAllocation,
        format: Format,
        extent: Extent2D,
        family: u32,
        required_size: u64,
        required_alignment: u64,
    ) -> (i: Self)
        requires
            allocation.spec_size() >= required_size,
            required_alignment > 0,
            allocation.spec_offset() % required_alignment == 0,
        ensures
            i.handle_spec() == handle,
            i.allocation_spec() == Some(allocation),
            i.format_spec() == format,
            i.extent_spec() == (extent@.0, extent@.1, 1u32),
            i.family_spec() == family,
    {
        Image {
            handle,
            allocation: Some(allocation),
            format,
            extent: Extent3D::new(extent.width(), extent.height(), 1),
            family,
            _state: PhantomData,
        }
    }
}

impl Image<Undefined> {
    /// The image becomes a transfer destination; its old contents are dropped.
    pub fn into_transfer_dst(self, cmd_family: u32) -> (r: (Image<TransferDst>, ImageBarrierInfo))
        ensures
            r.0.moved(&self, cmd_family),
            r.1 == image_barrier_spec(
                self.handle_spec(),
                ImageLayout::Undefined,
                ImageLayout::TransferDst,
                Stage::Top,
                Access::NoAccess,
                Stage::Transfer,
                Access::TransferWrite,
                QUEUE_FAMILY_IGNORED, QUEUE_FAMILY_IGNORED,
            ),
    {
        let b = image_barrier(
            self.handle,
            ImageLayout::Undefined,
            ImageLayout::TransferDst,
            Stage::Top,
            Access::NoAccess,
            Stage::Transfer,
            Access::TransferWrite,
            ImageAspect::Color,
            QUEUE_FAMILY_IGNORED, QUEUE_FAMILY_IGNORED,
        );
        (self.moved_to(cmd_family), b)
    }

    /// The image becomes a color attachment; its old contents are dropped.
    pub fn into_color_attachment(self, cmd_family: u32) -> (r: (Image<ColorAttachment>, ImageBarrierInfo))
        ensures
            r.0.moved(&self, cmd_family),
            r.1 == image_barrier_spec(
                self.handle_spec(),
                ImageLayout::Undefined,
                ImageLayout::ColorAttachment,
                Stage::ColorOutput,
                Access::NoAccess,
                Stage::ColorOutput,
                Access::ColorAttachmentWrite,
                QUEUE_FAMILY_IGNORED, QUEUE_FAMILY_IGNORED,
            ),
    {
        let b = image_barrier(
            self.handle,
            ImageLayout::Undefined,
            ImageLayout::ColorAttachment,
            Stage::ColorOutput,
            Access::NoAccess,
            Stage::ColorOutput,
            Access::ColorAttachmentWrite,
            ImageAspect::Color,
            QUEUE_FAMILY_IGNORED, QUEUE_FAMILY_IGNORED,
        );
        (self.moved_to(cmd_family), b)
    }

    /// The image becomes a transfer source.
    pub fn into_transfer_src(self, cmd_family: u32) -> (r: (Image<TransferSrc>, ImageBarrierInfo))
        ensures
            r.0.moved(&self, cmd_family),
            r.1 == image_barrier_spec(
                self.handle_spec(),
                ImageLayout::Undefined,
                ImageLayout::TransferSrc,
                Stage::Top,
                Access::NoAccess,
                Stage::Transfer,
                Access::TransferRead,
                QUEUE_FAMILY_IGNORED, QUEUE_FAMILY_IGNORED,
            ),
    {
        let b = image_barrier(
            self.handle,
            ImageLayout::Undefined,
            ImageLayout::TransferSrc,
            Stage::Top,
            Access::NoAccess,
            Stage::Transfer,
            Access::TransferRead,
            ImageAspect::Color,
            QUEUE_FAMILY_IGNORED, QUEUE_FAMILY_IGNORED,
        );
        (self.moved_to(cmd_family), b)
    }

}

impl Image<TransferDst> {
    /// The transfer destination becomes sampled by fragment shaders, on the
    /// recording queue's family.
    pub fn into_shader_read(self, cmd_family: u32) -> (r: (Image<ShaderReadOnly>, ImageBarrierInfo))
        ensures
            r.0.moved(&self, cmd_family),
            r.1 == image_barrier_spec(
                self.handle_spec(),
                ImageLayout::TransferDst,
                ImageLayout::ShaderReadOnly,
                Stage::Transfer,
                Access::TransferWrite,
                Stage::Fragment,
                Access::SampledRead,
                self.family_spec(), cmd_family,
            ),
    {
        let b = image_barrier(
            self.handle,
            ImageLayout::TransferDst,
            ImageLayout::ShaderReadOnly,
            Stage::Transfer,
            Access::TransferWrite,
            Stage::Fragment,
            Access::SampledRead,
            ImageAspect::Color,
            self.family, cmd_family,
        );
        (self.moved_to(cmd_family), b)
    }

    /// The transfer destination becomes a color attachment, on the recording
    /// queue's family.
    pub fn into_color_attachment(self, cmd_family: u32) -> (r: (Image<ColorAttachment>, ImageBarrierInfo))
        ensures
            r.0.moved(&self, cmd_family),
            r.1 == image_barrier_spec(
                self.handle_spec(),
                ImageLayout::TransferDst,
                ImageLayout::ColorAttachment,
                Stage::Transfer,
                Access::TransferWrite,
                Stage::ColorOutput,
                Access::ColorAttachmentWrite,
                self.family_spec(), cmd_family,
            ),
    {
        let b = image_barrier(
            self.handle,
            ImageLayout::TransferDst,
            ImageLayout::ColorAttachment,
            Stage::Transfer,
            Access::TransferWrite,
            Stage::ColorOutput,
            Access::ColorAttachmentWrite,
            ImageAspect::Color,
            self.family, cmd_family,
        );
        (self.moved_to(cmd_family), b)
    }

    /// The release half of handing the transfer destination to `dst_family`
    /// to be sampled; it stays owned by its family until acquired.
    pub fn release_to_shader_read(self, dst_family: u32) -> (r: (Image<ShaderReadOnly>, ImageBarrierInfo))
        ensures
            r.0.moved(&self, self.family_spec()),
            r.1 == image_barrier_spec(
                self.handle_spec(),
                ImageLayout::TransferDst,
                ImageLayout::ShaderReadOnly,
                Stage::Transfer,
                Access::TransferWrite,
                Stage::Fragment,
                Access::SampledRead,
                self.family_spec(),
                dst_family,
            ),
    {
        let b = image_barrier(
            self.handle,
            ImageLayout::TransferDst,
            ImageLayout::ShaderReadOnly,
            Stage::Transfer,
            Access::TransferWrite,
            Stage::Fragment,
            Access::SampledRead,
            ImageAspect::Color,
            self.family,
            dst_family,
        );
        let fam = self.family;
        (self.moved_to(fam), b)
    }

}

impl Image<ShaderReadOnly> {
    /// The sampled image becomes a color attachment.
    pub fn into_color_attachment(self, cmd_family: u32) -> (r: (Image<ColorAttachment>, ImageBarrierInfo))
        ensures
            r.0.moved(&self, cmd_family),
            r.1 == image_barrier_spec(
                self.handle_spec(),
                ImageLayout::ShaderReadOnly,
                ImageLayout::ColorAttachment,
                Stage::Fragment,
                Access::SampledRead,
                Stage::ColorOutput,
                Access::ColorAttachmentWrite,
                QUEUE_FAMILY_IGNORED, QUEUE_FAMILY_IGNORED,
            ),
    {
        let b = image_barrier(
            self.handle,
            ImageLayout::ShaderReadOnly,
            ImageLayout::ColorAttachment,
            Stage::Fragment,
            Access::SampledRead,
            Stage::ColorOutput,
            Access::ColorAttachmentWrite,
            ImageAspect::Color,
            QUEUE_FAMILY_IGNORED, QUEUE_FAMILY_IGNORED,
        );
        (self.moved_to(cmd_family), b)
    }

    /// The acquire half of a transfer to the recording queue's family: a
    /// barrier when the image is owned by another family, none otherwise.
    pub fn acquire(&mut self, cmd_family: u32) -> (b: Option<ImageBarrierInfo>)
        ensures
            final(self).moved(old(self), cmd_family),
            b == (if old(self).family_spec() != cmd_family {
                Some(image_barrier_spec(
                    old(self).handle_spec(),
                    ImageLayout::TransferDst,
                    ImageLayout::ShaderReadOnly,
                    Stage::Top,
                    Access::NoAccess,
                    Stage::Fragment,
                    Access::SampledRead,
                    old(self).family_spec(),
                    cmd_family,
                ))
            } else {
                None
            }),
    {
        if self.family == cmd_family {
            return None;
        }
        let b = image_barrier(
            self.handle,
            ImageLayout::TransferDst,
            ImageLayout::ShaderReadOnly,
            Stage::Top,
            Access::NoAccess,
            Stage::Fragment,
            Access::SampledRead,
            ImageAspect::Color,
            self.family,
            cmd_family,
        );
        self.family = cmd_family;
        Some(b)
    }

}

impl Image<ColorAttachment> {
    /// The color attachment is handed to presentation.
    pub fn into_present_src(self, cmd_family: u32) -> (r: (Image<PresentSrc>, ImageBarrierInfo))
        ensures
            r.0.moved(&self, cmd_family),
            r.1 == image_barrier_spec(
                self.handle_spec(),
                ImageLayout::ColorAttachment,
                ImageLayout::Present,
                Stage::ColorOutput,
                Access::ColorAttachmentWrite,
                Stage::Bottom,
                Access::NoAccess,
                QUEUE_FAMILY_IGNORED, QUEUE_FAMILY_IGNORED,
            ),
    {
        let b = image_barrier(
            self.handle,
            ImageLayout::ColorAttachment,
            ImageLayout::Present,
            Stage::ColorOutput,
            Access::ColorAttachmentWrite,
            Stage::Bottom,
            Access::NoAccess,
            ImageAspect::Color,
            QUEUE_FAMILY_IGNORED, QUEUE_FAMILY_IGNORED,
        );
        (self.moved_to(cmd_family), b)
    }

    /// The color attachment becomes sampled by fragment shaders.
    pub fn into_shader_read(self, cmd_family: u32) -> (r: (Image<ShaderReadOnly>, ImageBarrierInfo))
        ensures
            r.0.moved(&self, cmd_family),
            r.1 == image_barrier_spec(
                self.handle_spec(),
                ImageLayout::ColorAttachment,
                ImageLayout::ShaderReadOnly,
                Stage::ColorOutput,
                Access::ColorAttachmentWrite,
                Stage::Fragment,
                Access::SampledRead,
                QUEUE_FAMILY_IGNORED, QUEUE_FAMILY_IGNORED,
            ),
    {
        let b = image_barrier(
            self.handle,
            ImageLayout::ColorAttachment,
            ImageLayout::ShaderReadOnly,
            Stage::ColorOutput,
            Access::ColorAttachmentWrite,
            Stage::Fragment,
            Access::SampledRead,
            ImageAspect::Color,
            QUEUE_FAMILY_IGNORED, QUEUE_FAMILY_IGNORED,
        );
        (self.moved_to(cmd_family), b)
    }

    /// The color attachment becomes a transfer source.
    pub fn into_transfer_src(self, cmd_family: u32) -> (r: (Image<TransferSrc>, ImageBarrierInfo))
        ensures
            r.0.moved(&self, cmd_family),
            r.1 == image_barrier_spec(
                self.handle_spec(),
                ImageLayout::ColorAttachment,
                ImageLayout::TransferSrc,
                Stage::ColorOutput,
                Access::ColorAttachmentWrite,
                Stage::Transfer,
                Access::TransferRead,
                QUEUE_FAMILY_IGNORED, QUEUE_FAMILY_IGNORED,
            ),
    {
        let b = image_barrier(
            self.handle,
            ImageLayout::ColorAttachment,
            ImageLayout::TransferSrc,
            Stage::ColorOutput,
            Access::ColorAttachmentWrite,
            Stage::Transfer,
            Access::TransferRead,
            ImageAspect::Color,
            QUEUE_FAMILY_IGNORED, QUEUE_FAMILY_IGNORED,
        );
        (self.moved_to(cmd_family), b)
    }

}

impl Image<TransferSrc> {
    /// The transfer source becomes sampled by fragment shaders.
    pub fn into_shader_read(self, cmd_family: u32) -> (r: (Image<ShaderReadOnly>, ImageBarrierInfo))
        ensures
            r.0.moved(&self, cmd_family),
            r.1 == image_barrier_spec(
                self.handle_spec(),
                ImageLayout::TransferSrc,
                ImageLayout::ShaderReadOnly,
                Stage::Transfer,
                Access::TransferRead,
                Stage::Fragment,
                Access::SampledRead,
                QUEUE_FAMILY_IGNORED, QUEUE_FAMILY_IGNORED,
            ),
    {
        let b = image_barrier(
            self.handle,
            ImageLayout::TransferSrc,
            ImageLayout::ShaderReadOnly,
            Stage::Transfer,
            Access::TransferRead,
            Stage::Fragment,
            Access::SampledRead,
            ImageAspect::Color,
            QUEUE_FAMILY_IGNORED, QUEUE_FAMILY_IGNORED,
        );
        (self.moved_to(cmd_family), b)
    }

}

/// A swapchain image: the swapchain owns it.
pub struct SwapchainImage<S> {
    handle: u64,
    extent: Extent3D,
    _state: PhantomData<S>,
}

impl<S> SwapchainImage<S> {
    pub closed spec fn handle_spec(&self) -> u64 {
        self.handle
    }

    pub closed spec fn extent_spec(&self) -> (u32, u32, u32) {
        self.extent@
    }

    pub fn handle(&self) -> (h: u64)
        ensures
            h == self.handle_spec(),
    {
        self.handle
    }

    pub fn extent(&self) -> (e: Extent3D)
        ensures
            e@ == self.extent_spec(),
    {
        self.extent
    }

    fn retype<T>(self) -> (i: SwapchainImage<T>)
        ensures
            i.handle_spec() == self.handle_spec(),
            i.extent_spec() == self.extent_spec(),
    {
        SwapchainImage { handle: self.handle, extent: self.extent, _state: PhantomData }
    }
}

impl SwapchainImage<Undefined> {
    pub fn from_raw(handle: u64, extent: Extent2D) -> (i: Self)
        ensures
            i.handle_spec() == handle,
            i.extent_spec() == (extent@.0, extent@.1, 1u32),
    {
        SwapchainImage { handle, extent: Extent3D::new(extent.width(), extent.height(), 1), _state: PhantomData }
    }

    /// The acquired image becomes the frame's color attachment.
    pub fn into_color_attachment(self) -> (r: (SwapchainImage<ColorAttachment>, ImageBarrierInfo))
        ensures
            r.0.handle_spec() == self.handle_spec(),
            r.0.extent_spec() == self.extent_spec(),
            r.1 == image_barrier_spec(
                self.handle_spec(),
                ImageLayout::Undefined,
                ImageLayout::ColorAttachment,
                Stage::ColorOutput,
                Access::NoAccess,
                Stage::ColorOutput,
                Access::ColorAttachmentWrite,
                QUEUE_FAMILY_IGNORED,
                QUEUE_FAMILY_IGNORED,
            ),
    {
        let b = image_barrier(
            self.handle,
            ImageLayout::Undefined,
            ImageLayout::ColorAttachment,
            Stage::ColorOutput,
            Access::NoAccess,
            Stage::ColorOutput,
            Access::ColorAttachmentWrite,
            ImageAspect::Color,
            QUEUE_FAMILY_IGNORED,
            QUEUE_FAMILY_IGNORED,
        );
        (self.retype(), b)
    }
}

impl SwapchainImage<ColorAttachment> {
    /// The rendered image is handed to presentation.
    pub fn into_present_src(self) -> (r: (SwapchainImage<PresentSrc>, ImageBarrierInfo))
        ensures
            r.0.handle_spec() == self.handle_spec(),
            r.0.extent_spec() == self.extent_spec(),
            r.1 == image_barrier_spec(
                self.handle_spec(),
                ImageLayout::ColorAttachment,
                ImageLayout::Present,
                Stage::ColorOutput,
                Access::ColorAttachmentWrite,
                Stage::Bottom,
                Access::NoAccess,
                QUEUE_FAMILY_IGNORED,
                QUEUE_FAMILY_IGNORED,
            ),
    {
        let b = image_barrier(
            self.handle,
            ImageLayout::ColorAttachment,
            ImageLayout::Present,
            Stage::ColorOutput,
            Access::ColorAttachmentWrite,
            Stage::Bottom,
            Access::NoAccess,
            ImageAspect::Color,
            QUEUE_FAMILY_IGNORED,
            QUEUE_FAMILY_IGNORED,
        );
        (self.retype(), b)
    }
}

} // verus!
