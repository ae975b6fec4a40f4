//! The allocation policy on top of the per-thread arenas: memory type
//! selection, the size limit of an arena, the fast path from existing blocks
//! and the slow path through a new device block, and the channel through
//! which emptied blocks go back to the device.
use vstd::prelude::*;

use crate::arena::{alloc_fails, emptied_handles, reaped, skips, touches, Lifetime, SubAllocation, ThreadArena};
use crate::free_list::{bin_index, fits_class, MAX_NODES};
use crate::mapping::{flat_bin, search_bin};
use crate::device_select::{find_memory_type_index, memory_type_matches};
use crate::domain::ResourceKind;
use crate::free_list::request_search;
use crate::mapping::{is_pow2_u64, search_step, MIN_ALLOC};
use crate::return_queue::ReturnQueue;
use crate::types::{MemoryPropertyFlags, MemoryRequirements};

verus! {

/// Default size of a block that serves buffers.
pub const DEFAULT_BUFFER_BLOCK_SIZE: u64 = 134217728u64;

/// Default size of a block that serves images.
pub const DEFAULT_IMAGE_BLOCK_SIZE: u64 = 1048576u64;

/// Raw `VK_ERROR_OUT_OF_DEVICE_MEMORY`.
pub const ERROR_OUT_OF_DEVICE_MEMORY: i32 = -2i32;

/// Why an allocation failed.
#[derive(Debug, Clone, Copy, PartialEq, Eq, Structural)]
pub enum AllocationError {
    /// No memory type satisfied the requested property flags.
    NoSuitableMemoryType,
    /// The device refused to allocate a block; the raw Vulkan result.
    DeviceOom(i32),
    /// The allocation is larger than the block size of its kind.
    TooLargeForArena { size: u64, block_size: u64 },
}

/// Allocates and frees whole device blocks; a seam that tests replace.
/// Buffers and memories are raw handles.
pub trait BlockFactory {
    /// A new block of about `size` bytes of memory type `memory_type_index`:
    /// its buffer, its memory and its actual size, or the raw device error.
    fn allocate_block(&self, size: u64, memory_type_index: u32) -> Result<(u64, u64, u64), i32>;

    /// Gives a block back to the device.
    fn free_block(&self, buffer: u64, memory: u64);
}

/// The arena of one thread.
pub struct LocalArena {
    pub arena: ThreadArena,
}

impl LocalArena {
    pub fn new() -> (a: Self)
        ensures
            a.arena.wf(),
            a.arena.block_count() == 0,
            a.arena.queued().len() == 0,
            a.arena.deferred().len() == 0,
            a.arena.device_frees().len() == 0,
    {
        LocalArena { arena: ThreadArena::new() }
    }
}

/// What an allocation that succeeded hands out: `size` bytes, lifetime not
/// yet set, from a block of `kind` that the arena holds.
pub open spec fn served(arena: ThreadArena, a: SubAllocation, size: u64, kind: ResourceKind) -> bool {
    &&& a.spec_size() == size
    &&& a.spec_lifetime() == Lifetime::Unset
    &&& (a.spec_block_idx() as int) < arena.block_count()
    &&& arena.slot(a.spec_block_idx() as int) matches Some(b) && b.kind == kind && b.buffer == a.spec_buffer()
        && b.memory == a.spec_memory()
}

/// Some block of `arena` can serve `size` bytes at `align` for `kind`, and
/// a reap at timeline value `t` leaves it as it is: it hands something out
/// and no request ready by `t` names it.
pub open spec fn fast_path_serves(arena: ThreadArena, size: u64, align: u64, kind: ResourceKind, t: u64) -> bool {
    exists|j: int|
        0 <= j < arena.block_count() && #[trigger] arena.slot(j) is Some && arena.slot(j).unwrap().live_allocations > 0
            && !touches(arena.deferred() + arena.queued().reverse(), t, j, arena.generation(j)) && !skips(
            arena.slot(j),
            kind,
            size,
            align,
        )
}

/// The arena went from `before` to `after` through `mid`, the arena reaped
/// at `t`: the blocks the reap emptied went to the channel after what it
/// held and the device frees of `before`; the requests left waiting are
/// those of `mid`; and when a block of `mid` can serve the request, it is
/// served from the first such block.
pub open spec fn reaped_then_served(
    before: ThreadArena,
    mid: ThreadArena,
    after: ThreadArena,
    channel_before: Seq<(u64, u64)>,
    channel_after: Seq<(u64, u64)>,
    r: Result<SubAllocation, AllocationError>,
    size: u64,
    align: u64,
    kind: ResourceKind,
    t: u64,
) -> bool {
    &&& reaped(before, mid, t)
    &&& channel_after == channel_before + before.device_frees() + emptied_handles(before, mid, before.block_count())
    &&& after.deferred() == mid.deferred()
    &&& after.queued() == mid.queued()
    &&& (exists|j: int| 0 <= j < mid.block_count() && !skips(#[trigger] mid.slot(j), kind, size, align)) ==> (r matches Ok(a)
        && (a.spec_block_idx() as int) < mid.block_count() && !skips(mid.slot(a.spec_block_idx() as int), kind, size, align)
        && forall|j: int| 0 <= j < a.spec_block_idx() ==> skips(#[trigger] mid.slot(j), kind, size, align))
}

/// A fresh block of `block_size` bytes can serve `size` bytes at `align`.
pub open spec fn fresh_block_serves(block_size: u64, size: u64, align: u64) -> bool {
    &&& request_search(size, align) <= u64::MAX
    &&& bin_index(block_size) >= flat_bin(search_bin(request_search(size, align)))
}

/// Finishes the slow path of an allocation once the factory has answered
/// with `block`: a new block is added to the arena and the request is served
/// again. A device error is passed on; a block too small to hold a free
/// region, or an arena without a slot index left, counts as out of device
/// memory, and so does a retry that still finds no room.
pub fn serve_from_new_block(
    arena: &mut LocalArena,
    block: Result<(u64, u64, u64), i32>,
    size: u64,
    align: u64,
    kind: ResourceKind,
    gpu_t: u64,
) -> (r: Result<SubAllocation, AllocationError>)
    requires
        old(arena).arena.wf(),
        is_pow2_u64(align),
        size <= u64::MAX - 15,
        request_search(size, align) > u64::MAX || request_search(size, align) + search_step(
            request_search(size, align),
        ) - 1 <= u64::MAX,
    ensures
        final(arena).arena.wf(),
        final(arena).arena.queued() == old(arena).arena.queued(),
        final(arena).arena.deferred() == old(arena).arena.deferred(),
        final(arena).arena.device_frees() == old(arena).arena.device_frees(),
        block matches Err(e) ==> r == Err::<SubAllocation, AllocationError>(AllocationError::DeviceOom(e)),
        (block matches Ok((_, _, s)) && (s < MIN_ALLOC || old(arena).arena.block_count() >= u32::MAX))
            ==> r == Err::<SubAllocation, AllocationError>(AllocationError::DeviceOom(ERROR_OUT_OF_DEVICE_MEMORY)),
        (block matches Ok((_, _, s)) && s >= MIN_ALLOC && old(arena).arena.block_count() < u32::MAX
            && fresh_block_serves(s, size, align)) ==> r is Ok,
        r matches Ok(a) ==> served(final(arena).arena, a, size, kind),
        r matches Err(e) ==> e matches AllocationError::DeviceOom(_),
{
    match block {
        Err(e) => Err(AllocationError::DeviceOom(e)),
        Ok((buffer, mem, actual_size)) => {
            if actual_size < MIN_ALLOC || arena.arena.slot_count() >= 0xffff_ffffusize {
                return Err(AllocationError::DeviceOom(ERROR_OUT_OF_DEVICE_MEMORY));
            }
            let ghost before = arena.arena;
            arena.arena.inject_new_block(buffer, mem, actual_size, kind);
            let ghost injected = arena.arena;
            let res = arena.arena.allocate(size, align, kind, gpu_t);
            proof {
                if fresh_block_serves(actual_size, size, align) {
                    let n = before.free_slots().len();
                    let idx: int = if n > 0 { before.free_slots()[n - 1] as int } else { before.block_count() as int };
                    let fb = injected.slot(idx).unwrap();
                    assert(fits_class(fb.free_list@, 0, flat_bin(search_bin(request_search(size, align)))));
                    assert(!alloc_fails(fb.free_list, size, align));
                    assert(!skips(injected.slot(idx), kind, size, align));
                    assert(0 <= idx < injected.block_count());
                    assert(res is Some);
                }
            }
            match res {
                Some(a) => Ok(a),
                None => Err(AllocationError::DeviceOom(ERROR_OUT_OF_DEVICE_MEMORY)),
            }
        },
    }
}

/// Factory, memory types, block sizes, and the blocks waiting to go back to
/// the device.
pub struct GpuAllocator<F: BlockFactory> {
    factory: F,
    memory_types: Vec<MemoryPropertyFlags>,
    buffer_block_size: u64,
    image_block_size: u64,
    free_channel: ReturnQueue<(u64, u64)>,
}

impl<F: BlockFactory> GpuAllocator<F> {
    pub closed spec fn spec_memory_types(&self) -> Seq<MemoryPropertyFlags> {
        self.memory_types@
    }

    pub closed spec fn block_size_of(&self, kind: ResourceKind) -> u64 {
        match kind {
            ResourceKind::Buffer => self.buffer_block_size,
            ResourceKind::Image => self.image_block_size,
        }
    }

    /// Blocks waiting for `flush_device_frees`: buffer and memory.
    pub closed spec fn channel(&self) -> Seq<(u64, u64)> {
        self.free_channel@
    }

    pub closed spec fn wf(&self) -> bool {
        self.memory_types@.len() <= 32
    }

    /// An allocator over `factory` for a device with the given memory types.
    pub fn with_factory(
        factory: F,
        memory_types: Vec<MemoryPropertyFlags>,
        buffer_block_size: u64,
        image_block_size: u64,
    ) -> (a: Self)
        requires
            memory_types@.len() <= 32,
        ensures
            a.wf(),
            a.spec_memory_types() == memory_types@,
            a.block_size_of(ResourceKind::Buffer) == buffer_block_size,
            a.block_size_of(ResourceKind::Image) == image_block_size,
            a.channel().len() == 0,
    {
        GpuAllocator {
            factory,
            memory_types,
            buffer_block_size,
            image_block_size,
            free_channel: ReturnQueue::new(),
        }
    }

    /// An allocator with the given block sizes.
    pub fn new_with_block_sizes(
        factory: F,
        memory_types: Vec<MemoryPropertyFlags>,
        buffer_block_size: u64,
        image_block_size: u64,
    ) -> (a: Self)
        requires
            memory_types@.len() <= 32,
        ensures
            a.wf(),
            a.spec_memory_types() == memory_types@,
            a.block_size_of(ResourceKind::Buffer) == buffer_block_size,
            a.block_size_of(ResourceKind::Image) == image_block_size,
            a.channel().len() == 0,
    {
        Self::with_factory(factory, memory_types, buffer_block_size, image_block_size)
    }

    /// An allocator with the default block sizes.
    pub fn new(factory: F, memory_types: Vec<MemoryPropertyFlags>) -> (a: Self)
        requires
            memory_types@.len() <= 32,
        ensures
            a.wf(),
            a.spec_memory_types() == memory_types@,
            a.block_size_of(ResourceKind::Buffer) == DEFAULT_BUFFER_BLOCK_SIZE,
            a.block_size_of(ResourceKind::Image) == DEFAULT_IMAGE_BLOCK_SIZE,
            a.channel().len() == 0,
    {
        Self::with_factory(factory, memory_types, DEFAULT_BUFFER_BLOCK_SIZE, DEFAULT_IMAGE_BLOCK_SIZE)
    }

    /// The first memory type allowed by `type_filter` that has every flag
    /// of `required_flags`.
    pub fn find_memory_type(&self, type_filter: u32, required_flags: MemoryPropertyFlags) -> (r: Option<u32>)
        requires
            self.wf(),
        ensures
            r matches Some(i) ==> memory_type_matches(self.spec_memory_types(), type_filter, required_flags, i as int)
                && forall|j: int| 0 <= j < i ==> !memory_type_matches(self.spec_memory_types(), type_filter, required_flags, j),
            r is None ==> forall|j: int| 0 <= j < self.spec_memory_types().len() ==> !memory_type_matches(
                self.spec_memory_types(),
                type_filter,
                required_flags,
                j,
            ),
    {
        find_memory_type_index(&self.memory_types, type_filter, required_flags)
    }

    pub fn buffer_block_size(&self) -> (r: u64)
        ensures
            r == self.block_size_of(ResourceKind::Buffer),
    {
        self.buffer_block_size
    }

    pub fn image_block_size(&self) -> (r: u64)
        ensures
            r == self.block_size_of(ResourceKind::Image),
    {
        self.image_block_size
    }

    pub fn pending_device_frees_is_empty(&self) -> (r: bool)
        ensures
            r == (self.channel().len() == 0),
    {
        self.free_channel.is_empty()
    }

    fn block_size_for(&self, kind: ResourceKind) -> (r: u64)
        ensures
            r == self.block_size_of(kind),
    {
        match kind {
            ResourceKind::Buffer => self.buffer_block_size,
            ResourceKind::Image => self.image_block_size,
        }
    }

    /// Reaps `arena` at timeline value `gpu_t` and moves the blocks it
    /// emptied into the channel, in order.
    pub fn reap(&mut self, arena: &mut LocalArena, gpu_t: u64)
        requires
            old(arena).arena.wf(),
        ensures
            final(arena).arena.wf(),
            final(arena).arena.device_frees().len() == 0,
            final(self).channel() == old(self).channel() + old(arena).arena.device_frees()
                + crate::arena::emptied_handles(old(arena).arena, final(arena).arena, old(arena).arena.block_count()),
            final(arena).arena.block_count() == old(arena).arena.block_count(),
            forall|j: int|
                0 <= j < old(arena).arena.block_count() ==> final(arena).arena.generation(j) == old(arena).arena.generation(j),
            forall|j: int|
                #![trigger old(arena).arena.slot(j)]
                0 <= j < old(arena).arena.block_count() && old(arena).arena.slot(j) is Some
                    && old(arena).arena.slot(j).unwrap().live_allocations > 0 && !touches(
                    old(arena).arena.deferred() + old(arena).arena.queued().reverse(),
                    gpu_t,
                    j,
                    old(arena).arena.generation(j),
                ) ==> final(arena).arena.slot(j) == old(arena).arena.slot(j),
            reaped(old(arena).arena, final(arena).arena, gpu_t),
            final(self).spec_memory_types() == old(self).spec_memory_types(),
            forall|k: ResourceKind| final(self).block_size_of(k) == old(self).block_size_of(k),
            final(self).wf() == old(self).wf(),
    {
        arena.arena.reap(gpu_t);
        let ghost reaped = arena.arena;
        let ghost start = self.free_channel@;
        let frees = arena.arena.take_device_frees();
        let mut k: usize = 0;
        while k < frees.len()
            invariant
                k <= frees@.len(),
                self.free_channel@ == start + frees@.take(k as int),
                self.memory_types@ == old(self).memory_types@,
                self.buffer_block_size == old(self).buffer_block_size,
                self.image_block_size == old(self).image_block_size,
            decreases frees@.len() - k,
        {
            self.free_channel.push(frees[k]);
            k = k + 1;
            proof {
                assert(self.free_channel@ =~= start + frees@.take(k as int));
            }
        }
        proof {
            assert(frees@.take(frees@.len() as int) == frees@);
            assert forall|j: int| 0 <= j < old(arena).arena.block_count() implies #[trigger] reaped.slot(j) == arena.arena.slot(j) by {}
            assert forall|j: int| 0 <= j < old(arena).arena.block_count() implies #[trigger] arena.arena.generation(j)
                == old(arena).arena.generation(j) by {
                assert(arena.arena.slot(j) == reaped.slot(j));
            }
            crate::arena::lemma_emptied_same_after(old(arena).arena, reaped, arena.arena, old(arena).arena.block_count());
            assert(self.free_channel@ =~= start + (old(arena).arena.device_frees()
                + crate::arena::emptied_handles(old(arena).arena, arena.arena, old(arena).arena.block_count())));
        }
    }

    /// Serves `size` bytes at `align` for a resource of `kind` from memory
    /// type `memory_type_index`: refused when larger than the kind's block
    /// size; otherwise the arena is reaped, an existing block is tried, and
    /// only then a new block is asked of the factory.
    pub fn allocate_raw(
        &mut self,
        arena: &mut LocalArena,
        size: u64,
        align: u64,
        memory_type_index: u32,
        kind: ResourceKind,
        gpu_t: u64,
    ) -> (r: Result<SubAllocation, AllocationError>)
        requires
            old(arena).arena.wf(),
            is_pow2_u64(align),
            size <= u64::MAX - 15,
            request_search(size, align) > u64::MAX || request_search(size, align) + search_step(
                request_search(size, align),
            ) - 1 <= u64::MAX,
        ensures
            final(arena).arena.wf(),
            final(self).spec_memory_types() == old(self).spec_memory_types(),
            forall|k: ResourceKind| final(self).block_size_of(k) == old(self).block_size_of(k),
            final(self).wf() == old(self).wf(),
            size > old(self).block_size_of(kind) <==> r == Err::<SubAllocation, AllocationError>(
                AllocationError::TooLargeForArena { size, block_size: old(self).block_size_of(kind) },
            ),
            size > old(self).block_size_of(kind) ==> *final(arena) == *old(arena) && final(self).channel() == old(self).channel(),
            r matches Ok(a) ==> served(final(arena).arena, a, size, kind),
            r matches Err(e) ==> (e matches AllocationError::DeviceOom(_)) || size > old(self).block_size_of(kind),
            size <= old(self).block_size_of(kind) && fast_path_serves(old(arena).arena, size, align, kind, gpu_t) ==> r is Ok,
            size <= old(self).block_size_of(kind) ==> exists|mid: ThreadArena| reaped_then_served(
                old(arena).arena,
                mid,
                final(arena).arena,
                old(self).channel(),
                final(self).channel(),
                r,
                size,
                align,
                kind,
                gpu_t,
            ),
    {
        let block_size = self.block_size_for(kind);
        if size > block_size {
            return Err(AllocationError::TooLargeForArena { size, block_size });
        }
        let ghost before = arena.arena;
        self.reap(arena, gpu_t);
        proof {
            if fast_path_serves(before, size, align, kind, gpu_t) {
                let j = choose|j: int|
                    0 <= j < before.block_count() && #[trigger] before.slot(j) is Some && before.slot(j).unwrap().live_allocations
                        > 0 && !touches(before.deferred() + before.queued().reverse(), gpu_t, j, before.generation(j)) && !skips(
                        before.slot(j),
                        kind,
                        size,
                        align,
                    );
                assert(arena.arena.slot(j) == before.slot(j));
                assert(!skips(arena.arena.slot(j), kind, size, align));
            }
        }
        let ghost mid = arena.arena;
        let ghost channel_mid = self.free_channel@;
        let fast = arena.arena.allocate(size, align, kind, gpu_t);
        if let Some(sub) = fast {
            proof {
                assert(reaped_then_served(
                    before,
                    mid,
                    arena.arena,
                    old(self).channel(),
                    self.channel(),
                    Ok::<SubAllocation, AllocationError>(sub),
                    size,
                    align,
                    kind,
                    gpu_t,
                ));
            }
            return Ok(sub);
        }
        let block = self.factory.allocate_block(block_size, memory_type_index);
        let res = serve_from_new_block(arena, block, size, align, kind, gpu_t);
        proof {
            assert(!(exists|j: int| 0 <= j < mid.block_count() && !skips(#[trigger] mid.slot(j), kind, size, align)));
            assert(reaped_then_served(before, mid, arena.arena, old(self).channel(), self.channel(), res, size, align, kind, gpu_t));
        }
        res
    }

    /// Serves a resource's memory requirements from the first memory type
    /// that they allow and that has `property_flags`.
    pub fn allocate(
        &mut self,
        arena: &mut LocalArena,
        requirements: MemoryRequirements,
        property_flags: MemoryPropertyFlags,
        kind: ResourceKind,
        gpu_t: u64,
    ) -> (r: Result<SubAllocation, AllocationError>)
        requires
            old(self).wf(),
            old(arena).arena.wf(),
            is_pow2_u64(requirements.alignment),
            requirements.size <= u64::MAX - 15,
            request_search(requirements.size, requirements.alignment) > u64::MAX || request_search(
                requirements.size,
                requirements.alignment,
            ) + search_step(request_search(requirements.size, requirements.alignment)) - 1 <= u64::MAX,
        ensures
            final(arena).arena.wf(),
            final(self).wf(),
            r == Err::<SubAllocation, AllocationError>(AllocationError::NoSuitableMemoryType) <==> forall|j: int|
                0 <= j < old(self).spec_memory_types().len() ==> !memory_type_matches(
                    old(self).spec_memory_types(),
                    requirements.memory_type_bits,
                    property_flags,
                    j,
                ),
            r == Err::<SubAllocation, AllocationError>(AllocationError::TooLargeForArena {
                size: requirements.size,
                block_size: old(self).block_size_of(kind),
            }) <==> (exists|j: int| memory_type_matches(old(self).spec_memory_types(), requirements.memory_type_bits, property_flags, j))
                && requirements.size > old(self).block_size_of(kind),
            r matches Ok(a) ==> served(final(arena).arena, a, requirements.size, kind),
    {
        let memory_type_index = match self.find_memory_type(requirements.memory_type_bits, property_flags) {
            Some(i) => i,
            None => {
                return Err(AllocationError::NoSuitableMemoryType);
            },
        };
        self.allocate_raw(arena, requirements.size, requirements.alignment, memory_type_index, kind, gpu_t)
    }

    /// Gives every block in the channel back to the device, in order; the
    /// channel is left empty.
    pub fn flush_device_frees(&mut self)
        ensures
            final(self).channel().len() == 0,
            final(self).spec_memory_types() == old(self).spec_memory_types(),
            forall|k: ResourceKind| final(self).block_size_of(k) == old(self).block_size_of(k),
            final(self).wf() == old(self).wf(),
    {
        let mut drained = self.free_channel.drain();
        let items = drained.collect();
        let mut k: usize = 0;
        while k < items.len()
            invariant
                k <= items@.len(),
                self.free_channel@.len() == 0,
                self.memory_types@ == old(self).memory_types@,
                self.buffer_block_size == old(self).buffer_block_size,
                self.image_block_size == old(self).image_block_size,
            decreases items@.len() - k,
        {
            let (buffer, memory) = items[k];
            self.factory.free_block(buffer, memory);
            k = k + 1;
        }
    }
}

} // verus!
