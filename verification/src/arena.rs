//! Per-thread sub-allocation arena: device memory blocks carved by a TLSF
//! free list, with frees deferred until the GPU timeline has passed their
//! last use and generation checks against reused block slots.
use vstd::prelude::*;

use crate::domain::ResourceKind;
use crate::free_list::{
    carve, carve_offset, carve_size, fits_class, freed, nodes_kept_around, release, request_search, request_size, FreeList,
    MAX_NODES,
};
use crate::mapping::{flat_bin, is_pow2_u64, search_bin, search_step, MIN_ALLOC};
use crate::return_queue::ReturnQueue;

verus! {

/// When the GPU is done with an allocation: not yet known, or once the
/// timeline reaches the value.
#[derive(Debug, Clone, Copy, PartialEq, Eq, Structural)]
pub enum Lifetime {
    Unset,
    Submitted(u64),
}

/// A request to give an allocation back to its block.
#[derive(Debug, Clone, Copy)]
pub struct FreeRequest {
    pub block_idx: u32,
    pub node_idx: u32,
    pub generation: u32,
    pub lifetime: Lifetime,
}

/// A range of a block handed out by the arena. It is given back through
/// `ThreadArena::return_allocation` once its lifetime is set.
#[derive(Debug)]
pub struct SubAllocation {
    buffer: u64,
    memory: u64,
    offset: u64,
    size: u64,
    block_idx: u32,
    node_idx: u32,
    generation: u32,
    lifetime: Lifetime,
}

impl SubAllocation {
    pub closed spec fn spec_buffer(&self) -> u64 {
        self.buffer
    }

    pub closed spec fn spec_memory(&self) -> u64 {
        self.memory
    }

    pub closed spec fn spec_offset(&self) -> u64 {
        self.offset
    }

    pub closed spec fn spec_size(&self) -> u64 {
        self.size
    }

    pub closed spec fn spec_block_idx(&self) -> u32 {
        self.block_idx
    }

    pub closed spec fn spec_node_idx(&self) -> u32 {
        self.node_idx
    }

    pub closed spec fn spec_generation(&self) -> u32 {
        self.generation
    }

    pub closed spec fn spec_lifetime(&self) -> Lifetime {
        self.lifetime
    }

    /// Records the timeline value after which the GPU no longer uses the
    /// allocation. It is set once, and the value 0 means "never submitted".
    pub fn finalize_lifetime(&mut self, t: u64)
        requires
            old(self).spec_lifetime() == Lifetime::Unset,
            t > 0,
        ensures
            final(self).spec_lifetime() == Lifetime::Submitted(t),
            final(self).spec_buffer() == old(self).spec_buffer(),
            final(self).spec_memory() == old(self).spec_memory(),
            final(self).spec_offset() == old(self).spec_offset(),
            final(self).spec_size() == old(self).spec_size(),
            final(self).spec_block_idx() == old(self).spec_block_idx(),
            final(self).spec_node_idx() == old(self).spec_node_idx(),
            final(self).spec_generation() == old(self).spec_generation(),
    {
        self.lifetime = Lifetime::Submitted(t);
    }

    pub fn memory(&self) -> (r: u64)
        ensures
            r == self.spec_memory(),
    {
        self.memory
    }

    pub fn offset(&self) -> (r: u64)
        ensures
            r == self.spec_offset(),
    {
        self.offset
    }

    pub fn size(&self) -> (r: u64)
        ensures
            r == self.spec_size(),
    {
        self.size
    }

    pub fn block_idx(&self) -> (r: u32)
        ensures
            r == self.spec_block_idx(),
    {
        self.block_idx
    }

    pub fn buffer(&self) -> (r: u64)
        ensures
            r == self.spec_buffer(),
    {
        self.buffer
    }

    /// The request that gives this allocation back.
    pub fn free_request(&self) -> (r: FreeRequest)
        ensures
            r == (FreeRequest {
                block_idx: self.spec_block_idx(),
                node_idx: self.spec_node_idx(),
                generation: self.spec_generation(),
                lifetime: self.spec_lifetime(),
            }),
    {
        FreeRequest {
            block_idx: self.block_idx,
            node_idx: self.node_idx,
            generation: self.generation,
            lifetime: self.lifetime,
        }
    }
}

/// One device memory block and the free list that carves it.
pub struct ArenaBlock {
    pub memory: u64,
    pub buffer: u64,
    pub kind: ResourceKind,
    pub free_list: FreeList,
    pub live_allocations: u32,
}

/// Number of regions handed out.
pub open spec fn used_count(r: Seq<(u64, u64, bool)>) -> nat
    decreases r.len(),
{
    if r.len() == 0 {
        0
    } else {
        used_count(r.drop_last()) + if r.last().2 {
            0nat
        } else {
            1nat
        }
    }
}

proof fn lemma_used_count_append(a: Seq<(u64, u64, bool)>, b: Seq<(u64, u64, bool)>)
    ensures
        used_count(a + b) == used_count(a) + used_count(b),
    decreases b.len(),
{
    if b.len() == 0 {
        assert(a + b =~= a);
    } else {
        assert((a + b).drop_last() =~= a + b.drop_last());
        lemma_used_count_append(a, b.drop_last());
    }
}

proof fn lemma_used_count_le(r: Seq<(u64, u64, bool)>)
    ensures
        used_count(r) <= r.len(),
    decreases r.len(),
{
    if r.len() > 0 {
        lemma_used_count_le(r.drop_last());
    }
}

/// Serving a request from a free region hands out exactly one more region.
proof fn lemma_used_count_carve(r: Seq<(u64, u64, bool)>, i: int, req: int, a: int)
    requires
        0 <= i < r.len(),
        r[i].2,
    ensures
        used_count(carve(r, i, req, a)) == used_count(r) + 1,
{
    let off = r[i].0 as int;
    let aoff = carve_offset(r, i, a);
    let pad = aoff - off;
    let rest = r[i].1 - pad;
    let front = if pad > 0 {
        seq![(off as u64, pad as u64, true)]
    } else {
        Seq::<(u64, u64, bool)>::empty()
    };
    let tail = if rest - req >= 16 {
        seq![((aoff + req) as u64, (rest - req) as u64, true)]
    } else {
        Seq::<(u64, u64, bool)>::empty()
    };
    let mid = seq![(aoff as u64, carve_size(r, i, req, a) as u64, false)];
    assert(used_count(front) == 0) by {
        if pad > 0 {
            lemma_used_count_single((off as u64, pad as u64, true));
        }
    }
    assert(used_count(tail) == 0) by {
        if rest - req >= 16 {
            lemma_used_count_single(((aoff + req) as u64, (rest - req) as u64, true));
        }
    }
    lemma_used_count_single((aoff as u64, carve_size(r, i, req, a) as u64, false));
    lemma_used_count_single(r[i]);
    lemma_used_count_append(r.take(i), front);
    lemma_used_count_append(r.take(i) + front, mid);
    lemma_used_count_append(r.take(i) + front + mid, tail);
    lemma_used_count_append(r.take(i) + front + mid + tail, r.skip(i + 1));
    lemma_used_count_append(r.take(i), seq![r[i]]);
    lemma_used_count_append(r.take(i) + seq![r[i]], r.skip(i + 1));
    assert(r =~= r.take(i) + seq![r[i]] + r.skip(i + 1));
}

proof fn lemma_used_count_all_free(r: Seq<(u64, u64, bool)>)
    requires
        forall|k: int| 0 <= k < r.len() ==> (#[trigger] r[k]).2,
    ensures
        used_count(r) == 0,
    decreases r.len(),
{
    if r.len() > 0 {
        lemma_used_count_all_free(r.drop_last());
    }
}

/// Freeing a handed-out region, merged with its free neighbours, leaves one
/// region fewer handed out.
proof fn lemma_used_count_release(r: Seq<(u64, u64, bool)>, i: int)
    requires
        0 <= i < r.len(),
        !r[i].2,
    ensures
        used_count(release(r, i)) + 1 == used_count(r),
{
    let lo = if i > 0 && r[i - 1].2 { i - 1 } else { i };
    let hi = if i + 1 < r.len() && r[i + 1].2 { i + 1 } else { i };
    let start = r[lo].0;
    let end = r[hi].0 + r[hi].1;
    let merged = seq![(start, (end - start) as u64, true)];
    let left = r.subrange(lo, i);
    let right = r.subrange(i + 1, hi + 1);
    lemma_used_count_all_free(left);
    lemma_used_count_all_free(right);
    lemma_used_count_single(r[i]);
    lemma_used_count_single((start, (end - start) as u64, true));
    assert(r =~= r.take(lo) + left + seq![r[i]] + right + r.skip(hi + 1));
    lemma_used_count_append(r.take(lo), left);
    lemma_used_count_append(r.take(lo) + left, seq![r[i]]);
    lemma_used_count_append(r.take(lo) + left + seq![r[i]], right);
    lemma_used_count_append(r.take(lo) + left + seq![r[i]] + right, r.skip(hi + 1));
    lemma_used_count_append(r.take(lo), merged);
    lemma_used_count_append(r.take(lo) + merged, r.skip(hi + 1));
}

proof fn lemma_used_count_single(x: (u64, u64, bool))
    ensures
        used_count(seq![x]) == (if x.2 { 0nat } else { 1nat }),
{
    let s = seq![x];
    assert(s.drop_last() =~= Seq::<(u64, u64, bool)>::empty());
    assert(used_count(Seq::<(u64, u64, bool)>::empty()) == 0);
    assert(s.last() == x);
}

/// The free list has no room for `size` bytes at `align`.
pub open spec fn alloc_fails(fl: FreeList, size: u64, align: u64) -> bool {
    request_search(size, align) > u64::MAX || fl.spec_node_count() + 2 > MAX_NODES || forall|j: int|
        0 <= j < fl@.len() ==> !fits_class(fl@, j, flat_bin(search_bin(request_search(size, align))))
}

/// `after` is `before` once it served `size` bytes at `align` with `res`:
/// the chosen free region is carved, the rest of the block is untouched.
pub open spec fn alloc_from(before: FreeList, after: FreeList, size: u64, align: u64, res: (u64, u32)) -> bool {
    &&& after.wf()
    &&& after.spec_block_size() == before.spec_block_size()
    &&& exists|i: int|
        #![trigger before@[i]]
        before.alloc_ok(size, align, i) && res.0 == carve_offset(before@, i, align as int) && after@ == carve(
            before@,
            i,
            request_size(size),
            align as int,
        ) && after.spec_free_bytes() == before.spec_free_bytes() - carve_size(
            before@,
            i,
            request_size(size),
            align as int,
        ) && after.node_at(if carve_offset(before@, i, align as int) > before@[i].0 { i + 1 } else { i }) == res.1
            && nodes_kept_around(before, after, i, i)
}

/// Slot `i` holds a block of `kind` that cannot serve the request.
pub open spec fn skips(slot: Option<ArenaBlock>, kind: ResourceKind, size: u64, align: u64) -> bool {
    match slot {
        Some(b) => b.kind != kind || alloc_fails(b.free_list, size, align),
        None => true,
    }
}

/// The GPU timeline has reached the request's lifetime.
pub open spec fn is_ready(req: FreeRequest, t: u64) -> bool {
    match req.lifetime {
        Lifetime::Unset => false,
        Lifetime::Submitted(v) => v <= t,
    }
}

/// The requests that still wait for the timeline, in order.
pub open spec fn still_waiting(reqs: Seq<FreeRequest>, t: u64) -> Seq<FreeRequest>
    decreases reqs.len(),
{
    if reqs.len() == 0 {
        Seq::empty()
    } else {
        let w = still_waiting(reqs.drop_last(), t);
        if is_ready(reqs.last(), t) {
            w
        } else {
            w.push(reqs.last())
        }
    }
}

/// Some request that the timeline `t` has reached targets slot `idx` in
/// generation `generation`.
pub open spec fn touches(reqs: Seq<FreeRequest>, t: u64, idx: int, generation: u32) -> bool {
    exists|k: int| 0 <= k < reqs.len() && is_ready(#[trigger] reqs[k], t) && reqs[k].block_idx == idx && reqs[k].generation == generation
}

/// Some request targets slot `idx` in generation `generation`.
pub open spec fn waits_on(reqs: Seq<FreeRequest>, idx: u32, generation: u32) -> bool {
    exists|k: int| 0 <= k < reqs.len() && (#[trigger] reqs[k]).block_idx == idx && reqs[k].generation == generation
}

/// The slots among the first `n` that held a block in `before` and hold none
/// in `after`, in slot order.
pub open spec fn emptied_slots(before: ThreadArena, after: ThreadArena, n: nat) -> Seq<u32>
    decreases n,
{
    if n == 0 {
        Seq::empty()
    } else {
        let p = emptied_slots(before, after, (n - 1) as nat);
        if before.slot(n - 1) is Some && after.slot(n - 1) is None {
            p.push((n - 1) as u32)
        } else {
            p
        }
    }
}

/// The buffer and memory of the blocks emptied among the first `n` slots.
pub open spec fn emptied_handles(before: ThreadArena, after: ThreadArena, n: nat) -> Seq<(u64, u64)>
    decreases n,
{
    if n == 0 {
        Seq::empty()
    } else {
        let p = emptied_handles(before, after, (n - 1) as nat);
        if before.slot(n - 1) is Some && after.slot(n - 1) is None {
            p.push((before.slot(n - 1).unwrap().buffer, before.slot(n - 1).unwrap().memory))
        } else {
            p
        }
    }
}

/// The two arenas have the same slots, generations and blocks, up to the
/// regions of each block's free list and its live count.
pub open spec fn same_shape(a: ThreadArena, b: ThreadArena) -> bool {
    &&& a.block_count() == b.block_count()
    &&& forall|j: int| 0 <= j < a.block_count() ==> a.generation(j) == b.generation(j)
    &&& forall|j: int| 0 <= j < a.block_count() ==> (#[trigger] a.slot(j) is Some) == (b.slot(j) is Some)
    &&& forall|j: int|
        0 <= j < a.block_count() && (#[trigger] a.slot(j) is Some) ==> {
            let x = a.slot(j).unwrap();
            let y = b.slot(j).unwrap();
            &&& x.buffer == y.buffer
            &&& x.memory == y.memory
            &&& x.kind == y.kind
            &&& x.free_list.spec_block_size() == y.free_list.spec_block_size()
        }
}

fn has_request(reqs: &Vec<FreeRequest>, idx: u32, generation: u32) -> (b: bool)
    ensures
        b == waits_on(reqs@, idx, generation),
{
    let mut k: usize = 0;
    while k < reqs.len()
        invariant
            k <= reqs@.len(),
            forall|j: int| 0 <= j < k ==> !((#[trigger] reqs@[j]).block_idx == idx && reqs@[j].generation == generation),
        decreases reqs@.len() - k,
    {
        if reqs[k].block_idx == idx && reqs[k].generation == generation {
            return true;
        }
        k = k + 1;
    }
    false
}

/// The emptied slots among the first `n` depend only on those slots.
proof fn lemma_emptied_frame(before: ThreadArena, a1: ThreadArena, a2: ThreadArena, n: nat)
    requires
        forall|j: int| 0 <= j < n ==> (#[trigger] a1.slot(j)) == a2.slot(j),
    ensures
        emptied_slots(before, a1, n) == emptied_slots(before, a2, n),
        emptied_handles(before, a1, n) == emptied_handles(before, a2, n),
    decreases n,
{
    if n > 0 {
        lemma_emptied_frame(before, a1, a2, (n - 1) as nat);
    }
}

proof fn lemma_same_shape_trans(a: ThreadArena, b: ThreadArena, c: ThreadArena)
    requires
        same_shape(a, b),
        same_shape(b, c),
    ensures
        same_shape(a, c),
{
    assert forall|j: int| 0 <= j < a.block_count() && (#[trigger] a.slot(j) is Some) implies {
        let x = a.slot(j).unwrap();
        let y = c.slot(j).unwrap();
        &&& x.buffer == y.buffer
        &&& x.memory == y.memory
        &&& x.kind == y.kind
        &&& x.free_list.spec_block_size() == y.free_list.spec_block_size()
    } by {
        assert(b.slot(j) is Some);
    }
}

/// Emptied slots and their handles only depend on which slots hold a block
/// before, and on their buffers and memories.
proof fn lemma_emptied_shape(a: ThreadArena, b: ThreadArena, after: ThreadArena, n: nat)
    requires
        same_shape(a, b),
        n <= a.block_count(),
    ensures
        emptied_slots(a, after, n) == emptied_slots(b, after, n),
        emptied_handles(a, after, n) == emptied_handles(b, after, n),
    decreases n,
{
    if n > 0 {
        lemma_emptied_shape(a, b, after, (n - 1) as nat);
        let j = n - 1;
        if a.slot(j) is Some {
            assert(b.slot(j) is Some);
        } else {
            assert(b.slot(j) is None);
        }
    }
}

/// Emptied slots and handles depend only on the slots of `after`.
pub proof fn lemma_emptied_same_after(before: ThreadArena, a1: ThreadArena, a2: ThreadArena, n: nat)
    requires
        forall|j: int| 0 <= j < n ==> (#[trigger] a1.slot(j)) == a2.slot(j),
    ensures
        emptied_slots(before, a1, n) == emptied_slots(before, a2, n),
        emptied_handles(before, a1, n) == emptied_handles(before, a2, n),
{
    lemma_emptied_frame(before, a1, a2, n);
}

/// A block is consistent: its free list is well formed and its count of live
/// allocations is the number of regions handed out.
pub open spec fn block_ok(b: ArenaBlock) -> bool {
    b.free_list.wf() && b.live_allocations as nat == used_count(b.free_list@)
}

/// `req` names a block of its generation that holds a block and hands out
/// the region of node `req.node_idx`.
pub open spec fn request_applies(a: ThreadArena, req: FreeRequest) -> bool {
    &&& (req.block_idx as int) < a.block_count()
    &&& a.generation(req.block_idx as int) == req.generation
    &&& a.slot(req.block_idx as int) matches Some(b) && b.free_list.is_live(req.node_idx)
}

/// `after` is block `b` once the region of node `node` came back: the same
/// block, with that region freed and one allocation fewer handed out.
pub open spec fn request_applied(b: ArenaBlock, after: Option<ArenaBlock>, node: u32) -> bool {
    after matches Some(nb) && nb.buffer == b.buffer && nb.memory == b.memory && nb.kind == b.kind
        && nb.live_allocations + 1 == b.live_allocations && freed(b.free_list, nb.free_list, node)
}

/// `after` is slot `slot` (index `idx`, generation `generation`) once a
/// reap at timeline value `t` looked at request `req`: a ready request for
/// this slot and generation that names a region the block hands out frees
/// it; any other request leaves the slot as it is.
pub open spec fn reap_step(
    slot: Option<ArenaBlock>,
    after: Option<ArenaBlock>,
    req: FreeRequest,
    t: u64,
    idx: int,
    generation: u32,
) -> bool {
    if is_ready(req, t) && req.block_idx == idx && req.generation == generation && slot is Some
        && slot.unwrap().free_list.is_live(req.node_idx) {
        request_applied(slot.unwrap(), after, req.node_idx)
    } else {
        after == slot
    }
}

/// `after` is slot `slot` once a reap at timeline value `t` looked at the
/// requests `reqs`, in order.
pub open spec fn reaped_slot(
    slot: Option<ArenaBlock>,
    after: Option<ArenaBlock>,
    reqs: Seq<FreeRequest>,
    t: u64,
    idx: int,
    generation: u32,
) -> bool
    decreases reqs.len(),
{
    if reqs.len() == 0 {
        after == slot
    } else {
        exists|mid: Option<ArenaBlock>|
            reaped_slot(slot, mid, reqs.drop_last(), t, idx, generation) && #[trigger] reap_step(
                mid,
                after,
                reqs.last(),
                t,
                idx,
                generation,
            )
    }
}

/// What a slot that the requests left as `mid` holds after the empty
/// blocks are destroyed: nothing, when its block hands nothing out and no
/// waiting request names it.
pub open spec fn kept_unless_empty(mid: Option<ArenaBlock>, waiting: bool) -> Option<ArenaBlock> {
    match mid {
        Some(b) => if b.live_allocations == 0 && !waiting {
            None
        } else {
            mid
        },
        None => None,
    }
}

/// `after` is `before` once reaped at timeline value `t`: the requests
/// that came back and those that waited were looked at in that order, the
/// ready ones applied to their slots and the others kept waiting, and then
/// every block that hands nothing out and that no waiting request names was
/// destroyed.
pub open spec fn reaped(before: ThreadArena, after: ThreadArena, t: u64) -> bool {
    &&& after.wf()
    &&& after.queued().len() == 0
    &&& after.deferred() == still_waiting(before.deferred() + before.queued().reverse(), t)
    &&& after.block_count() == before.block_count()
    &&& forall|j: int| 0 <= j < before.block_count() ==> #[trigger] after.generation(j) == before.generation(j)
    &&& forall|j: int|
        #![trigger after.slot(j)]
        0 <= j < before.block_count() ==> exists|mid: Option<ArenaBlock>|
            reaped_slot(before.slot(j), mid, before.deferred() + before.queued().reverse(), t, j, before.generation(j))
                && after.slot(j) == kept_unless_empty(mid, waits_on(after.deferred(), j as u32, before.generation(j)))
}

struct BlockSlot {
    block: Option<ArenaBlock>,
    generation: u32,
}

/// The blocks of one thread, the slots freed for reuse, the requests that
/// came back and those that wait for the GPU, and the device frees to issue.
pub struct ThreadArena {
    blocks: Vec<BlockSlot>,
    free_block_slots: Vec<u32>,
    return_queue: ReturnQueue<FreeRequest>,
    deferred_frees: Vec<FreeRequest>,
    pending_device_frees: Vec<(u64, u64)>,
}

impl ThreadArena {
    pub closed spec fn block_count(&self) -> nat {
        self.blocks@.len()
    }

    pub closed spec fn generation(&self, i: int) -> u32 {
        self.blocks@[i].generation
    }

    pub closed spec fn slot(&self, i: int) -> Option<ArenaBlock> {
        self.blocks@[i].block
    }

    pub closed spec fn free_slots(&self) -> Seq<u32> {
        self.free_block_slots@
    }

    pub closed spec fn queued(&self) -> Seq<FreeRequest> {
        self.return_queue@
    }

    pub closed spec fn deferred(&self) -> Seq<FreeRequest> {
        self.deferred_frees@
    }

    /// Blocks destroyed and not yet given back to the device: buffer and memory.
    pub closed spec fn device_frees(&self) -> Seq<(u64, u64)> {
        self.pending_device_frees@
    }

    /// Every block is consistent, and the free slots are distinct empty slots.
    pub closed spec fn wf(&self) -> bool {
        &&& forall|i: int| 0 <= i < self.blocks@.len() ==> match (#[trigger] self.blocks@[i]).block {
            Some(b) => block_ok(b),
            None => true,
        }
        &&& self.blocks@.len() <= u32::MAX
        &&& self.free_block_slots@.no_duplicates()
        &&& forall|k: int| 0 <= k < self.free_block_slots@.len() ==> {
            &&& (#[trigger] self.free_block_slots@[k] as int) < self.blocks@.len()
            &&& self.blocks@[self.free_block_slots@[k] as int].block is None
        }
    }

    pub fn new() -> (a: Self)
        ensures
            a.wf(),
            a.block_count() == 0,
            a.free_slots().len() == 0,
            a.queued().len() == 0,
            a.deferred().len() == 0,
            a.device_frees().len() == 0,
    {
        ThreadArena {
            blocks: Vec::new(),
            free_block_slots: Vec::new(),
            return_queue: ReturnQueue::new(),
            deferred_frees: Vec::new(),
            pending_device_frees: Vec::new(),
        }
    }

    /// Adds a fresh block of `size` bytes: into the most recently freed slot,
    /// whose generation then advances, or else into a new slot of
    /// generation 0.
    pub fn inject_new_block(&mut self, buffer: u64, mem: u64, size: u64, kind: ResourceKind)
        requires
            old(self).wf(),
            size >= MIN_ALLOC,
            old(self).block_count() < u32::MAX,
        ensures
            final(self).wf(),
            final(self).queued() == old(self).queued(),
            final(self).deferred() == old(self).deferred(),
            final(self).device_frees() == old(self).device_frees(),
            ({
                let n = old(self).free_slots().len();
                let idx: int = if n > 0 { old(self).free_slots()[n - 1] as int } else { old(self).block_count() as int };
                &&& final(self).block_count() == (if n > 0 { old(self).block_count() } else { old(self).block_count() + 1 })
                &&& 0 <= idx < final(self).block_count()
                &&& final(self).free_slots() == (if n > 0 { old(self).free_slots().drop_last() } else { old(self).free_slots() })
                &&& final(self).generation(idx) == (if n == 0 || old(self).generation(idx) == u32::MAX {
                    0u32
                } else {
                    (old(self).generation(idx) + 1) as u32
                })
                &&& final(self).slot(idx) matches Some(b) && b.buffer == buffer && b.memory == mem && b.kind == kind
                    && b.live_allocations == 0 && b.free_list@ == seq![(0u64, size, true)]
                    && b.free_list.spec_block_size() == size && b.free_list.spec_node_count() == 1
                &&& forall|j: int| 0 <= j < old(self).block_count() && j != idx ==> final(self).slot(j) == old(self).slot(j)
                    && final(self).generation(j) == old(self).generation(j)
            }),
    {
        let new_block = ArenaBlock {
            buffer,
            memory: mem,
            kind,
            free_list: FreeList::new(size),
            live_allocations: 0,
        };
        proof {
            let r = new_block.free_list@;
            assert(r == seq![(0u64, size, true)]);
            lemma_used_count_single((0u64, size, true));
        }
        if let Some(r_idx) = self.free_block_slots.pop() {
            let ghost before = self.blocks@;
            let g = self.blocks[r_idx as usize].generation;
            let ng = g.wrapping_add(1);
            self.blocks.set(r_idx as usize, BlockSlot { block: Some(new_block), generation: ng });
            proof {
                let fs = self.free_block_slots@;
                let ofs = old(self).free_block_slots@;
                assert(fs == ofs.drop_last());
                assert forall|k: int| 0 <= k < fs.len() implies {
                    &&& (#[trigger] fs[k] as int) < self.blocks@.len()
                    &&& self.blocks@[fs[k] as int].block is None
                } by {
                    assert(fs[k] == ofs[k]);
                    assert(ofs[k] != ofs[ofs.len() - 1]);
                }
                assert forall|i: int| 0 <= i < self.blocks@.len() implies match (#[trigger] self.blocks@[i]).block {
                    Some(b) => block_ok(b),
                    None => true,
                } by {
                    if i != r_idx {
                        assert(self.blocks@[i] == before[i]);
                    }
                }
            }
        } else {
            self.blocks.push(BlockSlot { block: Some(new_block), generation: 0 });
            proof {
                let fs = self.free_block_slots@;
                assert forall|i: int| 0 <= i < self.blocks@.len() implies match (#[trigger] self.blocks@[i]).block {
                    Some(b) => block_ok(b),
                    None => true,
                } by {
                    if i < old(self).blocks@.len() {
                        assert(self.blocks@[i] == old(self).blocks@[i]);
                    }
                }
                assert forall|k: int| 0 <= k < fs.len() implies {
                    &&& (#[trigger] fs[k] as int) < self.blocks@.len()
                    &&& self.blocks@[fs[k] as int].block is None
                } by {
                    assert(self.blocks@[fs[k] as int] == old(self).blocks@[fs[k] as int]);
                }
            }
        }
    }

    /// Serves `size` bytes at `align` from the first block of `kind` that has
    /// room, in slot order.
    pub fn allocate(&mut self, size: u64, align: u64, kind: ResourceKind, _t: u64) -> (r: Option<SubAllocation>)
        requires
            old(self).wf(),
            is_pow2_u64(align),
            size <= u64::MAX - 15,
            request_search(size, align) > u64::MAX || request_search(size, align) + search_step(
                request_search(size, align),
            ) - 1 <= u64::MAX,
        ensures
            final(self).wf(),
            final(self).block_count() == old(self).block_count(),
            final(self).free_slots() == old(self).free_slots(),
            final(self).queued() == old(self).queued(),
            final(self).deferred() == old(self).deferred(),
            final(self).device_frees() == old(self).device_frees(),
            forall|j: int| 0 <= j < old(self).block_count() ==> final(self).generation(j) == old(self).generation(j),
            r is None <==> forall|j: int| 0 <= j < old(self).block_count() ==> skips(old(self).slot(j), kind, size, align),
            r is None ==> forall|j: int| 0 <= j < old(self).block_count() ==> final(self).slot(j) == old(self).slot(j),
            r matches Some(a) ==> {
                let i = a.spec_block_idx() as int;
                &&& 0 <= i < old(self).block_count()
                &&& forall|j: int| 0 <= j < i ==> skips(old(self).slot(j), kind, size, align)
                &&& !skips(old(self).slot(i), kind, size, align)
                &&& forall|j: int| 0 <= j < old(self).block_count() && j != i ==> final(self).slot(j) == old(self).slot(j)
                &&& old(self).slot(i) matches Some(b) && final(self).slot(i) matches Some(nb) && {
                    &&& b.kind == kind
                    &&& nb.kind == kind && nb.buffer == b.buffer && nb.memory == b.memory
                    &&& nb.live_allocations == b.live_allocations + 1
                    &&& alloc_from(b.free_list, nb.free_list, size, align, (a.spec_offset(), a.spec_node_idx()))
                    &&& a.spec_buffer() == b.buffer && a.spec_memory() == b.memory
                }
                &&& a.spec_size() == size
                &&& a.spec_generation() == old(self).generation(i)
                &&& a.spec_lifetime() == Lifetime::Unset
            },
    {
        let mut i: usize = 0;
        while i < self.blocks.len()
            invariant
                self.wf(),
                self.blocks@ == old(self).blocks@,
                self.free_block_slots@ == old(self).free_block_slots@,
                self.return_queue@ == old(self).return_queue@,
                self.deferred_frees@ == old(self).deferred_frees@,
                self.pending_device_frees@ == old(self).pending_device_frees@,
                i <= self.blocks@.len(),
                is_pow2_u64(align),
                size <= u64::MAX - 15,
                request_search(size, align) > u64::MAX || request_search(size, align) + search_step(
                    request_search(size, align),
                ) - 1 <= u64::MAX,
                forall|j: int| 0 <= j < i ==> skips(old(self).slot(j), kind, size, align),
            decreases self.blocks@.len() - i,
        {
            let generation = self.blocks[i].generation;
            let wanted = match &self.blocks[i].block {
                Some(b) => b.kind == kind,
                None => false,
            };
            if wanted {
                let ghost before = self.blocks@;
                let ghost b0 = self.blocks@[i as int].block.unwrap();
                proof {
                    assert(block_ok(b0));
                }
                let mut slot = BlockSlot { block: None, generation };
                core::mem::swap(&mut slot, &mut self.blocks[i]);
                let mut block = slot.block.unwrap();
                let res = block.free_list.allocate(size, align);
                match res {
                    Some((off, node_idx)) => {
                        proof {
                            let ii = choose|ii: int|
                                #![trigger b0.free_list@[ii]]
                                b0.free_list.alloc_ok(size, align, ii) && off == carve_offset(b0.free_list@, ii, align as int)
                                    && block.free_list@ == carve(b0.free_list@, ii, request_size(size), align as int);
                            lemma_used_count_carve(b0.free_list@, ii, request_size(size), align as int);
                            b0.free_list.lemma_region_count();
                            lemma_used_count_le(b0.free_list@);
                        }
                        block.live_allocations = block.live_allocations + 1;
                        let a = SubAllocation {
                            buffer: block.buffer,
                            memory: block.memory,
                            offset: off,
                            size,
                            block_idx: i as u32,
                            node_idx,
                            generation,
                            lifetime: Lifetime::Unset,
                        };
                        self.blocks.set(i, BlockSlot { block: Some(block), generation });
                        proof {
                            assert forall|j: int| 0 <= j < self.blocks@.len() implies match (#[trigger] self.blocks@[j]).block {
                                Some(b) => block_ok(b),
                                None => true,
                            } by {
                                if j != i {
                                    assert(self.blocks@[j] == before[j]);
                                }
                            }
                            assert forall|k: int| 0 <= k < self.free_block_slots@.len() implies {
                                &&& (#[trigger] self.free_block_slots@[k] as int) < self.blocks@.len()
                                &&& self.blocks@[self.free_block_slots@[k] as int].block is None
                            } by {
                                assert(before[self.free_block_slots@[k] as int].block is None);
                            }
                        }
                        return Some(a);
                    },
                    None => {
                        self.blocks.set(i, BlockSlot { block: Some(block), generation });
                        proof {
                            assert(self.blocks@ =~= before);
                        }
                    },
                }
            }
            i = i + 1;
        }
        None
    }

    /// Applies one ready request: when it names a live slot of its
    /// generation and a region that slot hands out, that region is freed.
    fn apply_request(&mut self, req: FreeRequest)
        requires
            old(self).wf(),
        ensures
            final(self).wf(),
            same_shape(*old(self), *final(self)),
            final(self).free_slots() == old(self).free_slots(),
            final(self).queued() == old(self).queued(),
            final(self).deferred() == old(self).deferred(),
            final(self).device_frees() == old(self).device_frees(),
            forall|j: int|
                0 <= j < old(self).block_count() && (j != req.block_idx || old(self).generation(j) != req.generation)
                    ==> #[trigger] final(self).slot(j) == old(self).slot(j),
            request_applies(*old(self), req) ==> request_applied(
                old(self).slot(req.block_idx as int).unwrap(),
                final(self).slot(req.block_idx as int),
                req.node_idx,
            ),
            !request_applies(*old(self), req) ==> forall|j: int|
                0 <= j < old(self).block_count() ==> #[trigger] final(self).slot(j) == old(self).slot(j),
    {
        let bi = req.block_idx as usize;
        if bi < self.blocks.len() && self.blocks[bi].generation == req.generation {
            let live_node = match &self.blocks[bi].block {
                Some(b) => b.free_list.is_allocated(req.node_idx),
                None => false,
            };
            if live_node {
                let ghost before = self.blocks@;
                let generation = self.blocks[bi].generation;
                let mut slot = BlockSlot { block: None, generation };
                core::mem::swap(&mut slot, &mut self.blocks[bi]);
                let mut block = slot.block.unwrap();
                let ghost b0 = block;
                proof {
                    assert(block_ok(b0));
                }
                block.free_list.free(req.node_idx);
                proof {
                    let ii = choose|ii: int|
                        #![trigger b0.free_list@[ii]]
                        0 <= ii < b0.free_list@.len() && b0.free_list.node_at(ii) == req.node_idx && !b0.free_list@[ii].2
                            && block.free_list@ == release(b0.free_list@, ii);
                    lemma_used_count_release(b0.free_list@, ii);
                }
                block.live_allocations = block.live_allocations.saturating_sub(1);
                proof {
                    assert(request_applied(b0, Some(block), req.node_idx));
                }
                self.blocks.set(bi, BlockSlot { block: Some(block), generation });
                proof {
                    assert forall|j: int| 0 <= j < self.blocks@.len() implies match (#[trigger] self.blocks@[j]).block {
                        Some(b) => block_ok(b),
                        None => true,
                    } by {
                        if j != bi {
                            assert(self.blocks@[j] == before[j]);
                        }
                    }
                    assert forall|k: int| 0 <= k < self.free_block_slots@.len() implies {
                        &&& (#[trigger] self.free_block_slots@[k] as int) < self.blocks@.len()
                        &&& self.blocks@[self.free_block_slots@[k] as int].block is None
                    } by {
                        assert(before[self.free_block_slots@[k] as int].block is None);
                    }
                    assert forall|j: int|
                        0 <= j < old(self).block_count() && (j != req.block_idx || old(self).generation(j) != req.generation)
                            implies #[trigger] self.slot(j) == old(self).slot(j) by {
                        assert(self.blocks@[j] == before[j]);
                    }
                    assert forall|j: int| 0 <= j < self.blocks@.len() implies self.generation(j) == old(self).generation(j) by {
                        if j != bi {
                            assert(self.blocks@[j] == before[j]);
                        }
                    }
                    assert forall|j: int| 0 <= j < self.blocks@.len() implies (#[trigger] old(self).slot(j) is Some) == (self.slot(j) is Some) by {
                        if j != bi {
                            assert(self.blocks@[j] == before[j]);
                        }
                    }
                    assert forall|j: int| 0 <= j < self.blocks@.len() && (#[trigger] old(self).slot(j) is Some) implies {
                        let x = old(self).slot(j).unwrap();
                        let y = self.slot(j).unwrap();
                        &&& x.buffer == y.buffer
                        &&& x.memory == y.memory
                        &&& x.kind == y.kind
                        &&& x.free_list.spec_block_size() == y.free_list.spec_block_size()
                    } by {
                        if j != bi {
                            assert(self.blocks@[j] == before[j]);
                        }
                    }
                }
            }
        }
    }

    /// Destroys every block that hands out nothing and that no waiting
    /// request names: its buffer and memory are queued for the device and its
    /// slot is freed for reuse.
    fn destroy_empty_blocks(&mut self)
        requires
            old(self).wf(),
        ensures
            final(self).wf(),
            final(self).block_count() == old(self).block_count(),
            forall|j: int| 0 <= j < old(self).block_count() ==> final(self).generation(j) == old(self).generation(j),
            forall|j: int|
                #![trigger old(self).slot(j)]
                #![trigger final(self).slot(j)]
                0 <= j < old(self).block_count() ==> match old(self).slot(j) {
                    Some(b) => if b.live_allocations == 0 && !waits_on(old(self).deferred(), j as u32, old(self).generation(j)) {
                        final(self).slot(j) is None
                    } else {
                        final(self).slot(j) == old(self).slot(j)
                    },
                    None => final(self).slot(j) is None,
                },
            final(self).free_slots() == old(self).free_slots() + emptied_slots(*old(self), *final(self), old(self).block_count()),
            final(self).device_frees() == old(self).device_frees() + emptied_handles(*old(self), *final(self), old(self).block_count()),
            final(self).queued() == old(self).queued(),
            final(self).deferred() == old(self).deferred(),
    {
        let n = self.blocks.len();
        let mut idx: usize = 0;
        while idx < n
            invariant
                n == self.blocks@.len(),
                n == old(self).blocks@.len(),
                idx <= n,
                self.wf(),
                self.return_queue@ == old(self).return_queue@,
                self.deferred_frees@ == old(self).deferred_frees@,
                forall|j: int| 0 <= j < n ==> self.blocks@[j].generation == old(self).blocks@[j].generation,
                forall|j: int| idx <= j < n ==> self.blocks@[j] == old(self).blocks@[j],
                forall|j: int|
                    #![trigger old(self).slot(j)]
                    #![trigger self.slot(j)]
                    0 <= j < idx ==> match old(self).slot(j) {
                        Some(b) => if b.live_allocations == 0 && !waits_on(old(self).deferred(), j as u32, old(self).generation(j)) {
                            self.slot(j) is None
                        } else {
                            self.slot(j) == old(self).slot(j)
                        },
                        None => self.slot(j) is None,
                    },
                self.free_block_slots@ == old(self).free_block_slots@ + emptied_slots(*old(self), *self, idx as nat),
                self.pending_device_frees@ == old(self).pending_device_frees@ + emptied_handles(*old(self), *self, idx as nat),
            decreases n - idx,
        {
            let generation = self.blocks[idx].generation;
            let eligible = match &self.blocks[idx].block {
                Some(b) => b.live_allocations == 0 && !has_request(&self.deferred_frees, idx as u32, generation),
                None => false,
            };
            let ghost before = *self;
            if eligible {
                let mut slot = BlockSlot { block: None, generation };
                core::mem::swap(&mut slot, &mut self.blocks[idx]);
                let dead = slot.block.unwrap();
                self.pending_device_frees.push((dead.buffer, dead.memory));
                self.free_block_slots.push(idx as u32);
                proof {
                    assert forall|j: int| 0 <= j < idx implies (#[trigger] before.slot(j)) == self.slot(j) by {
                        assert(self.blocks@[j] == before.blocks@[j]);
                    }
                    lemma_emptied_frame(*old(self), before, *self, idx as nat);
                    assert(emptied_slots(*old(self), *self, (idx + 1) as nat) == emptied_slots(*old(self), *self, idx as nat).push(idx as u32));
                    assert(self.free_block_slots@ =~= old(self).free_block_slots@ + emptied_slots(*old(self), *self, (idx + 1) as nat));
                    assert(self.pending_device_frees@ =~= old(self).pending_device_frees@ + emptied_handles(*old(self), *self, (idx + 1) as nat));
                    // The freed slot was not free before: free slots are empty.
                    assert forall|k: int| 0 <= k < before.free_block_slots@.len() implies before.free_block_slots@[k] != idx as u32 by {
                        assert(before.blocks@[before.free_block_slots@[k] as int].block is None);
                    }
                    assert(self.free_block_slots@.no_duplicates()) by {
                        let fs = self.free_block_slots@;
                        assert forall|a: int, b: int| 0 <= a < fs.len() && 0 <= b < fs.len() && a != b implies fs[a] != fs[b] by {
                            if a < fs.len() - 1 && b < fs.len() - 1 {
                                assert(fs[a] == before.free_block_slots@[a]);
                                assert(fs[b] == before.free_block_slots@[b]);
                            } else if a < fs.len() - 1 {
                                assert(fs[a] == before.free_block_slots@[a]);
                            } else {
                                assert(fs[b] == before.free_block_slots@[b]);
                            }
                        }
                    }
                    assert forall|k: int| 0 <= k < self.free_block_slots@.len() implies {
                        &&& (#[trigger] self.free_block_slots@[k] as int) < self.blocks@.len()
                        &&& self.blocks@[self.free_block_slots@[k] as int].block is None
                    } by {
                        if k < before.free_block_slots@.len() {
                            assert(self.free_block_slots@[k] == before.free_block_slots@[k]);
                        }
                    }
                    assert forall|j: int| 0 <= j < self.blocks@.len() implies match (#[trigger] self.blocks@[j]).block {
                        Some(b) => block_ok(b),
                        None => true,
                    } by {
                        if j != idx {
                            assert(self.blocks@[j] == before.blocks@[j]);
                        }
                    }
                }
            } else {
                proof {
                    lemma_emptied_frame(*old(self), before, *self, idx as nat);
                    assert(emptied_slots(*old(self), *self, (idx + 1) as nat) == emptied_slots(*old(self), *self, idx as nat));
                    assert(emptied_handles(*old(self), *self, (idx + 1) as nat) == emptied_handles(*old(self), *self, idx as nat));
                }
            }
            idx = idx + 1;
        }
    }

    /// Reaps the requests that came back: those whose lifetime the GPU
    /// timeline `current_gpu_t` has reached are applied, the others wait for
    /// a later reap; then every block with nothing handed out and no waiting
    /// request is destroyed.
    pub fn reap(&mut self, current_gpu_t: u64)
        requires
            old(self).wf(),
        ensures
            final(self).wf(),
            final(self).queued().len() == 0,
            final(self).deferred() == still_waiting(old(self).deferred() + old(self).queued().reverse(), current_gpu_t),
            final(self).block_count() == old(self).block_count(),
            forall|j: int| 0 <= j < old(self).block_count() ==> final(self).generation(j) == old(self).generation(j),
            forall|j: int| 0 <= j < old(self).block_count() && old(self).slot(j) is None ==> final(self).slot(j) is None,
            forall|j: int|
                #![trigger final(self).slot(j)]
                0 <= j < old(self).block_count() && final(self).slot(j) is Some ==> {
                    let nb = final(self).slot(j).unwrap();
                    let b = old(self).slot(j).unwrap();
                    &&& old(self).slot(j) is Some
                    &&& nb.buffer == b.buffer && nb.memory == b.memory && nb.kind == b.kind
                    &&& nb.free_list.spec_block_size() == b.free_list.spec_block_size()
                    &&& nb.live_allocations > 0 || waits_on(final(self).deferred(), j as u32, final(self).generation(j))
                },
            forall|j: int|
                #![trigger final(self).slot(j)]
                0 <= j < old(self).block_count() && old(self).slot(j) is Some && final(self).slot(j) is None
                    ==> !waits_on(final(self).deferred(), j as u32, final(self).generation(j)),
            final(self).free_slots() == old(self).free_slots() + emptied_slots(*old(self), *final(self), old(self).block_count()),
            final(self).device_frees() == old(self).device_frees() + emptied_handles(*old(self), *final(self), old(self).block_count()),
            forall|j: int|
                #![trigger final(self).slot(j)]
                0 <= j < old(self).block_count() && final(self).slot(j) is Some && !touches(
                    old(self).deferred() + old(self).queued().reverse(),
                    current_gpu_t,
                    j,
                    old(self).generation(j),
                ) ==> final(self).slot(j) == old(self).slot(j),
            forall|j: int|
                #![trigger old(self).slot(j)]
                0 <= j < old(self).block_count() && old(self).slot(j) is Some && old(self).slot(j).unwrap().live_allocations
                    > 0 && !touches(old(self).deferred() + old(self).queued().reverse(), current_gpu_t, j, old(self).generation(j))
                    ==> final(self).slot(j) == old(self).slot(j),
            forall|j: int|
                #![trigger final(self).slot(j)]
                0 <= j < old(self).block_count() ==> exists|mid: Option<ArenaBlock>|
                    reaped_slot(
                        old(self).slot(j),
                        mid,
                        old(self).deferred() + old(self).queued().reverse(),
                        current_gpu_t,
                        j,
                        old(self).generation(j),
                    ) && final(self).slot(j) == kept_unless_empty(
                        mid,
                        waits_on(final(self).deferred(), j as u32, old(self).generation(j)),
                    ),
            reaped(*old(self), *final(self), current_gpu_t),
    {
        let mut d = self.return_queue.drain();
        let incoming = d.collect();
        let mut work: Vec<FreeRequest> = Vec::new();
        core::mem::swap(&mut work, &mut self.deferred_frees);
        let ghost all = old(self).deferred() + old(self).queued().reverse();
        let mut k: usize = 0;
        while k < incoming.len()
            invariant
                k <= incoming@.len(),
                incoming@ == old(self).queued().reverse(),
                work@ == old(self).deferred() + incoming@.take(k as int),
            decreases incoming@.len() - k,
        {
            work.push(incoming[k]);
            k = k + 1;
            proof {
                assert(work@ =~= old(self).deferred() + incoming@.take(k as int));
            }
        }
        proof {
            assert(incoming@.take(incoming@.len() as int) == incoming@);
            assert(work@ == all);
            assert(self.deferred_frees@ =~= still_waiting(work@.take(0), current_gpu_t));
        }
        let mut k: usize = 0;
        while k < work.len()
            invariant
                k <= work@.len(),
                work@ == all,
                self.wf(),
                same_shape(*old(self), *self),
                self.free_block_slots@ == old(self).free_block_slots@,
                self.return_queue@.len() == 0,
                self.pending_device_frees@ == old(self).pending_device_frees@,
                self.deferred_frees@ == still_waiting(work@.take(k as int), current_gpu_t),
                forall|j: int|
                    #![trigger self.slot(j)]
                    0 <= j < old(self).block_count() && !touches(work@.take(k as int), current_gpu_t, j, old(self).generation(j))
                        ==> self.slot(j) == old(self).slot(j),
                forall|j: int|
                    #![trigger self.slot(j)]
                    0 <= j < old(self).block_count() ==> reaped_slot(
                        old(self).slot(j),
                        self.slot(j),
                        work@.take(k as int),
                        current_gpu_t,
                        j,
                        old(self).generation(j),
                    ),
            decreases work@.len() - k,
        {
            let req = work[k];
            proof {
                assert(work@.take(k + 1).drop_last() == work@.take(k as int));
                assert(work@.take(k + 1).last() == req);
            }
            let ready = match req.lifetime {
                Lifetime::Unset => false,
                Lifetime::Submitted(t) => t <= current_gpu_t,
            };
            let ghost pre = *self;
            if !ready {
                self.deferred_frees.push(req);
            } else {
                self.apply_request(req);
                proof {
                    lemma_same_shape_trans(*old(self), pre, *self);
                }
            }
            proof {
                assert forall|j: int|
                    #![trigger self.slot(j)]
                    0 <= j < old(self).block_count() && !touches(work@.take(k + 1), current_gpu_t, j, old(self).generation(j))
                        implies self.slot(j) == old(self).slot(j) by {
                    if touches(work@.take(k as int), current_gpu_t, j, old(self).generation(j)) {
                        let q = choose|q: int| 0 <= q < work@.take(k as int).len() && is_ready(#[trigger] work@.take(k as int)[q], current_gpu_t)
                            && work@.take(k as int)[q].block_idx == j && work@.take(k as int)[q].generation == old(self).generation(j);
                        assert(work@.take(k + 1)[q] == work@.take(k as int)[q]);
                    }
                    if ready && j == req.block_idx && old(self).generation(j) == req.generation {
                        assert(work@.take(k + 1)[k as int] == req);
                    }
                    assert(pre.slot(j) == old(self).slot(j));
                    assert(old(self).generation(j) == pre.generation(j));
                }
                assert(work@.take(k + 1).drop_last() == work@.take(k as int));
                assert(work@.take(k + 1).last() == req);
                assert forall|j: int|
                    #![trigger self.slot(j)]
                    0 <= j < old(self).block_count() implies reaped_slot(
                        old(self).slot(j),
                        self.slot(j),
                        work@.take(k + 1),
                        current_gpu_t,
                        j,
                        old(self).generation(j),
                    ) by {
                    assert(reaped_slot(old(self).slot(j), pre.slot(j), work@.take(k as int), current_gpu_t, j, old(self).generation(j)));
                    assert(old(self).generation(j) == pre.generation(j));
                    if ready && req.block_idx == j && req.generation == old(self).generation(j) && pre.slot(j) is Some
                        && pre.slot(j).unwrap().free_list.is_live(req.node_idx) {
                        assert(request_applies(pre, req));
                    }
                    assert(reap_step(pre.slot(j), self.slot(j), req, current_gpu_t, j, old(self).generation(j)));
                }
            }
            k = k + 1;
        }
        proof {
            assert(work@.take(work@.len() as int) == work@);
        }
        let ghost mid = *self;
        self.destroy_empty_blocks();
        proof {
            lemma_emptied_shape(*old(self), mid, *self, old(self).block_count());
            assert forall|j: int|
                #![trigger self.slot(j)]
                0 <= j < old(self).block_count() implies exists|m: Option<ArenaBlock>|
                    reaped_slot(old(self).slot(j), m, all, current_gpu_t, j, old(self).generation(j)) && self.slot(j)
                        == kept_unless_empty(m, waits_on(self.deferred(), j as u32, old(self).generation(j))) by {
                assert(reaped_slot(old(self).slot(j), mid.slot(j), all, current_gpu_t, j, old(self).generation(j)));
                assert(mid.generation(j) == old(self).generation(j));
                assert(self.slot(j) == kept_unless_empty(mid.slot(j), waits_on(self.deferred(), j as u32, old(self).generation(j))));
            }
            assert forall|j: int|
                #![trigger self.slot(j)]
                0 <= j < old(self).block_count() && self.slot(j) is Some implies {
                    let nb = self.slot(j).unwrap();
                    let b = old(self).slot(j).unwrap();
                    &&& old(self).slot(j) is Some
                    &&& nb.buffer == b.buffer && nb.memory == b.memory && nb.kind == b.kind
                    &&& nb.free_list.spec_block_size() == b.free_list.spec_block_size()
                    &&& nb.live_allocations > 0 || waits_on(self.deferred(), j as u32, self.generation(j))
                } by {
                assert(mid.slot(j) is Some);
            }
            assert forall|j: int|
                #![trigger self.slot(j)]
                0 <= j < old(self).block_count() && old(self).slot(j) is Some && self.slot(j) is None
                    implies !waits_on(self.deferred(), j as u32, self.generation(j)) by {
                assert(mid.slot(j) is Some);
            }
            assert forall|j: int| 0 <= j < old(self).block_count() && old(self).slot(j) is None implies self.slot(j) is None by {
                assert(mid.slot(j) is None);
            }
            assert forall|j: int|
                #![trigger self.slot(j)]
                0 <= j < old(self).block_count() && self.slot(j) is Some && !touches(all, current_gpu_t, j, old(self).generation(j))
                    implies self.slot(j) == old(self).slot(j) by {
                assert(mid.slot(j) is Some);
                assert(mid.slot(j) == old(self).slot(j));
            }
            assert forall|j: int|
                #![trigger old(self).slot(j)]
                0 <= j < old(self).block_count() && old(self).slot(j) is Some && old(self).slot(j).unwrap().live_allocations
                    > 0 && !touches(all, current_gpu_t, j, old(self).generation(j)) implies self.slot(j) == old(self).slot(j) by {
                assert(mid.slot(j) == old(self).slot(j));
            }
        }
    }

    /// Hands a request back to the arena; it is looked at on the next reap.
    pub fn push_free_request(&mut self, req: FreeRequest)
        requires
            old(self).wf(),
        ensures
            final(self).wf(),
            final(self).queued() == old(self).queued().push(req),
            final(self).deferred() == old(self).deferred(),
            final(self).block_count() == old(self).block_count(),
            forall|j: int| 0 <= j < old(self).block_count() ==> final(self).slot(j) == old(self).slot(j)
                && final(self).generation(j) == old(self).generation(j),
            final(self).free_slots() == old(self).free_slots(),
            final(self).device_frees() == old(self).device_frees(),
    {
        self.return_queue.push(req);
    }

    /// Gives an allocation back once its lifetime is set.
    pub fn return_allocation(&mut self, alloc: SubAllocation)
        requires
            old(self).wf(),
            alloc.spec_lifetime() != Lifetime::Unset,
        ensures
            final(self).wf(),
            final(self).queued() == old(self).queued().push(
                (FreeRequest {
                    block_idx: alloc.spec_block_idx(),
                    node_idx: alloc.spec_node_idx(),
                    generation: alloc.spec_generation(),
                    lifetime: alloc.spec_lifetime(),
                }),
            ),
            final(self).deferred() == old(self).deferred(),
            final(self).block_count() == old(self).block_count(),
            forall|j: int| 0 <= j < old(self).block_count() ==> final(self).slot(j) == old(self).slot(j)
                && final(self).generation(j) == old(self).generation(j),
            final(self).free_slots() == old(self).free_slots(),
            final(self).device_frees() == old(self).device_frees(),
    {
        let req = alloc.free_request();
        self.return_queue.push(req);
    }

    /// Takes the destroyed blocks' buffers and memories that wait to be
    /// given back to the device.
    pub fn take_device_frees(&mut self) -> (r: Vec<(u64, u64)>)
        requires
            old(self).wf(),
        ensures
            r@ == old(self).device_frees(),
            final(self).device_frees().len() == 0,
            final(self).wf(),
            final(self).block_count() == old(self).block_count(),
            forall|j: int| 0 <= j < old(self).block_count() ==> #[trigger] final(self).slot(j) == old(self).slot(j)
                && final(self).generation(j) == old(self).generation(j),
            final(self).free_slots() == old(self).free_slots(),
            final(self).queued() == old(self).queued(),
            final(self).deferred() == old(self).deferred(),
    {
        let mut frees: Vec<(u64, u64)> = Vec::new();
        core::mem::swap(&mut frees, &mut self.pending_device_frees);
        frees
    }

    pub fn return_queue_is_empty(&self) -> (r: bool)
        ensures
            r == (self.queued().len() == 0),
    {
        self.return_queue.is_empty()
    }

    /// Number of requests waiting for the GPU timeline.
    pub fn deferred_count(&self) -> (r: usize)
        ensures
            r == self.deferred().len(),
    {
        self.deferred_frees.len()
    }

    /// Number of block slots, live or freed.
    pub fn slot_count(&self) -> (r: usize)
        ensures
            r == self.block_count(),
    {
        self.blocks.len()
    }

    /// The block in slot `idx`, if the slot holds one.
    pub fn block(&self, idx: usize) -> (r: Option<&ArenaBlock>)
        requires
            idx < self.block_count(),
        ensures
            r == (match self.slot(idx as int) {
                Some(b) => Some(&b),
                None => None::<&ArenaBlock>,
            }),
    {
        match &self.blocks[idx].block {
            Some(b) => Some(b),
            None => None,
        }
    }

    /// Generation of slot `idx`.
    pub fn slot_generation(&self, idx: usize) -> (r: u32)
        requires
            idx < self.block_count(),
        ensures
            r == self.generation(idx as int),
    {
        self.blocks[idx].generation
    }
}

} // verus!
