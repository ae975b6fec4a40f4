//! TLSF (two-level segregated fit) free list for sub-allocating one block of
//! GPU memory.
//!
//! The block is cut into regions kept in physical order by a doubly linked
//! chain of nodes. Free regions are also linked into one of 64 x 64 bins by
//! size class; two bitmaps record which bins are occupied, so a fitting bin
//! is found with two trailing-zero counts.
use vstd::prelude::*;
use vstd::std_specs::bits::u64_trailing_zeros;
use crate::bitmask::{bit, lemma_bit_set, lemma_bit_clear, lemma_mask_from, lemma_zero_iff_no_bits, lemma_lowest_bit};
use crate::mapping::{
    NULL, MIN_ALLOC, FL_COUNT, SL_COUNT,
    bin_of, flat_bin, search_bin, search_step, round_up, is_pow2_u64,
    lemma_bin_of, lemma_search_sound,
    mapping_insert, mapping_search, align_up, bin_le, lemma_round_up_aligned, lemma_pow2_u64_pos,
};
use vstd::arithmetic::power2::pow2;

verus! {

/// Number of bins in the flattened bin table.
pub const BIN_COUNT: usize = 4096;

/// Largest number of nodes a free list keeps; node indices must stay below
/// `NULL`.
pub const MAX_NODES: usize = 0xffff_fff0;

/// One region of the block, or a recycled slot (all fields zero).
#[derive(Clone, Copy, Debug)]
pub struct MemNode {
    pub offset: u64,
    pub size: u64,
    pub prev_phys: u32,
    pub next_phys: u32,
    pub prev_free: u32,
    pub next_free: u32,
    pub is_free: bool,
    pub generation: u32,
}

impl Default for MemNode {
    fn default() -> (r: Self)
        ensures
            r == empty_node(),
    {
        MemNode {
            offset: 0,
            size: 0,
            prev_phys: 0,
            next_phys: 0,
            prev_free: 0,
            next_free: 0,
            is_free: false,
            generation: 0,
        }
    }
}

/// The contents of a recycled node slot.
pub open spec fn empty_node() -> MemNode {
    MemNode {
        offset: 0,
        size: 0,
        prev_phys: 0,
        next_phys: 0,
        prev_free: 0,
        next_free: 0,
        is_free: false,
        generation: 0,
    }
}

/// One region as seen from outside: offset, size and whether it is free.
pub open spec fn region_of(n: MemNode) -> (u64, u64, bool) {
    (n.offset, n.size, n.is_free)
}

/// Flat bin index of a region size.
pub open spec fn bin_index(size: u64) -> int {
    flat_bin(bin_of(size as int))
}


/// No two neighbouring regions are both free.
pub open spec fn no_adjacent_free(r: Seq<(u64, u64, bool)>) -> bool {
    forall|i: int| 0 <= i < r.len() - 1 ==> !(#[trigger] r[i].2 && r[i + 1].2)
}

/// Sum of the sizes of the free regions in a sequence of regions.
pub open spec fn free_total(r: Seq<(u64, u64, bool)>) -> int
    decreases r.len(),
{
    if r.len() == 0 {
        0
    } else {
        free_total(r.drop_last()) + (if r.last().2 {
            r.last().1 as int
        } else {
            0
        })
    }
}

/// First element of a list, or `NULL` when it is empty.
pub open spec fn head_of(l: Seq<u32>) -> u32 {
    if l.len() == 0 {
        NULL
    } else {
        l[0]
    }
}

/// Every member of list `l` is a free region of class `b` outside `ex`.
pub open spec fn members_ok(nodes: Seq<MemNode>, p: Seq<u32>, l: Seq<u32>, b: int, ex: Set<u32>) -> bool {
    forall|k: int|
        0 <= k < l.len() ==> {
            let n = #[trigger] l[k];
            &&& (n as int) < nodes.len()
            &&& p.contains(n)
            &&& nodes[n as int].is_free
            &&& bin_index(nodes[n as int].size) == b
            &&& !ex.contains(n)
        }
}

/// The bin links of the members of `l` spell out `l`.
pub open spec fn links_ok(nodes: Seq<MemNode>, l: Seq<u32>) -> bool {
    &&& l.no_duplicates()
    &&& forall|k: int|
        0 <= k < l.len() ==> {
            &&& (#[trigger] l[k] as int) < nodes.len()
            &&& nodes[l[k] as int].next_free == (if k + 1 < l.len() {
                l[k + 1]
            } else {
                NULL
            })
            &&& nodes[l[k] as int].prev_free == (if k == 0 {
                NULL
            } else {
                l[k - 1]
            })
        }
}

pub proof fn lemma_links_frame(n1: Seq<MemNode>, n2: Seq<MemNode>, l: Seq<u32>)
    requires
        links_ok(n1, l),
        n1.len() == n2.len(),
        forall|k: int|
            0 <= k < l.len() ==> n2[#[trigger] l[k] as int].next_free == n1[l[k] as int].next_free
                && n2[l[k] as int].prev_free == n1[l[k] as int].prev_free,
    ensures
        links_ok(n2, l),
{
}

pub proof fn lemma_members_frame(
    n1: Seq<MemNode>,
    n2: Seq<MemNode>,
    p: Seq<u32>,
    l: Seq<u32>,
    b: int,
    ex1: Set<u32>,
    ex2: Set<u32>,
)
    requires
        members_ok(n1, p, l, b, ex1),
        n1.len() == n2.len(),
        forall|k: int| 0 <= k < l.len() ==> same_shape(n2[#[trigger] l[k] as int], n1[l[k] as int]),
        forall|k: int| 0 <= k < l.len() && ex2.contains(#[trigger] l[k]) ==> ex1.contains(l[k]),
    ensures
        members_ok(n2, p, l, b, ex2),
{
}

pub struct FreeList {
    first_level_mask: u64,
    second_level_masks: Vec<u64>,
    bins: Vec<u32>,
    nodes: Vec<MemNode>,
    recycled: Vec<u32>,
    block_size: u64,
    free_bytes: u64,
    phys: Ghost<Seq<u32>>,
    lists: Ghost<Seq<Seq<u32>>>,
}

// ── region sums ─────────────────────────────────────────────────────────────





pub proof fn lemma_free_total_append(a: Seq<(u64, u64, bool)>, b: Seq<(u64, u64, bool)>)
    ensures
        free_total(a + b) == free_total(a) + free_total(b),
    decreases b.len(),
{
    if b.len() == 0 {
        assert(a + b =~= a);
    } else {
        assert((a + b).drop_last() =~= a + b.drop_last());
        lemma_free_total_append(a, b.drop_last());
    }
}

pub proof fn lemma_free_total_nonneg(a: Seq<(u64, u64, bool)>)
    ensures
        free_total(a) >= 0,
    decreases a.len(),
{
    if a.len() > 0 {
        lemma_free_total_nonneg(a.drop_last());
    }
}

impl FreeList {
    // ── Abstract view ──────────────────────────────────────────────────────

    /// The regions of the block in physical order.
    pub closed spec fn regions(&self) -> Seq<(u64, u64, bool)> {
        self.phys@.map_values(|n: u32| region_of(self.nodes@[n as int]))
    }

    /// Node index that records the `i`-th region.
    pub closed spec fn node_at(&self, i: int) -> u32 {
        self.phys@[i]
    }

    /// The free regions of bin `b`, as node indices, most recently inserted first.
    pub closed spec fn bin_members(&self, b: int) -> Seq<u32> {
        self.lists@[b]
    }

    pub closed spec fn spec_block_size(&self) -> u64 {
        self.block_size
    }

    pub closed spec fn spec_free_bytes(&self) -> u64 {
        self.free_bytes
    }

    pub closed spec fn spec_node_count(&self) -> nat {
        self.nodes@.len()
    }

    // ── Invariant ──────────────────────────────────────────────────────────

    spec fn nd(&self, n: u32) -> MemNode {
        self.nodes@[n as int]
    }

    /// Shape of the tables and of the physical chain.
    #[verifier::opaque]
    spec fn struct_ok(&self) -> bool {
        let p = self.phys@;
        let nodes = self.nodes@;
        &&& self.second_level_masks@.len() == FL_COUNT
        &&& self.bins@.len() == BIN_COUNT
        &&& nodes.len() <= MAX_NODES
        &&& self.block_size >= MIN_ALLOC
        &&& p.len() >= 1
        &&& p.no_duplicates()
        &&& forall|i: int| 0 <= i < p.len() ==> (#[trigger] p[i] as int) < nodes.len()
        &&& forall|i: int|
            0 <= i < p.len() ==> {
                let n = nodes[#[trigger] p[i] as int];
                &&& n.size >= MIN_ALLOC
                &&& n.offset % 16 == 0
                &&& n.offset + n.size <= self.block_size
            }
        &&& nodes[p[0] as int].offset == 0
        &&& nodes[p[0] as int].prev_phys == NULL
        &&& nodes[p.last() as int].next_phys == NULL
        &&& nodes[p.last() as int].offset + nodes[p.last() as int].size == self.block_size
        &&& forall|i: int|
            0 <= i < p.len() - 1 ==> {
                &&& nodes[#[trigger] p[i] as int].next_phys == p[i + 1]
                &&& nodes[p[i + 1] as int].prev_phys == p[i]
                &&& nodes[p[i + 1] as int].offset == nodes[p[i] as int].offset + nodes[p[i] as int].size
            }
        &&& forall|n: int|
            0 <= n < nodes.len() && !p.contains(n as u32) ==> #[trigger] nodes[n] == empty_node()
        &&& forall|k: int|
            0 <= k < self.recycled@.len() ==> (#[trigger] self.recycled@[k] as int) < nodes.len()
                && !p.contains(self.recycled@[k])
        &&& self.recycled@.no_duplicates()
    }

    /// The lists, bin heads and bitmaps agree; every free region outside
    /// `ex` is in the list of its bin and the regions in `ex` are in none.
    spec fn lists_ok(&self, ex: Set<u32>) -> bool {
        &&& self.lists@.len() == BIN_COUNT
        &&& self.bins@.len() == BIN_COUNT
        &&& forall|b: int| 0 <= b < BIN_COUNT ==> #[trigger] self.bin_ok(b, ex)
        &&& self.covered(ex)
        &&& self.bitmaps_ok()
    }

    /// Bin `b` is a well-linked list of free regions of its class, headed by `bins[b]`.
    #[verifier::opaque]
    spec fn bin_ok(&self, b: int, ex: Set<u32>) -> bool {
        let l = self.lists@[b];
        &&& members_ok(self.nodes@, self.phys@, l, b, ex)
        &&& links_ok(self.nodes@, l)
        &&& self.bins@[b] == head_of(l)
    }

    /// Every free region outside `ex` is in the list of its bin.
    #[verifier::opaque]
    spec fn covered(&self, ex: Set<u32>) -> bool {
        let p = self.phys@;
        forall|i: int|
            0 <= i < p.len() && self.nodes@[#[trigger] p[i] as int].is_free && !ex.contains(p[i])
                ==> self.lists@[bin_index(self.nodes@[p[i] as int].size)].contains(p[i])
    }

    /// The bitmaps record exactly the non-empty bins.
    #[verifier::opaque]
    spec fn bitmaps_ok(&self) -> bool {
        &&& self.second_level_masks@.len() == FL_COUNT
        &&& forall|fl: int, sl: int|
            0 <= fl < 64 && 0 <= sl < 64 ==> (#[trigger] bit(self.second_level_masks@[fl], sl)
                <==> self.lists@[fl * 64 + sl].len() > 0)
        &&& forall|fl: int|
            0 <= fl < 64 ==> (#[trigger] bit(self.first_level_mask, fl)
                <==> self.second_level_masks@[fl] != 0)
    }

    /// Well-formedness of the free list.
    pub closed spec fn wf(&self) -> bool {
        &&& self.struct_ok()
        &&& self.lists_ok(Set::empty())
        &&& no_adjacent_free(self.regions())
        &&& self.free_bytes as int == free_total(self.regions())
    }
}

/// Two nodes describe the same region; only their bin links may differ.
pub open spec fn same_shape(a: MemNode, b: MemNode) -> bool {
    &&& a.offset == b.offset
    &&& a.size == b.size
    &&& a.prev_phys == b.prev_phys
    &&& a.next_phys == b.next_phys
    &&& a.is_free == b.is_free
    &&& a.generation == b.generation
}


impl FreeList {
    proof fn lemma_struct_frame(a: &FreeList, c: &FreeList)
        requires
            a.struct_ok(),
            c.phys@ == a.phys@,
            c.recycled@ == a.recycled@,
            c.block_size == a.block_size,
            c.second_level_masks@.len() == a.second_level_masks@.len(),
            c.bins@.len() == a.bins@.len(),
            c.nodes@.len() == a.nodes@.len(),
            forall|n: int| 0 <= n < c.nodes@.len() ==> same_shape(#[trigger] c.nodes@[n], a.nodes@[n]),
            forall|n: int|
                0 <= n < c.nodes@.len() && !a.phys@.contains(n as u32) ==> #[trigger] c.nodes@[n]
                    == a.nodes@[n],
        ensures
            c.struct_ok(),
    {
        reveal(FreeList::struct_ok);
        let p = a.phys@;
        assert forall|i: int| 0 <= i < p.len() - 1 implies {
            &&& c.nodes@[#[trigger] p[i] as int].next_phys == p[i + 1]
            &&& c.nodes@[p[i + 1] as int].prev_phys == p[i]
            &&& c.nodes@[p[i + 1] as int].offset == c.nodes@[p[i] as int].offset + c.nodes@[p[i] as int].size
        } by {
            assert(same_shape(c.nodes@[p[i] as int], a.nodes@[p[i] as int]));
            assert(same_shape(c.nodes@[p[i + 1] as int], a.nodes@[p[i + 1] as int]));
        }
        assert forall|i: int| 0 <= i < p.len() implies {
            let n = c.nodes@[#[trigger] p[i] as int];
            &&& n.size >= MIN_ALLOC
            &&& n.offset % 16 == 0
            &&& n.offset + n.size <= c.block_size
        } by {
            assert(same_shape(c.nodes@[p[i] as int], a.nodes@[p[i] as int]));
        }
        assert(same_shape(c.nodes@[p[0] as int], a.nodes@[p[0] as int]));
        assert(same_shape(c.nodes@[p.last() as int], a.nodes@[p.last() as int]));
    }

    proof fn lemma_bin_frame(a: &FreeList, c: &FreeList, b: int, ex1: Set<u32>, ex2: Set<u32>)
        requires
            a.bin_ok(b, ex1),
            0 <= b < a.lists@.len(),
            c.lists@[b] == a.lists@[b],
            c.bins@[b] == a.bins@[b],
            c.phys@ == a.phys@,
            c.nodes@.len() == a.nodes@.len(),
            forall|k: int|
                0 <= k < a.lists@[b].len() ==> c.nodes@[#[trigger] a.lists@[b][k] as int]
                    == a.nodes@[a.lists@[b][k] as int],
            forall|k: int|
                0 <= k < a.lists@[b].len() && ex2.contains(#[trigger] a.lists@[b][k]) ==> ex1.contains(
                    a.lists@[b][k],
                ),
        ensures
            c.bin_ok(b, ex2),
    {
        reveal(FreeList::bin_ok);
        let l = a.lists@[b];
        lemma_links_frame(a.nodes@, c.nodes@, l);
        lemma_members_frame(a.nodes@, c.nodes@, a.phys@, l, b, ex1, ex2);
    }

    /// Facts about a node of the physical chain.
    proof fn lemma_phys_node(&self, n: u32)
        requires
            self.struct_ok(),
            self.phys@.contains(n),
        ensures
            (n as int) < self.nodes@.len(),
            self.nodes@[n as int].size >= MIN_ALLOC,
            self.nodes@[n as int].offset % 16 == 0,
            self.nodes@[n as int].offset + self.nodes@[n as int].size <= self.block_size,
            self.nodes@.len() <= MAX_NODES,
            self.second_level_masks@.len() == FL_COUNT,
            self.bins@.len() == BIN_COUNT,
    {
        reveal(FreeList::struct_ok);
        let i = choose|i: int| 0 <= i < self.phys@.len() && self.phys@[i] == n;
        assert(self.phys@[i] == n);
    }

    /// Members of bin `b` have class `b`, so they are in no other bin.
    proof fn lemma_member_bin(&self, b: int, k: int, ex: Set<u32>)
        requires
            self.bin_ok(b, ex),
            0 <= k < self.lists@[b].len(),
        ensures
            bin_index(self.nodes@[self.lists@[b][k] as int].size) == b,
            (self.lists@[b][k] as int) < self.nodes@.len(),
            self.phys@.contains(self.lists@[b][k]),
            self.nodes@[self.lists@[b][k] as int].is_free,
            !ex.contains(self.lists@[b][k]),
            links_ok(self.nodes@, self.lists@[b]),
            self.bins@[b] == head_of(self.lists@[b]),
    {
        reveal(FreeList::bin_ok);
    }

    /// Insert node at front of its bin's doubly-linked free list.
    fn insert_into_bin(&mut self, idx: u32, Ghost(ex): Ghost<Set<u32>>)
        requires
            old(self).struct_ok(),
            old(self).lists_ok(ex),
            ex.contains(idx),
            old(self).phys@.contains(idx),
            old(self).nodes@[idx as int].is_free,
        ensures
            final(self).struct_ok(),
            final(self).lists_ok(ex.remove(idx)),
            final(self).regions() == old(self).regions(),
            final(self).phys@ == old(self).phys@,
            final(self).recycled@ == old(self).recycled@,
            final(self).block_size == old(self).block_size,
            final(self).free_bytes == old(self).free_bytes,
            final(self).lists@ == old(self).lists@.update(
                bin_index(old(self).nodes@[idx as int].size),
                seq![idx] + old(self).lists@[bin_index(old(self).nodes@[idx as int].size)],
            ),
            final(self).nodes@.len() == old(self).nodes@.len(),
            forall|n: int|
                0 <= n < final(self).nodes@.len() ==> same_shape(#[trigger] final(self).nodes@[n], old(self).nodes@[n]),
            forall|n: int|
                0 <= n < final(self).nodes@.len() && n != idx && n != head_of(old(self).lists@[bin_index(old(self).nodes@[idx as int].size)])
                    ==> #[trigger] final(self).nodes@[n] == old(self).nodes@[n],
    {
        let ghost old_self = *self;
        let ghost p = self.phys@;
        proof {
            self.lemma_phys_node(idx);
        }
        let size = self.nodes[idx as usize].size;
        proof { lemma_bin_of(size as int); }
        let (fl, sl) = mapping_insert(size);
        let b = fl * 64 + sl;
        let ghost l = self.lists@[b as int];
        proof {
            assert(self.bin_ok(b as int, ex));
            assert(self.bins@[b as int] == head_of(l)) by {
                reveal(FreeList::bin_ok);
            }
            if l.len() > 0 {
                self.lemma_member_bin(b as int, 0, ex);
            }
        }
        let head = self.bins[b];
        let mut node = self.nodes[idx as usize];
        node.prev_free = NULL;
        node.next_free = head;
        self.nodes.set(idx as usize, node);
        if head != NULL {
            let mut h = self.nodes[head as usize];
            h.prev_free = idx;
            self.nodes.set(head as usize, h);
        }
        self.bins.set(b, idx);
        self.first_level_mask = self.first_level_mask | (1u64 << (fl as u64));
        let m = self.second_level_masks[fl] | (1u64 << (sl as u64));
        self.second_level_masks.set(fl, m);
        proof {
            self.lists@ = old_self.lists@.update(b as int, seq![idx] + l);
            let nl = seq![idx] + l;
            let ex2 = ex.remove(idx);
            // members of any old list are neither idx nor (outside bin b) the old head
            assert forall|n: int| 0 <= n < self.nodes@.len() && !p.contains(n as u32)
                implies #[trigger] self.nodes@[n] == old_self.nodes@[n] by {
                if l.len() > 0 {
                    old_self.lemma_member_bin(b as int, 0, ex);
                }
            }
            FreeList::lemma_struct_frame(&old_self, self);
            FreeList::lemma_regions_same(&old_self, self);
            assert forall|bb: int| 0 <= bb < BIN_COUNT implies #[trigger] self.bin_ok(bb, ex2) by {
                assert(old_self.bin_ok(bb, ex));
                if bb != b {
                    assert forall|k: int| 0 <= k < old_self.lists@[bb].len()
                        implies self.nodes@[#[trigger] old_self.lists@[bb][k] as int]
                            == old_self.nodes@[old_self.lists@[bb][k] as int] by {
                        old_self.lemma_member_bin(bb, k, ex);
                        if l.len() > 0 {
                            old_self.lemma_member_bin(b as int, 0, ex);
                        }
                    }
                    FreeList::lemma_bin_frame(&old_self, self, bb, ex, ex2);
                } else {
                    reveal(FreeList::bin_ok);
                    assert forall|k: int| 0 <= k < l.len() implies #[trigger] l[k] != idx by {
                        old_self.lemma_member_bin(b as int, k, ex);
                    }
                    assert(links_ok(self.nodes@, nl)) by {
                        assert forall|i: int, j: int| 0 <= i < nl.len() && 0 <= j < nl.len() && i != j
                            implies nl[i] != nl[j] by {
                            if i > 0 {
                                assert(nl[i] == l[i - 1]);
                            }
                            if j > 0 {
                                assert(nl[j] == l[j - 1]);
                            }
                        }
                        assert forall|k: int| 0 <= k < nl.len() implies {
                            &&& (#[trigger] nl[k] as int) < self.nodes@.len()
                            &&& self.nodes@[nl[k] as int].next_free == (if k + 1 < nl.len() {
                                nl[k + 1]
                            } else {
                                NULL
                            })
                            &&& self.nodes@[nl[k] as int].prev_free == (if k == 0 {
                                NULL
                            } else {
                                nl[k - 1]
                            })
                        } by {
                            if k > 0 {
                                assert(nl[k] == l[k - 1]);
                                if k + 1 < nl.len() {
                                    assert(nl[k + 1] == l[k]);
                                }
                                if k > 1 {
                                    assert(nl[k - 1] == l[k - 2]);
                                    assert(l[k - 1] != l[0]);
                                }
                            }
                        }
                    }
                    assert forall|k: int| 0 <= k < nl.len() implies {
                        let n = #[trigger] nl[k];
                        &&& (n as int) < self.nodes@.len()
                        &&& p.contains(n)
                        &&& self.nodes@[n as int].is_free
                        &&& bin_index(self.nodes@[n as int].size) == b
                        &&& !ex2.contains(n)
                    } by {
                        if k > 0 {
                            assert(nl[k] == l[k - 1]);
                            old_self.lemma_member_bin(b as int, k - 1, ex);
                        }
                    }
                }
            }
            assert(self.covered(ex2)) by {
                reveal(FreeList::covered);
                assert(old_self.covered(ex));
                assert forall|i: int| 0 <= i < p.len() && self.nodes@[#[trigger] p[i] as int].is_free && !ex2.contains(p[i])
                    implies self.lists@[bin_index(self.nodes@[p[i] as int].size)].contains(p[i]) by {
                    if p[i] == idx {
                        assert(self.nodes@[idx as int].size == size);
                        assert(self.lists@[b as int] == nl);
                        assert(nl[0] == idx);
                        assert(nl.contains(idx));
                    } else {
                        assert(p.contains(p[i]));
                        old_self.lemma_phys_node(p[i]);
                        assert(same_shape(self.nodes@[p[i] as int], old_self.nodes@[p[i] as int]));
                        assert(old_self.nodes@[p[i] as int].is_free);
                        let bb = bin_index(old_self.nodes@[p[i] as int].size);
                        lemma_bin_of(old_self.nodes@[p[i] as int].size as int);
                        assert(old_self.lists@[bb].contains(p[i]));
                        assert(bin_index(self.nodes@[p[i] as int].size) == bb);
                        if bb == b {
                            let k = choose|k: int| 0 <= k < l.len() && l[k] == p[i];
                            assert(nl[k + 1] == p[i]);
                            assert(self.lists@[bb] == nl);
                            assert(nl.contains(p[i]));
                        } else {
                            assert(self.lists@[bb] == old_self.lists@[bb]);
                        }
                    }
                }
            }
            assert forall|bb: int| 0 <= bb < BIN_COUNT && bb != fl * 64 + sl
                implies (#[trigger] self.lists@[bb].len() > 0) == (old_self.lists@[bb].len() > 0) by {}
            FreeList::lemma_bitmaps_set(&old_self, self, fl as int, sl as int);
        }
    }
}

/// Position of `x` in `l`.
pub open spec fn pos_in(l: Seq<u32>, x: u32) -> int {
    choose|k: int| 0 <= k < l.len() && l[k] == x
}

impl FreeList {
    /// Remove node from its bin's doubly-linked free list.
    fn remove_from_bin(&mut self, idx: u32, Ghost(ex): Ghost<Set<u32>>)
        requires
            old(self).struct_ok(),
            old(self).lists_ok(ex),
            !ex.contains(idx),
            old(self).phys@.contains(idx),
            old(self).nodes@[idx as int].is_free,
        ensures
            final(self).struct_ok(),
            final(self).lists_ok(ex.insert(idx)),
            final(self).regions() == old(self).regions(),
            final(self).phys@ == old(self).phys@,
            final(self).recycled@ == old(self).recycled@,
            final(self).block_size == old(self).block_size,
            final(self).free_bytes == old(self).free_bytes,
            old(self).lists@[bin_index(old(self).nodes@[idx as int].size)].contains(idx),
            final(self).lists@ == old(self).lists@.update(
                bin_index(old(self).nodes@[idx as int].size),
                old(self).lists@[bin_index(old(self).nodes@[idx as int].size)].remove(
                    pos_in(old(self).lists@[bin_index(old(self).nodes@[idx as int].size)], idx),
                ),
            ),
            final(self).nodes@.len() == old(self).nodes@.len(),
            final(self).nodes@[idx as int].prev_free == NULL,
            final(self).nodes@[idx as int].next_free == NULL,
            forall|n: int|
                0 <= n < final(self).nodes@.len() ==> same_shape(#[trigger] final(self).nodes@[n], old(self).nodes@[n]),
            forall|n: int|
                0 <= n < final(self).nodes@.len() && n != idx && n != old(self).nodes@[idx as int].prev_free
                    && n != old(self).nodes@[idx as int].next_free
                    ==> #[trigger] final(self).nodes@[n] == old(self).nodes@[n],
    {
        let ghost old_self = *self;
        let ghost p = self.phys@;
        proof {
            self.lemma_phys_node(idx);
            lemma_bin_of(self.nodes@[idx as int].size as int);
            reveal(FreeList::covered);
            let i = choose|i: int| 0 <= i < p.len() && p[i] == idx;
            assert(p[i] == idx);
        }
        let ghost b = bin_index(self.nodes@[idx as int].size);
        let ghost l = self.lists@[b];
        let ghost k = pos_in(l, idx);
        proof {
            assert(l.contains(idx));
            assert(0 <= k < l.len() && l[k] == idx);
            self.lemma_member_bin(b, k, ex);
            if k > 0 {
                self.lemma_member_bin(b, k - 1, ex);
            }
            if k + 1 < l.len() {
                self.lemma_member_bin(b, k + 1, ex);
            }
        }
        let prev = self.nodes[idx as usize].prev_free;
        let next = self.nodes[idx as usize].next_free;
        let size = self.nodes[idx as usize].size;
        let ghost mut fl_g: int = 0;
        let ghost mut sl_g: int = 0;
        if prev != NULL {
            let mut pn = self.nodes[prev as usize];
            pn.next_free = next;
            self.nodes.set(prev as usize, pn);
        } else {
            let (fl, sl) = mapping_insert(size);
            proof {
                fl_g = fl as int;
                sl_g = sl as int;
            }
            self.bins.set(fl * 64 + sl, next);
            if next == NULL {
                let m = self.second_level_masks[fl] & !(1u64 << (sl as u64));
                self.second_level_masks.set(fl, m);
                if m == 0 {
                    self.first_level_mask = self.first_level_mask & !(1u64 << (fl as u64));
                }
            }
        }
        if next != NULL {
            let mut nn = self.nodes[next as usize];
            nn.prev_free = prev;
            self.nodes.set(next as usize, nn);
        }
        let mut me = self.nodes[idx as usize];
        me.prev_free = NULL;
        me.next_free = NULL;
        self.nodes.set(idx as usize, me);
        proof {
            let nl = l.remove(k);
            self.lists@ = old_self.lists@.update(b, nl);
            let ex2 = ex.insert(idx);
            l.remove_ensures(k);
            assert forall|n: int| 0 <= n < self.nodes@.len() && !p.contains(n as u32)
                implies #[trigger] self.nodes@[n] == old_self.nodes@[n] by {}
            FreeList::lemma_struct_frame(&old_self, self);
            FreeList::lemma_regions_same(&old_self, self);
            assert forall|bb: int| 0 <= bb < BIN_COUNT && bb != b implies #[trigger] self.bins@[bb] == old_self.bins@[bb] by {
                if prev == NULL {
                    assert(b == fl_g * 64 + sl_g);
                }
            }
            if prev == NULL {
                assert(b == fl_g * 64 + sl_g);
                assert(k == 0);
                if nl.len() > 0 {
                    assert(nl[0] == l[1]);
                }
            } else {
                assert(k > 0);
                assert(nl[0] == l[0]);
                assert(old_self.bins@[b] == head_of(l)) by {
                    reveal(FreeList::bin_ok);
                    assert(old_self.bin_ok(b, ex));
                }
            }
            assert(self.bins@[b] == head_of(nl));
            FreeList::lemma_remove_bins(&old_self, self, idx, ex, b, k);
            FreeList::lemma_remove_covered(&old_self, self, idx, ex, b, k);
            if prev == NULL && next == NULL {
                assert(nl.len() == 0);
                assert(b == fl_g * 64 + sl_g);
                FreeList::lemma_bitmaps_clear(&old_self, self, fl_g, sl_g);
            } else {
                assert(nl.len() > 0);
                FreeList::lemma_bitmaps_same(&old_self, self);
            }
        }
    }
}

impl FreeList {
    proof fn lemma_bitmaps_same(a: &FreeList, c: &FreeList)
        requires
            a.bitmaps_ok(),
            a.lists@.len() == BIN_COUNT,
            c.lists@.len() == BIN_COUNT,
            c.second_level_masks@ == a.second_level_masks@,
            c.first_level_mask == a.first_level_mask,
            forall|b: int| 0 <= b < BIN_COUNT ==> (#[trigger] c.lists@[b].len() > 0) == (a.lists@[b].len() > 0),
        ensures
            c.bitmaps_ok(),
    {
        reveal(FreeList::bitmaps_ok);
        assert forall|f: int, s2: int| 0 <= f < 64 && 0 <= s2 < 64 implies (#[trigger] bit(c.second_level_masks@[f], s2)
            <==> c.lists@[f * 64 + s2].len() > 0) by {
            assert(0 <= f * 64 + s2 < BIN_COUNT) by (nonlinear_arith)
                requires 0 <= f < 64, 0 <= s2 < 64;
            assert(c.lists@[f * 64 + s2].len() > 0 <==> a.lists@[f * 64 + s2].len() > 0);
        }
    }

    proof fn lemma_bitmaps_set(a: &FreeList, c: &FreeList, fl: int, sl: int)
        requires
            a.bitmaps_ok(),
            0 <= fl < 64,
            0 <= sl < 64,
            a.lists@.len() == BIN_COUNT,
            c.lists@.len() == BIN_COUNT,
            c.lists@[fl * 64 + sl].len() > 0,
            forall|b: int| 0 <= b < BIN_COUNT && b != fl * 64 + sl ==> (#[trigger] c.lists@[b].len() > 0) == (a.lists@[b].len() > 0),
            c.second_level_masks@ == a.second_level_masks@.update(fl, a.second_level_masks@[fl] | (1u64 << (sl as u64))),
            c.first_level_mask == a.first_level_mask | (1u64 << (fl as u64)),
        ensures
            c.bitmaps_ok(),
    {
        reveal(FreeList::bitmaps_ok);
        let m = c.second_level_masks@[fl];
        assert forall|f: int, s2: int| 0 <= f < 64 && 0 <= s2 < 64 implies (#[trigger] bit(c.second_level_masks@[f], s2)
            <==> c.lists@[f * 64 + s2].len() > 0) by {
            assert(0 <= f * 64 + s2 < BIN_COUNT) by (nonlinear_arith)
                requires 0 <= f < 64, 0 <= s2 < 64;
            if f == fl {
                lemma_bit_set(a.second_level_masks@[f], sl as u64, s2 as u64);
            } else {
                assert(f * 64 + s2 != fl * 64 + sl) by (nonlinear_arith)
                    requires f != fl, 0 <= s2 < 64, 0 <= sl < 64;
            }
        }
        assert forall|f: int| 0 <= f < 64 implies (#[trigger] bit(c.first_level_mask, f)
            <==> c.second_level_masks@[f] != 0) by {
            lemma_bit_set(a.first_level_mask, fl as u64, f as u64);
            if f == fl {
                lemma_bit_set(a.second_level_masks@[f], sl as u64, sl as u64);
                lemma_zero_iff_no_bits(m);
            }
        }
    }

    proof fn lemma_bitmaps_clear(a: &FreeList, c: &FreeList, fl: int, sl: int)
        requires
            a.bitmaps_ok(),
            0 <= fl < 64,
            0 <= sl < 64,
            a.lists@.len() == BIN_COUNT,
            c.lists@.len() == BIN_COUNT,
            a.lists@[fl * 64 + sl].len() > 0,
            c.lists@[fl * 64 + sl].len() == 0,
            forall|b: int| 0 <= b < BIN_COUNT && b != fl * 64 + sl ==> (#[trigger] c.lists@[b].len() > 0) == (a.lists@[b].len() > 0),
            c.second_level_masks@ == a.second_level_masks@.update(fl, a.second_level_masks@[fl] & !(1u64 << (sl as u64))),
            c.first_level_mask == (if c.second_level_masks@[fl] == 0 {
                a.first_level_mask & !(1u64 << (fl as u64))
            } else {
                a.first_level_mask
            }),
        ensures
            c.bitmaps_ok(),
    {
        reveal(FreeList::bitmaps_ok);
        assert forall|f: int, s2: int| 0 <= f < 64 && 0 <= s2 < 64 implies (#[trigger] bit(c.second_level_masks@[f], s2)
            <==> c.lists@[f * 64 + s2].len() > 0) by {
            assert(0 <= f * 64 + s2 < BIN_COUNT) by (nonlinear_arith)
                requires 0 <= f < 64, 0 <= s2 < 64;
            if f == fl {
                lemma_bit_clear(a.second_level_masks@[f], sl as u64, s2 as u64);
            } else {
                assert(f * 64 + s2 != fl * 64 + sl) by (nonlinear_arith)
                    requires f != fl, 0 <= s2 < 64, 0 <= sl < 64;
            }
        }
        assert(bit(a.second_level_masks@[fl], sl));
        lemma_zero_iff_no_bits(a.second_level_masks@[fl]);
        assert forall|f: int| 0 <= f < 64 implies (#[trigger] bit(c.first_level_mask, f)
            <==> c.second_level_masks@[f] != 0) by {
            if c.second_level_masks@[fl] == 0 {
                lemma_bit_clear(a.first_level_mask, fl as u64, f as u64);
            }
        }
    }
}

impl FreeList {
    proof fn lemma_remove_bins(a: &FreeList, c: &FreeList, idx: u32, ex: Set<u32>, b: int, k: int)
        requires
            a.lists_ok(ex),
            a.struct_ok(),
            0 <= b < BIN_COUNT,
            0 <= k < a.lists@[b].len(),
            a.lists@[b][k] == idx,
            c.lists@ == a.lists@.update(b, a.lists@[b].remove(k)),
            c.phys@ == a.phys@,
            c.nodes@.len() == a.nodes@.len(),
            forall|n: int| 0 <= n < c.nodes@.len() ==> same_shape(#[trigger] c.nodes@[n], a.nodes@[n]),
            forall|n: int|
                0 <= n < c.nodes@.len() && n != idx && n != a.nodes@[idx as int].prev_free && n
                    != a.nodes@[idx as int].next_free ==> #[trigger] c.nodes@[n] == a.nodes@[n],
            a.nodes@[idx as int].prev_free != NULL ==> c.nodes@[a.nodes@[idx as int].prev_free as int].next_free
                == a.nodes@[idx as int].next_free && c.nodes@[a.nodes@[idx as int].prev_free as int].prev_free
                == a.nodes@[a.nodes@[idx as int].prev_free as int].prev_free,
            a.nodes@[idx as int].next_free != NULL ==> c.nodes@[a.nodes@[idx as int].next_free as int].prev_free
                == a.nodes@[idx as int].prev_free && c.nodes@[a.nodes@[idx as int].next_free as int].next_free
                == a.nodes@[a.nodes@[idx as int].next_free as int].next_free,
            c.bins@.len() == BIN_COUNT,
            forall|bb: int| 0 <= bb < BIN_COUNT && bb != b ==> #[trigger] c.bins@[bb] == a.bins@[bb],
            c.bins@[b] == head_of(a.lists@[b].remove(k)),
        ensures
            forall|bb: int| 0 <= bb < BIN_COUNT ==> #[trigger] c.bin_ok(bb, ex.insert(idx)),
    {
        let l = a.lists@[b];
        let nl = l.remove(k);
        let ex2 = ex.insert(idx);
        l.remove_ensures(k);
        let prev = a.nodes@[idx as int].prev_free;
        let next = a.nodes@[idx as int].next_free;
        a.lemma_member_bin(b, k, ex);
        assert(links_ok(a.nodes@, l));
        assert(l[k] == idx);
        assert(prev == (if k == 0 { NULL } else { l[k - 1] }));
        assert(next == (if k + 1 < l.len() { l[k + 1] } else { NULL }));
        a.lemma_phys_node(idx);
        if k > 0 {
            a.lemma_member_bin(b, k - 1, ex);
        }
        if k + 1 < l.len() {
            a.lemma_member_bin(b, k + 1, ex);
        }
        assert forall|bb: int| 0 <= bb < BIN_COUNT implies #[trigger] c.bin_ok(bb, ex2) by {
            assert(a.bin_ok(bb, ex));
            if bb != b {
                assert forall|j: int| 0 <= j < a.lists@[bb].len()
                    implies c.nodes@[#[trigger] a.lists@[bb][j] as int]
                        == a.nodes@[a.lists@[bb][j] as int] by {
                    a.lemma_member_bin(bb, j, ex);
                    let n = a.lists@[bb][j];
                    assert(n != idx);
                    assert(n != prev);
                    assert(n != next);
                }
                assert forall|j: int| 0 <= j < a.lists@[bb].len() && ex2.contains(#[trigger] a.lists@[bb][j])
                    implies ex.contains(a.lists@[bb][j]) by {
                    a.lemma_member_bin(bb, j, ex);
                }
                FreeList::lemma_bin_frame(a, c, bb, ex, ex2);
            } else {
                reveal(FreeList::bin_ok);
                assert(members_ok(a.nodes@, a.phys@, l, b, ex));
                assert forall|j: int| 0 <= j < nl.len() implies {
                    let n = #[trigger] nl[j];
                    &&& (n as int) < c.nodes@.len()
                    &&& c.phys@.contains(n)
                    &&& c.nodes@[n as int].is_free
                    &&& bin_index(c.nodes@[n as int].size) == b
                    &&& !ex2.contains(n)
                } by {
                    let jj = if j < k { j } else { j + 1 };
                    assert(nl[j] == l[jj]);
                    assert(l[jj] != l[k]);
                    assert(same_shape(c.nodes@[l[jj] as int], a.nodes@[l[jj] as int]));
                }
                assert forall|j: int| 0 <= j < nl.len() implies {
                    &&& (#[trigger] nl[j] as int) < c.nodes@.len()
                    &&& c.nodes@[nl[j] as int].next_free == (if j + 1 < nl.len() {
                        nl[j + 1]
                    } else {
                        NULL
                    })
                    &&& c.nodes@[nl[j] as int].prev_free == (if j == 0 {
                        NULL
                    } else {
                        nl[j - 1]
                    })
                } by {
                    let jj = if j < k { j } else { j + 1 };
                    assert(nl[j] == l[jj]);
                    assert(l[jj] != l[k]);
                    if j + 1 < nl.len() {
                        let jn = if j + 1 < k { j + 1 } else { j + 2 };
                        assert(nl[j + 1] == l[jn]);
                    }
                    if j > 0 {
                        let jp = if j - 1 < k { j - 1 } else { j };
                        assert(nl[j - 1] == l[jp]);
                    }
                    if k > 0 {
                        assert(l[k - 1] != l[k]);
                    }
                    if k + 1 < l.len() {
                        assert(l[k + 1] != l[k]);
                        if k > 0 {
                            assert(l[k + 1] != l[k - 1]);
                        }
                    }
                }
                assert forall|i1: int, i2: int| 0 <= i1 < nl.len() && 0 <= i2 < nl.len() && i1 != i2
                    implies nl[i1] != nl[i2] by {
                    let j1 = if i1 < k { i1 } else { i1 + 1 };
                    let j2 = if i2 < k { i2 } else { i2 + 1 };
                    assert(nl[i1] == l[j1]);
                    assert(nl[i2] == l[j2]);
                }
                assert(links_ok(c.nodes@, nl));
            }
        }
    }

    proof fn lemma_remove_covered(a: &FreeList, c: &FreeList, idx: u32, ex: Set<u32>, b: int, k: int)
        requires
            a.lists_ok(ex),
            a.struct_ok(),
            0 <= b < BIN_COUNT,
            0 <= k < a.lists@[b].len(),
            a.lists@[b][k] == idx,
            c.lists@ == a.lists@.update(b, a.lists@[b].remove(k)),
            c.phys@ == a.phys@,
            c.nodes@.len() == a.nodes@.len(),
            forall|n: int| 0 <= n < c.nodes@.len() ==> same_shape(#[trigger] c.nodes@[n], a.nodes@[n]),
        ensures
            c.covered(ex.insert(idx)),
    {
        let l = a.lists@[b];
        let nl = l.remove(k);
        let ex2 = ex.insert(idx);
        let p = a.phys@;
        l.remove_ensures(k);
        reveal(FreeList::covered);
        assert(a.covered(ex));
        a.lemma_member_bin(b, k, ex);
        assert forall|i: int| 0 <= i < p.len() && c.nodes@[#[trigger] p[i] as int].is_free && !ex2.contains(p[i])
            implies c.lists@[bin_index(c.nodes@[p[i] as int].size)].contains(p[i]) by {
            assert(p.contains(p[i]));
            a.lemma_phys_node(p[i]);
            assert(same_shape(c.nodes@[p[i] as int], a.nodes@[p[i] as int]));
            let bb = bin_index(a.nodes@[p[i] as int].size);
            lemma_bin_of(a.nodes@[p[i] as int].size as int);
            assert(a.lists@[bb].contains(p[i]));
            if bb == b {
                let j = choose|j: int| 0 <= j < l.len() && l[j] == p[i];
                assert(j != k);
                let jj = if j < k { j } else { j - 1 };
                assert(nl[jj] == p[i]);
                assert(c.lists@[bb] == nl);
            } else {
                assert(c.lists@[bb] == a.lists@[bb]);
            }
        }
    }
}

impl FreeList {
    /// Find a free block at (fl, sl) or the next non-empty bin.
    fn find_suitable_block(&self, fl: usize, sl: usize) -> (r: Option<u32>)
        requires
            self.lists_ok(Set::empty()),
            fl < 57,
            sl < SL_COUNT,
        ensures
            match r {
                None => forall|c: int| fl * 64 + sl <= c < BIN_COUNT ==> #[trigger] self.lists@[c].len() == 0,
                Some(n) => exists|c: int|
                    fl * 64 + sl <= c < BIN_COUNT && #[trigger] self.lists@[c].len() > 0 && n == self.lists@[c][0]
                        && forall|d: int| fl * 64 + sl <= d < c ==> #[trigger] self.lists@[d].len() == 0,
            },
    {
        proof {
            reveal(FreeList::bitmaps_ok);
        }
        let ghost flm = self.first_level_mask;
        let slm_fl = self.second_level_masks[fl];
        let sl_map = slm_fl & (!0u64 << (sl as u64));
        proof {
            assert forall|k: int| 0 <= k < 64 implies (#[trigger] bit(sl_map, k) == (k >= sl && bit(slm_fl, k))) by {
                lemma_mask_from(slm_fl, sl as u64, k as u64);
            }
        }
        if sl_map != 0 {
            let found_sl = sl_map.trailing_zeros() as usize;
            proof {
                lemma_lowest_bit(sl_map);
                let c = fl * 64 + found_sl;
                assert(bit(slm_fl, found_sl as int));
                assert(self.lists@[c].len() > 0);
                assert(self.bin_ok(c, Set::empty()));
                assert(self.bins@[c] == head_of(self.lists@[c])) by {
                    reveal(FreeList::bin_ok);
                }
                assert forall|d: int| fl * 64 + sl <= d < c implies #[trigger] self.lists@[d].len() == 0 by {
                    let s2 = d - fl * 64;
                    assert(!bit(sl_map, s2));
                    assert(!bit(slm_fl, s2));
                }
            }
            let idx = self.bins[fl * 64 + found_sl];
            return Some(idx);
        }
        let fl_map = self.first_level_mask & (!0u64 << ((fl + 1) as u64));
        proof {
            assert forall|k: int| 0 <= k < 64 implies (#[trigger] bit(fl_map, k) == (k >= fl + 1 && bit(flm, k))) by {
                lemma_mask_from(flm, (fl + 1) as u64, k as u64);
            }
            assert forall|d: int| fl * 64 + sl <= d < (fl + 1) * 64 implies #[trigger] self.lists@[d].len() == 0 by {
                let s2 = d - fl * 64;
                assert(!bit(sl_map, s2));
                assert(!bit(slm_fl, s2));
            }
        }
        if fl_map == 0 {
            proof {
                lemma_zero_iff_no_bits(fl_map);
                assert forall|c: int| fl * 64 + sl <= c < BIN_COUNT implies #[trigger] self.lists@[c].len() == 0 by {
                    if c >= (fl + 1) * 64 {
                        let f = c / 64;
                        let s2 = c % 64;
                        assert(f * 64 + s2 == c);
                        assert(f >= fl + 1);
                        assert(!bit(fl_map, f));
                        assert(!bit(flm, f));
                        assert(self.second_level_masks@[f] == 0);
                        lemma_zero_iff_no_bits(self.second_level_masks@[f]);
                        assert(!bit(self.second_level_masks@[f], s2));
                    }
                }
            }
            return None;
        }
        let found_fl = fl_map.trailing_zeros() as usize;
        proof {
            lemma_lowest_bit(fl_map);
            assert(bit(flm, found_fl as int));
        }
        let sl_map2 = self.second_level_masks[found_fl];
        proof {
            assert(sl_map2 != 0);
            lemma_lowest_bit(sl_map2);
        }
        let found_sl = sl_map2.trailing_zeros() as usize;
        proof {
            let c = found_fl * 64 + found_sl;
            assert(self.lists@[c].len() > 0);
            assert(self.bin_ok(c, Set::empty()));
            assert(self.bins@[c] == head_of(self.lists@[c])) by {
                reveal(FreeList::bin_ok);
            }
            assert forall|d: int| fl * 64 + sl <= d < c implies #[trigger] self.lists@[d].len() == 0 by {
                if d >= (fl + 1) * 64 {
                    let f = d / 64;
                    let s2 = d % 64;
                    assert(f * 64 + s2 == d);
                    if f < found_fl {
                        assert(!bit(fl_map, f));
                        assert(!bit(flm, f));
                        lemma_zero_iff_no_bits(self.second_level_masks@[f]);
                        assert(!bit(self.second_level_masks@[f], s2));
                    } else {
                        assert(f == found_fl);
                        assert(s2 < found_sl);
                        assert(!bit(sl_map2, s2));
                    }
                }
            }
        }
        let idx = self.bins[found_fl * 64 + found_sl];
        Some(idx)
    }
}

impl FreeList {
    /// Split the free node `idx`, found at position `i` of the chain, at
    /// `cut_size` from its start. The split node keeps the front; the new
    /// back node is returned.
    fn split_node(&mut self, idx: u32, cut_size: u64, Ghost(i): Ghost<int>, Ghost(ex): Ghost<Set<u32>>) -> (back: u32)
        requires
            old(self).struct_ok(),
            old(self).lists_ok(ex),
            0 <= i < old(self).phys@.len(),
            old(self).phys@[i] == idx,
            ex.contains(idx),
            old(self).nodes@[idx as int].is_free,
            cut_size % 16 == 0,
            cut_size >= MIN_ALLOC,
            old(self).nodes@[idx as int].size >= cut_size + MIN_ALLOC,
            old(self).nodes@.len() < MAX_NODES,
        ensures
            final(self).struct_ok(),
            final(self).lists_ok(ex.insert(back)),
            final(self).regions() == old(self).regions().take(i) + seq![
                (old(self).nodes@[idx as int].offset, cut_size, true),
                ((old(self).nodes@[idx as int].offset + cut_size) as u64, (old(self).nodes@[idx as int].size - cut_size) as u64, true),
            ] + old(self).regions().skip(i + 1),
            !old(self).phys@.contains(back),
            final(self).phys@ == old(self).phys@.insert(i + 1, back),
            final(self).lists@ == old(self).lists@,
            final(self).block_size == old(self).block_size,
            final(self).free_bytes == old(self).free_bytes,
            final(self).nodes@.len() <= old(self).nodes@.len() + 1,
            final(self).nodes@.len() >= old(self).nodes@.len(),
            final(self).nodes@[idx as int] == (MemNode {
                size: cut_size,
                next_phys: back,
                ..old(self).nodes@[idx as int]
            }),
            final(self).nodes@[back as int] == (MemNode {
                offset: (old(self).nodes@[idx as int].offset + cut_size) as u64,
                size: (old(self).nodes@[idx as int].size - cut_size) as u64,
                prev_phys: idx,
                next_phys: old(self).nodes@[idx as int].next_phys,
                prev_free: NULL,
                next_free: NULL,
                is_free: true,
                generation: NULL,
            }),
            forall|j: int|
                0 <= j < final(self).phys@.len() && j != i && j != i + 1 ==> (#[trigger] final(self).nodes@[final(self).phys@[j] as int]).offset
                    == old(self).nodes@[final(self).phys@[j] as int].offset
                    && final(self).nodes@[final(self).phys@[j] as int].size == old(self).nodes@[final(self).phys@[j] as int].size
                    && final(self).nodes@[final(self).phys@[j] as int].is_free == old(self).nodes@[final(self).phys@[j] as int].is_free
                    && final(self).nodes@[final(self).phys@[j] as int].prev_free == old(self).nodes@[final(self).phys@[j] as int].prev_free
                    && final(self).nodes@[final(self).phys@[j] as int].next_free == old(self).nodes@[final(self).phys@[j] as int].next_free,
    {
        let ghost old_self = *self;
        let ghost p = self.phys@;
        proof {
            self.lemma_phys_node(idx);
            self.lemma_chain_facts(i);
        }
        let orig = self.nodes[idx as usize];
        let back_offset = orig.offset + cut_size;
        let back_size = orig.size - cut_size;
        let next_phys = orig.next_phys;
        let is_free = orig.is_free;
        let back_node = MemNode {
            offset: back_offset,
            size: back_size,
            prev_phys: idx,
            next_phys,
            prev_free: NULL,
            next_free: NULL,
            is_free,
            generation: NULL,
        };
        let back: u32;
        if self.recycled.len() > 0 {
            proof {
                self.lemma_recycled_facts(self.recycled@.len() - 1);
            }
            let r = self.recycled.pop();
            back = match r {
                Some(v) => v,
                None => 0,
            };
            self.nodes.set(back as usize, back_node);
        } else {
            back = self.nodes.len() as u32;
            self.nodes.push(back_node);
            proof {
                if p.contains(back) {
                    let j = choose|j: int| 0 <= j < p.len() && p[j] == back;
                    old_self.lemma_phys_node(p[j]);
                }
            }
        }
        proof {
            assert(!p.contains(back));
            if i + 1 < p.len() {
                assert(next_phys == p[i + 1]);
                assert(p.contains(p[i + 1]));
                assert(next_phys != back);
                assert(next_phys != idx);
            }
            assert(self.nodes@[back as int] == back_node);
            assert(forall|n: int| 0 <= n < old_self.nodes@.len() && n != back ==> #[trigger] self.nodes@[n] == old_self.nodes@[n]);
        }
        let ghost s1 = self.nodes@;
        let mut front = self.nodes[idx as usize];
        front.size = cut_size;
        front.next_phys = back;
        self.nodes.set(idx as usize, front);
        let ghost s2 = self.nodes@;
        assert(forall|n: int| 0 <= n < s1.len() && n != idx ==> #[trigger] s2[n] == s1[n]);
        if next_phys != NULL {
            proof {
                old_self.lemma_phys_node(next_phys);
            }
            let mut nx = self.nodes[next_phys as usize];
            nx.prev_phys = back;
            self.nodes.set(next_phys as usize, nx);
            assert(s2[next_phys as int] == old_self.nodes@[next_phys as int]);
            assert(self.nodes@[next_phys as int] == (MemNode { prev_phys: back, ..old_self.nodes@[next_phys as int] }));
        }
        assert(forall|n: int| 0 <= n < s2.len() && n != next_phys ==> #[trigger] self.nodes@[n] == s2[n]);
        assert(next_phys != NULL ==> self.nodes@[next_phys as int] == (MemNode { prev_phys: back, ..old_self.nodes@[next_phys as int] }));
        proof {
            let np = p.insert(i + 1, back);
            p.insert_ensures(i + 1, back);
            assert(forall|n: int| 0 <= n < old_self.nodes@.len() && n != idx && n != back && n != next_phys
                ==> #[trigger] self.nodes@[n] == old_self.nodes@[n]);
            self.phys@ = np;
            assert(!p.contains(back));
            assert(back != idx);
            if i + 1 < p.len() {
                assert(next_phys == p[i + 1]);
                assert(p.contains(p[i + 1]));
                old_self.lemma_phys_node(p[i + 1]);
                assert(next_phys != back);
                assert(next_phys != idx);
            } else {
                assert(next_phys == NULL);
            }
            FreeList::lemma_split_struct(&old_self, self, idx, back, i, cut_size);
            assert forall|j: int| 0 <= j < p.len() && j != i implies {
                let n = #[trigger] p[j];
                &&& self.nodes@[n as int].is_free == old_self.nodes@[n as int].is_free
                &&& self.nodes@[n as int].size == old_self.nodes@[n as int].size
                &&& self.nodes@[n as int].prev_free == old_self.nodes@[n as int].prev_free
                &&& self.nodes@[n as int].next_free == old_self.nodes@[n as int].next_free
            } by {
                assert(p.contains(p[j]));
                old_self.lemma_phys_node(p[j]);
                assert(p[j] != back);
                assert(p[j] != idx);
                if p[j] != next_phys {
                    assert(self.nodes@[p[j] as int] == old_self.nodes@[p[j] as int]);
                }
            }
            assert forall|j: int|
                0 <= j < np.len() && j != i && j != i + 1 implies (#[trigger] self.nodes@[np[j] as int]).offset
                    == old_self.nodes@[np[j] as int].offset
                    && self.nodes@[np[j] as int].size == old_self.nodes@[np[j] as int].size
                    && self.nodes@[np[j] as int].is_free == old_self.nodes@[np[j] as int].is_free
                    && self.nodes@[np[j] as int].prev_free == old_self.nodes@[np[j] as int].prev_free
                    && self.nodes@[np[j] as int].next_free == old_self.nodes@[np[j] as int].next_free by {
                let jj = if j < i { j } else { j - 1 };
                assert(np[j] == p[jj]);
                assert(p.contains(p[jj]));
                old_self.lemma_phys_node(p[jj]);
                assert(p[jj] != back);
                assert(p[jj] != idx);
                if p[jj] != next_phys {
                    assert(self.nodes@[p[jj] as int] == old_self.nodes@[p[jj] as int]);
                }
            }
            FreeList::lemma_split_lists(&old_self, self, idx, back, ex, i);
            assert forall|j: int| 0 <= j < i implies self.phys@[j] == old_self.phys@[j] by {}
            assert forall|j: int| i + 1 < j < self.phys@.len() implies self.phys@[j] == old_self.phys@[j - 1] by {}
            FreeList::lemma_regions_split(&old_self, self, i);
            assert(self.regions()[i] == (old_self.nodes@[idx as int].offset, cut_size, true));
        }
        back
    }
}

impl FreeList {
    /// Bin `b` stays well formed when its members keep their size, state and
    /// bin links and stay in the chain.
    proof fn lemma_bin_frame_members(a: &FreeList, c: &FreeList, b: int, ex1: Set<u32>, ex2: Set<u32>)
        requires
            a.bin_ok(b, ex1),
            0 <= b < a.lists@.len(),
            c.lists@[b] == a.lists@[b],
            c.bins@[b] == a.bins@[b],
            c.nodes@.len() >= a.nodes@.len(),
            forall|k: int|
                0 <= k < a.lists@[b].len() ==> {
                    let n = #[trigger] a.lists@[b][k];
                    &&& c.nodes@[n as int].is_free == a.nodes@[n as int].is_free
                    &&& c.nodes@[n as int].size == a.nodes@[n as int].size
                    &&& c.nodes@[n as int].prev_free == a.nodes@[n as int].prev_free
                    &&& c.nodes@[n as int].next_free == a.nodes@[n as int].next_free
                    &&& c.phys@.contains(n)
                    &&& (ex2.contains(n) ==> ex1.contains(n))
                },
        ensures
            c.bin_ok(b, ex2),
    {
        reveal(FreeList::bin_ok);
        let l = a.lists@[b];
        assert forall|k: int| 0 <= k < l.len() implies {
            &&& (#[trigger] l[k] as int) < c.nodes@.len()
            &&& c.nodes@[l[k] as int].next_free == (if k + 1 < l.len() { l[k + 1] } else { NULL })
            &&& c.nodes@[l[k] as int].prev_free == (if k == 0 { NULL } else { l[k - 1] })
        } by {}
        assert forall|k: int| 0 <= k < l.len() implies {
            let n = #[trigger] l[k];
            &&& (n as int) < c.nodes@.len()
            &&& c.phys@.contains(n)
            &&& c.nodes@[n as int].is_free
            &&& bin_index(c.nodes@[n as int].size) == b
            &&& !ex2.contains(n)
        } by {}
    }

    proof fn lemma_split_lists(a: &FreeList, c: &FreeList, idx: u32, back: u32, ex: Set<u32>, i: int)
        requires
            a.lists_ok(ex),
            a.struct_ok(),
            ex.contains(idx),
            0 <= i < a.phys@.len(),
            a.phys@[i] == idx,
            !a.phys@.contains(back),
            c.phys@ == a.phys@.insert(i + 1, back),
            c.lists@ == a.lists@,
            c.bins@ == a.bins@,
            c.second_level_masks@ == a.second_level_masks@,
            c.first_level_mask == a.first_level_mask,
            c.nodes@.len() >= a.nodes@.len(),
            forall|j: int|
                0 <= j < a.phys@.len() && j != i ==> {
                    let n = #[trigger] a.phys@[j];
                    &&& c.nodes@[n as int].is_free == a.nodes@[n as int].is_free
                    &&& c.nodes@[n as int].size == a.nodes@[n as int].size
                    &&& c.nodes@[n as int].prev_free == a.nodes@[n as int].prev_free
                    &&& c.nodes@[n as int].next_free == a.nodes@[n as int].next_free
                },
        ensures
            c.lists_ok(ex.insert(back)),
    {
        let p = a.phys@;
        let np = c.phys@;
        let ex2 = ex.insert(back);
        p.insert_ensures(i + 1, back);
        assert forall|bb: int| 0 <= bb < BIN_COUNT implies #[trigger] c.bin_ok(bb, ex2) by {
            assert(a.bin_ok(bb, ex));
            assert forall|k: int| 0 <= k < a.lists@[bb].len() implies {
                let n = #[trigger] a.lists@[bb][k];
                &&& c.nodes@[n as int].is_free == a.nodes@[n as int].is_free
                &&& c.nodes@[n as int].size == a.nodes@[n as int].size
                &&& c.nodes@[n as int].prev_free == a.nodes@[n as int].prev_free
                &&& c.nodes@[n as int].next_free == a.nodes@[n as int].next_free
                &&& c.phys@.contains(n)
                &&& (ex2.contains(n) ==> ex.contains(n))
            } by {
                a.lemma_member_bin(bb, k, ex);
                let n = a.lists@[bb][k];
                let j = choose|j: int| 0 <= j < p.len() && p[j] == n;
                assert(j != i);
                let jj = if j <= i { j } else { j + 1 };
                assert(np[jj] == n);
                assert(n != back);
            }
            FreeList::lemma_bin_frame_members(a, c, bb, ex, ex2);
        }
        assert(c.covered(ex2)) by {
            reveal(FreeList::covered);
            assert(a.covered(ex));
            assert forall|j: int| 0 <= j < np.len() && c.nodes@[#[trigger] np[j] as int].is_free && !ex2.contains(np[j])
                implies c.lists@[bin_index(c.nodes@[np[j] as int].size)].contains(np[j]) by {
                assert(j != i + 1);
                let jj = if j <= i { j } else { j - 1 };
                assert(np[j] == p[jj]);
                assert(jj != i);
            }
        }
        assert(c.bitmaps_ok()) by {
            reveal(FreeList::bitmaps_ok);
            assert(a.bitmaps_ok());
        }
    }
}

impl FreeList {
    /// Neighbour facts for position `i` of the chain.
    proof fn lemma_chain_facts(&self, i: int)
        requires
            self.struct_ok(),
            0 <= i < self.phys@.len(),
        ensures
            (self.phys@[i] as int) < self.nodes@.len(),
            self.nodes@[self.phys@[i] as int].next_phys == (if i + 1 < self.phys@.len() {
                self.phys@[i + 1]
            } else {
                NULL
            }),
            self.nodes@[self.phys@[i] as int].prev_phys == (if i == 0 {
                NULL
            } else {
                self.phys@[i - 1]
            }),
            i + 1 < self.phys@.len() ==> self.nodes@[self.phys@[i + 1] as int].offset
                == self.nodes@[self.phys@[i] as int].offset + self.nodes@[self.phys@[i] as int].size,
            i + 1 == self.phys@.len() ==> self.nodes@[self.phys@[i] as int].offset
                + self.nodes@[self.phys@[i] as int].size == self.block_size,
            i == 0 ==> self.nodes@[self.phys@[i] as int].offset == 0,
            self.phys@.no_duplicates(),
            self.nodes@.len() <= MAX_NODES,
            self.block_size >= MIN_ALLOC,
    {
        reveal(FreeList::struct_ok);
        assert(self.phys@.last() == self.phys@[self.phys@.len() - 1]);
        if i > 0 {
            assert(self.nodes@[self.phys@[i - 1] as int].next_phys == self.phys@[i]);
        }
    }

    proof fn lemma_recycled_facts(&self, k: int)
        requires
            self.struct_ok(),
            0 <= k < self.recycled@.len(),
        ensures
            (self.recycled@[k] as int) < self.nodes@.len(),
            !self.phys@.contains(self.recycled@[k]),
    {
        reveal(FreeList::struct_ok);
    }

    #[verifier::spinoff_prover]
    proof fn lemma_split_struct_1(a: &FreeList, c: &FreeList, idx: u32, back: u32, i: int, cut: u64)
        requires
            a.struct_ok(),
            0 <= i < a.phys@.len(),
            a.phys@[i] == idx,
            !a.phys@.contains(back),
            (back as int) < c.nodes@.len(),
            c.nodes@.len() <= MAX_NODES,
            c.nodes@.len() == a.nodes@.len() || (c.nodes@.len() == a.nodes@.len() + 1 && back as int == a.nodes@.len()),
            c.nodes@.len() == a.nodes@.len() ==> a.recycled@.len() > 0 && back == a.recycled@.last()
                && c.recycled@ == a.recycled@.drop_last(),
            c.nodes@.len() == a.nodes@.len() + 1 ==> c.recycled@ == a.recycled@,
            c.phys@ == a.phys@.insert(i + 1, back),
            c.block_size == a.block_size,
            c.second_level_masks@.len() == a.second_level_masks@.len(),
            c.bins@.len() == a.bins@.len(),
            cut % 16 == 0,
            cut >= MIN_ALLOC,
            a.nodes@[idx as int].size >= cut + MIN_ALLOC,
            c.nodes@[idx as int] == (MemNode { size: cut, next_phys: back, ..a.nodes@[idx as int] }),
            c.nodes@[back as int] == (MemNode {
                offset: (a.nodes@[idx as int].offset + cut) as u64,
                size: (a.nodes@[idx as int].size - cut) as u64,
                prev_phys: idx,
                next_phys: a.nodes@[idx as int].next_phys,
                prev_free: NULL,
                next_free: NULL,
                is_free: true,
                generation: NULL,
            }),
            i + 1 < a.phys@.len() ==> c.nodes@[a.phys@[i + 1] as int] == (MemNode {
                prev_phys: back,
                ..a.nodes@[a.phys@[i + 1] as int]
            }),
            forall|n: int|
                0 <= n < a.nodes@.len() && n != idx && n != back && !(i + 1 < a.phys@.len() && n
                    == a.phys@[i + 1]) ==> #[trigger] c.nodes@[n] == a.nodes@[n],
        ensures
            forall|j: int| 0 <= j < c.phys@.len() ==> (#[trigger] c.phys@[j] as int) < c.nodes@.len(),
            c.phys@.no_duplicates(),
            forall|j: int|
                0 <= j < c.phys@.len() ==> {
                    let n = c.nodes@[#[trigger] c.phys@[j] as int];
                    &&& n.size >= MIN_ALLOC
                    &&& n.offset % 16 == 0
                    &&& n.offset + n.size <= c.block_size
                },
    {
        reveal(FreeList::struct_ok);
        let p = a.phys@;
        let np = c.phys@;
        p.insert_ensures(i + 1, back);
        assert(a.nodes@[p[i] as int].next_phys == (if i + 1 < p.len() { p[i + 1] } else { NULL }));
        assert forall|j: int| 0 <= j < np.len() implies (#[trigger] np[j] as int) < c.nodes@.len() by {
            if j > i + 1 {
                assert(np[j] == p[j - 1]);
            }
        }
        assert(np.no_duplicates()) by {
            assert forall|x: int, y: int| 0 <= x < np.len() && 0 <= y < np.len() && x != y implies np[x] != np[y] by {
                let xx = if x <= i { x } else { x - 1 };
                let yy = if y <= i { y } else { y - 1 };
                if x != i + 1 {
                    assert(np[x] == p[xx]);
                }
                if y != i + 1 {
                    assert(np[y] == p[yy]);
                }
            }
        }
        assert forall|j: int| 0 <= j < np.len() implies {
            let n = c.nodes@[#[trigger] np[j] as int];
            &&& n.size >= MIN_ALLOC
            &&& n.offset % 16 == 0
            &&& n.offset + n.size <= c.block_size
        } by {
            if j != i && j != i + 1 {
                let jj = if j < i { j } else { j - 1 };
                assert(np[j] == p[jj]);
                assert(p[jj] != p[i]);
                assert(p.contains(p[jj]));
                assert(p[jj] != back);
                if i + 1 < p.len() && jj == i + 1 {
                } else {
                    if i + 1 < p.len() {
                        assert(p[jj] != p[i + 1]);
                    }
                    assert(c.nodes@[p[jj] as int] == a.nodes@[p[jj] as int]);
                }
                assert(a.nodes@[p[jj] as int].size >= MIN_ALLOC);
            } else if j == i {
                assert(np[j] == idx);
                assert(a.nodes@[p[i] as int].offset % 16 == 0);
            } else {
                assert(np[j] == back);
                assert(a.nodes@[p[i] as int].offset % 16 == 0);
                assert((a.nodes@[idx as int].offset + cut) % 16 == 0);
            }
        }
    }

    #[verifier::spinoff_prover]
    proof fn lemma_split_struct_2(a: &FreeList, c: &FreeList, idx: u32, back: u32, i: int, cut: u64)
        requires
            a.struct_ok(),
            0 <= i < a.phys@.len(),
            a.phys@[i] == idx,
            !a.phys@.contains(back),
            (back as int) < c.nodes@.len(),
            c.nodes@.len() <= MAX_NODES,
            c.nodes@.len() == a.nodes@.len() || (c.nodes@.len() == a.nodes@.len() + 1 && back as int == a.nodes@.len()),
            c.nodes@.len() == a.nodes@.len() ==> a.recycled@.len() > 0 && back == a.recycled@.last()
                && c.recycled@ == a.recycled@.drop_last(),
            c.nodes@.len() == a.nodes@.len() + 1 ==> c.recycled@ == a.recycled@,
            c.phys@ == a.phys@.insert(i + 1, back),
            c.block_size == a.block_size,
            c.second_level_masks@.len() == a.second_level_masks@.len(),
            c.bins@.len() == a.bins@.len(),
            cut % 16 == 0,
            cut >= MIN_ALLOC,
            a.nodes@[idx as int].size >= cut + MIN_ALLOC,
            c.nodes@[idx as int] == (MemNode { size: cut, next_phys: back, ..a.nodes@[idx as int] }),
            c.nodes@[back as int] == (MemNode {
                offset: (a.nodes@[idx as int].offset + cut) as u64,
                size: (a.nodes@[idx as int].size - cut) as u64,
                prev_phys: idx,
                next_phys: a.nodes@[idx as int].next_phys,
                prev_free: NULL,
                next_free: NULL,
                is_free: true,
                generation: NULL,
            }),
            i + 1 < a.phys@.len() ==> c.nodes@[a.phys@[i + 1] as int] == (MemNode {
                prev_phys: back,
                ..a.nodes@[a.phys@[i + 1] as int]
            }),
            forall|n: int|
                0 <= n < a.nodes@.len() && n != idx && n != back && !(i + 1 < a.phys@.len() && n
                    == a.phys@[i + 1]) ==> #[trigger] c.nodes@[n] == a.nodes@[n],
        ensures
            forall|j: int|
                0 <= j < c.phys@.len() - 1 ==> {
                    &&& c.nodes@[#[trigger] c.phys@[j] as int].next_phys == c.phys@[j + 1]
                    &&& c.nodes@[c.phys@[j + 1] as int].prev_phys == c.phys@[j]
                    &&& c.nodes@[c.phys@[j + 1] as int].offset == c.nodes@[c.phys@[j] as int].offset + c.nodes@[c.phys@[j] as int].size
                },
    {
        reveal(FreeList::struct_ok);
        let p = a.phys@;
        let np = c.phys@;
        p.insert_ensures(i + 1, back);
        assert(a.nodes@[p[i] as int].next_phys == (if i + 1 < p.len() { p[i + 1] } else { NULL }));
        assert forall|j: int| 0 <= j < np.len() - 1 implies {
            &&& c.nodes@[#[trigger] np[j] as int].next_phys == np[j + 1]
            &&& c.nodes@[np[j + 1] as int].prev_phys == np[j]
            &&& c.nodes@[np[j + 1] as int].offset == c.nodes@[np[j] as int].offset + c.nodes@[np[j] as int].size
        } by {
            if j < i {
                assert(np[j] == p[j] && np[j + 1] == p[j + 1]);
            } else if j == i {
            } else if j == i + 1 {
                assert(np[j + 1] == p[i + 1]);
            } else {
                assert(np[j] == p[j - 1] && np[j + 1] == p[j]);
            }
        }
    }

    #[verifier::spinoff_prover]
    proof fn lemma_split_struct_3(a: &FreeList, c: &FreeList, idx: u32, back: u32, i: int, cut: u64)
        requires
            a.struct_ok(),
            0 <= i < a.phys@.len(),
            a.phys@[i] == idx,
            !a.phys@.contains(back),
            (back as int) < c.nodes@.len(),
            c.nodes@.len() <= MAX_NODES,
            c.nodes@.len() == a.nodes@.len() || (c.nodes@.len() == a.nodes@.len() + 1 && back as int == a.nodes@.len()),
            c.nodes@.len() == a.nodes@.len() ==> a.recycled@.len() > 0 && back == a.recycled@.last()
                && c.recycled@ == a.recycled@.drop_last(),
            c.nodes@.len() == a.nodes@.len() + 1 ==> c.recycled@ == a.recycled@,
            c.phys@ == a.phys@.insert(i + 1, back),
            c.block_size == a.block_size,
            c.second_level_masks@.len() == a.second_level_masks@.len(),
            c.bins@.len() == a.bins@.len(),
            cut % 16 == 0,
            cut >= MIN_ALLOC,
            a.nodes@[idx as int].size >= cut + MIN_ALLOC,
            c.nodes@[idx as int] == (MemNode { size: cut, next_phys: back, ..a.nodes@[idx as int] }),
            c.nodes@[back as int] == (MemNode {
                offset: (a.nodes@[idx as int].offset + cut) as u64,
                size: (a.nodes@[idx as int].size - cut) as u64,
                prev_phys: idx,
                next_phys: a.nodes@[idx as int].next_phys,
                prev_free: NULL,
                next_free: NULL,
                is_free: true,
                generation: NULL,
            }),
            i + 1 < a.phys@.len() ==> c.nodes@[a.phys@[i + 1] as int] == (MemNode {
                prev_phys: back,
                ..a.nodes@[a.phys@[i + 1] as int]
            }),
            forall|n: int|
                0 <= n < a.nodes@.len() && n != idx && n != back && !(i + 1 < a.phys@.len() && n
                    == a.phys@[i + 1]) ==> #[trigger] c.nodes@[n] == a.nodes@[n],
        ensures
            c.phys@.len() >= 1,
            c.nodes@[c.phys@[0] as int].offset == 0,
            c.nodes@[c.phys@[0] as int].prev_phys == NULL,
            c.nodes@[c.phys@.last() as int].next_phys == NULL,
            c.nodes@[c.phys@.last() as int].offset + c.nodes@[c.phys@.last() as int].size == c.block_size,
            forall|n: int|
                0 <= n < c.nodes@.len() && !c.phys@.contains(n as u32) ==> #[trigger] c.nodes@[n] == empty_node(),
            forall|k: int|
                0 <= k < c.recycled@.len() ==> (#[trigger] c.recycled@[k] as int) < c.nodes@.len()
                    && !c.phys@.contains(c.recycled@[k]),
            c.recycled@.no_duplicates(),
    {
        reveal(FreeList::struct_ok);
        let p = a.phys@;
        let np = c.phys@;
        p.insert_ensures(i + 1, back);
        assert(a.nodes@[p[i] as int].next_phys == (if i + 1 < p.len() { p[i + 1] } else { NULL }));
        if i + 1 == p.len() {
            assert(np.last() == back);
        } else {
            assert(np.last() == np[np.len() - 1]);
            assert(np[np.len() - 1] == p[p.len() - 1]);
        }
        assert(np[0] == (if i == 0 { idx } else { p[0] }));
        assert forall|n: int| 0 <= n < c.nodes@.len() && !np.contains(n as u32)
            implies #[trigger] c.nodes@[n] == empty_node() by {
            assert(np[i + 1] == back);
            assert(n != back);
            if p.contains(n as u32) {
                let j = choose|j: int| 0 <= j < p.len() && p[j] == n as u32;
                let jj = if j <= i { j } else { j + 1 };
                assert(np[jj] == n as u32);
            }
            assert(n != idx) by {
                assert(np[i] == idx);
            }
            if i + 1 < p.len() {
                assert(n != p[i + 1]) by {
                    assert(np[i + 2] == p[i + 1]);
                }
            }
        }
        assert forall|k: int| 0 <= k < c.recycled@.len() implies (#[trigger] c.recycled@[k] as int) < c.nodes@.len()
            && !np.contains(c.recycled@[k]) by {
            assert(c.recycled@[k] == a.recycled@[k]);
            assert(c.recycled@[k] != back);
            if np.contains(c.recycled@[k]) {
                let j = choose|j: int| 0 <= j < np.len() && np[j] == c.recycled@[k];
                if j != i + 1 {
                    let jj = if j <= i { j } else { j - 1 };
                    assert(np[j] == p[jj]);
                }
            }
        }
        assert(c.recycled@.no_duplicates()) by {
            assert forall|x: int, y: int| 0 <= x < c.recycled@.len() && 0 <= y < c.recycled@.len() && x != y
                implies c.recycled@[x] != c.recycled@[y] by {
                assert(c.recycled@[x] == a.recycled@[x]);
                assert(c.recycled@[y] == a.recycled@[y]);
            }
        }    }

    proof fn lemma_split_struct(a: &FreeList, c: &FreeList, idx: u32, back: u32, i: int, cut: u64)
        requires
            a.struct_ok(),
            0 <= i < a.phys@.len(),
            a.phys@[i] == idx,
            !a.phys@.contains(back),
            (back as int) < c.nodes@.len(),
            c.nodes@.len() <= MAX_NODES,
            c.nodes@.len() == a.nodes@.len() || (c.nodes@.len() == a.nodes@.len() + 1 && back as int == a.nodes@.len()),
            c.nodes@.len() == a.nodes@.len() ==> a.recycled@.len() > 0 && back == a.recycled@.last()
                && c.recycled@ == a.recycled@.drop_last(),
            c.nodes@.len() == a.nodes@.len() + 1 ==> c.recycled@ == a.recycled@,
            c.phys@ == a.phys@.insert(i + 1, back),
            c.block_size == a.block_size,
            c.second_level_masks@.len() == a.second_level_masks@.len(),
            c.bins@.len() == a.bins@.len(),
            cut % 16 == 0,
            cut >= MIN_ALLOC,
            a.nodes@[idx as int].size >= cut + MIN_ALLOC,
            c.nodes@[idx as int] == (MemNode { size: cut, next_phys: back, ..a.nodes@[idx as int] }),
            c.nodes@[back as int] == (MemNode {
                offset: (a.nodes@[idx as int].offset + cut) as u64,
                size: (a.nodes@[idx as int].size - cut) as u64,
                prev_phys: idx,
                next_phys: a.nodes@[idx as int].next_phys,
                prev_free: NULL,
                next_free: NULL,
                is_free: true,
                generation: NULL,
            }),
            i + 1 < a.phys@.len() ==> c.nodes@[a.phys@[i + 1] as int] == (MemNode {
                prev_phys: back,
                ..a.nodes@[a.phys@[i + 1] as int]
            }),
            forall|n: int|
                0 <= n < a.nodes@.len() && n != idx && n != back && !(i + 1 < a.phys@.len() && n
                    == a.phys@[i + 1]) ==> #[trigger] c.nodes@[n] == a.nodes@[n],
        ensures
            c.struct_ok(),
    {
        FreeList::lemma_split_struct_1(a, c, idx, back, i, cut);
        FreeList::lemma_split_struct_2(a, c, idx, back, i, cut);
        FreeList::lemma_split_struct_3(a, c, idx, back, i, cut);
        reveal(FreeList::struct_ok);
    }
}

impl FreeList {
    #[verifier::spinoff_prover]
    proof fn lemma_merge_struct_1(a: &FreeList, c: &FreeList, idx: u32, next: u32, i: int)
        requires
            a.struct_ok(),
            0 <= i,
            i + 1 < a.phys@.len(),
            a.phys@[i] == idx,
            a.phys@[i + 1] == next,
            c.phys@ == a.phys@.remove(i + 1),
            c.recycled@ == a.recycled@.push(next),
            c.nodes@.len() == a.nodes@.len(),
            c.block_size == a.block_size,
            c.second_level_masks@.len() == a.second_level_masks@.len(),
            c.bins@.len() == a.bins@.len(),
            c.nodes@[idx as int] == (MemNode {
                size: (a.nodes@[idx as int].size + a.nodes@[next as int].size) as u64,
                next_phys: a.nodes@[next as int].next_phys,
                ..a.nodes@[idx as int]
            }),
            c.nodes@[next as int] == empty_node(),
            i + 2 < a.phys@.len() ==> c.nodes@[a.phys@[i + 2] as int] == (MemNode {
                prev_phys: idx,
                ..a.nodes@[a.phys@[i + 2] as int]
            }),
            forall|n: int|
                0 <= n < a.nodes@.len() && n != idx && n != next && !(i + 2 < a.phys@.len() && n
                    == a.phys@[i + 2]) ==> #[trigger] c.nodes@[n] == a.nodes@[n],
        ensures
            forall|j: int| 0 <= j < c.phys@.len() ==> (#[trigger] c.phys@[j] as int) < c.nodes@.len(),
            c.phys@.no_duplicates(),
            forall|j: int|
                0 <= j < c.phys@.len() ==> {
                    let n = c.nodes@[#[trigger] c.phys@[j] as int];
                    &&& n.size >= MIN_ALLOC
                    &&& n.offset % 16 == 0
                    &&& n.offset + n.size <= c.block_size
                },
    {
        reveal(FreeList::struct_ok);
        let p = a.phys@;
        let np = c.phys@;
        p.remove_ensures(i + 1);
        assert(a.nodes@[p[i] as int].next_phys == next);
        assert(a.nodes@[p[i + 1] as int].next_phys == (if i + 2 < p.len() { p[i + 2] } else { NULL }));
        assert(p[i] != p[i + 1]);
        assert forall|j: int| 0 <= j < np.len() implies (#[trigger] np[j] as int) < c.nodes@.len() by {
            let jj = if j <= i { j } else { j + 1 };
            assert(np[j] == p[jj]);
        }
        assert(np.no_duplicates()) by {
            assert forall|x: int, y: int| 0 <= x < np.len() && 0 <= y < np.len() && x != y implies np[x] != np[y] by {
                let xx = if x <= i { x } else { x + 1 };
                let yy = if y <= i { y } else { y + 1 };
                assert(np[x] == p[xx]);
                assert(np[y] == p[yy]);
            }
        }
        assert forall|j: int| 0 <= j < np.len() implies {
            let n = c.nodes@[#[trigger] np[j] as int];
            &&& n.size >= MIN_ALLOC
            &&& n.offset % 16 == 0
            &&& n.offset + n.size <= c.block_size
        } by {
            if j == i {
                assert(np[j] == idx);
                assert(a.nodes@[p[i + 1] as int].offset == a.nodes@[p[i] as int].offset + a.nodes@[p[i] as int].size);
                assert(a.nodes@[p[i + 1] as int].offset + a.nodes@[p[i + 1] as int].size <= a.block_size);
            } else {
                let jj = if j < i { j } else { j + 1 };
                assert(np[j] == p[jj]);
                assert(p[jj] != p[i]);
                assert(p[jj] != p[i + 1]);
                if i + 2 < p.len() && jj == i + 2 {
                } else {
                    if i + 2 < p.len() {
                        assert(p[jj] != p[i + 2]);
                    }
                    assert(c.nodes@[p[jj] as int] == a.nodes@[p[jj] as int]);
                }
                assert(a.nodes@[p[jj] as int].size >= MIN_ALLOC);
            }
        }
    }

    #[verifier::spinoff_prover]
    proof fn lemma_merge_struct_2(a: &FreeList, c: &FreeList, idx: u32, next: u32, i: int)
        requires
            a.struct_ok(),
            0 <= i,
            i + 1 < a.phys@.len(),
            a.phys@[i] == idx,
            a.phys@[i + 1] == next,
            c.phys@ == a.phys@.remove(i + 1),
            c.recycled@ == a.recycled@.push(next),
            c.nodes@.len() == a.nodes@.len(),
            c.block_size == a.block_size,
            c.second_level_masks@.len() == a.second_level_masks@.len(),
            c.bins@.len() == a.bins@.len(),
            c.nodes@[idx as int] == (MemNode {
                size: (a.nodes@[idx as int].size + a.nodes@[next as int].size) as u64,
                next_phys: a.nodes@[next as int].next_phys,
                ..a.nodes@[idx as int]
            }),
            c.nodes@[next as int] == empty_node(),
            i + 2 < a.phys@.len() ==> c.nodes@[a.phys@[i + 2] as int] == (MemNode {
                prev_phys: idx,
                ..a.nodes@[a.phys@[i + 2] as int]
            }),
            forall|n: int|
                0 <= n < a.nodes@.len() && n != idx && n != next && !(i + 2 < a.phys@.len() && n
                    == a.phys@[i + 2]) ==> #[trigger] c.nodes@[n] == a.nodes@[n],
        ensures
            forall|j: int|
                0 <= j < c.phys@.len() - 1 ==> {
                    &&& c.nodes@[#[trigger] c.phys@[j] as int].next_phys == c.phys@[j + 1]
                    &&& c.nodes@[c.phys@[j + 1] as int].prev_phys == c.phys@[j]
                    &&& c.nodes@[c.phys@[j + 1] as int].offset == c.nodes@[c.phys@[j] as int].offset + c.nodes@[c.phys@[j] as int].size
                },
    {
        reveal(FreeList::struct_ok);
        let p = a.phys@;
        let np = c.phys@;
        p.remove_ensures(i + 1);
        assert(a.nodes@[p[i] as int].next_phys == next);
        assert(a.nodes@[p[i + 1] as int].next_phys == (if i + 2 < p.len() { p[i + 2] } else { NULL }));
        assert(p[i] != p[i + 1]);
        assert forall|j: int| 0 <= j < np.len() - 1 implies {
            &&& c.nodes@[#[trigger] np[j] as int].next_phys == np[j + 1]
            &&& c.nodes@[np[j + 1] as int].prev_phys == np[j]
            &&& c.nodes@[np[j + 1] as int].offset == c.nodes@[np[j] as int].offset + c.nodes@[np[j] as int].size
        } by {
            if j < i - 1 {
                assert(np[j] == p[j] && np[j + 1] == p[j + 1]);
                assert(p[j] != p[i] && p[j] != p[i + 1] && p[j + 1] != p[i] && p[j + 1] != p[i + 1]);
                if i + 2 < p.len() {
                    assert(p[j] != p[i + 2] && p[j + 1] != p[i + 2]);
                }
            } else if j == i - 1 {
                assert(np[j] == p[j] && np[j + 1] == idx);
                assert(p[j] != p[i] && p[j] != p[i + 1]);
                if i + 2 < p.len() {
                    assert(p[j] != p[i + 2]);
                }
            } else if j == i {
                assert(np[j] == idx && np[j + 1] == p[i + 2]);
                assert(a.nodes@[p[i + 2] as int].offset == a.nodes@[p[i + 1] as int].offset + a.nodes@[p[i + 1] as int].size);
            } else {
                assert(np[j] == p[j + 1] && np[j + 1] == p[j + 2]);
                assert(p[j + 1] != p[i] && p[j + 1] != p[i + 1] && p[j + 2] != p[i] && p[j + 2] != p[i + 1]);
                assert(p[j + 2] != p[i + 2]);
                if j + 1 != i + 2 {
                    assert(p[j + 1] != p[i + 2]);
                }
            }
        }
    }

    #[verifier::spinoff_prover]
    proof fn lemma_merge_struct_3(a: &FreeList, c: &FreeList, idx: u32, next: u32, i: int)
        requires
            a.struct_ok(),
            0 <= i,
            i + 1 < a.phys@.len(),
            a.phys@[i] == idx,
            a.phys@[i + 1] == next,
            c.phys@ == a.phys@.remove(i + 1),
            c.recycled@ == a.recycled@.push(next),
            c.nodes@.len() == a.nodes@.len(),
            c.block_size == a.block_size,
            c.second_level_masks@.len() == a.second_level_masks@.len(),
            c.bins@.len() == a.bins@.len(),
            c.nodes@[idx as int] == (MemNode {
                size: (a.nodes@[idx as int].size + a.nodes@[next as int].size) as u64,
                next_phys: a.nodes@[next as int].next_phys,
                ..a.nodes@[idx as int]
            }),
            c.nodes@[next as int] == empty_node(),
            i + 2 < a.phys@.len() ==> c.nodes@[a.phys@[i + 2] as int] == (MemNode {
                prev_phys: idx,
                ..a.nodes@[a.phys@[i + 2] as int]
            }),
            forall|n: int|
                0 <= n < a.nodes@.len() && n != idx && n != next && !(i + 2 < a.phys@.len() && n
                    == a.phys@[i + 2]) ==> #[trigger] c.nodes@[n] == a.nodes@[n],
        ensures
            c.phys@.len() >= 1,
            c.nodes@[c.phys@[0] as int].offset == 0,
            c.nodes@[c.phys@[0] as int].prev_phys == NULL,
            c.nodes@[c.phys@.last() as int].next_phys == NULL,
            c.nodes@[c.phys@.last() as int].offset + c.nodes@[c.phys@.last() as int].size == c.block_size,
            forall|n: int|
                0 <= n < c.nodes@.len() && !c.phys@.contains(n as u32) ==> #[trigger] c.nodes@[n] == empty_node(),
            forall|k: int|
                0 <= k < c.recycled@.len() ==> (#[trigger] c.recycled@[k] as int) < c.nodes@.len()
                    && !c.phys@.contains(c.recycled@[k]),
            c.recycled@.no_duplicates(),
    {
        reveal(FreeList::struct_ok);
        let p = a.phys@;
        let np = c.phys@;
        p.remove_ensures(i + 1);
        assert(a.nodes@[p[i] as int].next_phys == next);
        assert(a.nodes@[p[i + 1] as int].next_phys == (if i + 2 < p.len() { p[i + 2] } else { NULL }));
        assert(p[i] != p[i + 1]);
        if i + 2 == p.len() {
            assert(np.last() == idx);
            assert(p.last() == next);
        } else {
            assert(np.last() == np[np.len() - 1]);
            assert(np[np.len() - 1] == p[p.len() - 1]);
            assert(p[p.len() - 1] != p[i] && p[p.len() - 1] != p[i + 1]);
            if p.len() - 1 != i + 2 {
                assert(p[p.len() - 1] != p[i + 2]);
            }
        }
        if i > 0 {
            assert(np[0] == p[0]);
            assert(p[0] != p[i] && p[0] != p[i + 1]);
            if i + 2 < p.len() {
                assert(p[0] != p[i + 2]);
            }
        } else {
            assert(np[0] == idx);
        }
        assert forall|n: int| 0 <= n < c.nodes@.len() && !np.contains(n as u32)
            implies #[trigger] c.nodes@[n] == empty_node() by {
            if n != next {
                assert(n != idx) by {
                    assert(np[i] == idx);
                }
                if i + 2 < p.len() {
                    assert(n != p[i + 2]) by {
                        assert(np[i + 1] == p[i + 2]);
                    }
                }
                if p.contains(n as u32) {
                    let j = choose|j: int| 0 <= j < p.len() && p[j] == n as u32;
                    assert(j != i + 1);
                    let jj = if j <= i { j } else { j - 1 };
                    assert(np[jj] == n as u32);
                }
            }
        }
        assert forall|k: int| 0 <= k < c.recycled@.len() implies (#[trigger] c.recycled@[k] as int) < c.nodes@.len()
            && !np.contains(c.recycled@[k]) by {
            if np.contains(c.recycled@[k]) {
                let j = choose|j: int| 0 <= j < np.len() && np[j] == c.recycled@[k];
                let jj = if j <= i { j } else { j + 1 };
                assert(np[j] == p[jj]);
                if k < a.recycled@.len() {
                    assert(c.recycled@[k] == a.recycled@[k]);
                    assert(p.contains(p[jj]));
                } else {
                    assert(c.recycled@[k] == next);
                }
            }
        }
        assert(c.recycled@.no_duplicates()) by {
            assert(!a.recycled@.contains(next)) by {
                if a.recycled@.contains(next) {
                    let k = choose|k: int| 0 <= k < a.recycled@.len() && a.recycled@[k] == next;
                    assert(p.contains(p[i + 1]));
                }
            }
            assert forall|x: int, y: int| 0 <= x < c.recycled@.len() && 0 <= y < c.recycled@.len() && x != y
                implies c.recycled@[x] != c.recycled@[y] by {
                if x < a.recycled@.len() && y < a.recycled@.len() {
                    assert(c.recycled@[x] == a.recycled@[x]);
                    assert(c.recycled@[y] == a.recycled@[y]);
                } else if x < a.recycled@.len() {
                    assert(c.recycled@[x] == a.recycled@[x]);
                } else if y < a.recycled@.len() {
                    assert(c.recycled@[y] == a.recycled@[y]);
                }
            }
        }
    }

    proof fn lemma_merge_struct(a: &FreeList, c: &FreeList, idx: u32, next: u32, i: int)
        requires
            a.struct_ok(),
            0 <= i,
            i + 1 < a.phys@.len(),
            a.phys@[i] == idx,
            a.phys@[i + 1] == next,
            c.phys@ == a.phys@.remove(i + 1),
            c.recycled@ == a.recycled@.push(next),
            c.nodes@.len() == a.nodes@.len(),
            c.block_size == a.block_size,
            c.second_level_masks@.len() == a.second_level_masks@.len(),
            c.bins@.len() == a.bins@.len(),
            c.nodes@[idx as int] == (MemNode {
                size: (a.nodes@[idx as int].size + a.nodes@[next as int].size) as u64,
                next_phys: a.nodes@[next as int].next_phys,
                ..a.nodes@[idx as int]
            }),
            c.nodes@[next as int] == empty_node(),
            i + 2 < a.phys@.len() ==> c.nodes@[a.phys@[i + 2] as int] == (MemNode {
                prev_phys: idx,
                ..a.nodes@[a.phys@[i + 2] as int]
            }),
            forall|n: int|
                0 <= n < a.nodes@.len() && n != idx && n != next && !(i + 2 < a.phys@.len() && n
                    == a.phys@[i + 2]) ==> #[trigger] c.nodes@[n] == a.nodes@[n],
        ensures
            c.struct_ok(),
    {
        FreeList::lemma_merge_struct_1(a, c, idx, next, i);
        FreeList::lemma_merge_struct_2(a, c, idx, next, i);
        FreeList::lemma_merge_struct_3(a, c, idx, next, i);
        reveal(FreeList::struct_ok);
        assert(c.nodes@.len() <= MAX_NODES && c.block_size >= MIN_ALLOC) by {
            reveal(FreeList::struct_ok);
        }
    }
}

impl FreeList {
    proof fn lemma_merge_lists(a: &FreeList, c: &FreeList, idx: u32, next: u32, i: int, ex: Set<u32>)
        requires
            a.lists_ok(ex),
            a.struct_ok(),
            ex.contains(idx),
            ex.contains(next),
            0 <= i,
            i + 1 < a.phys@.len(),
            a.phys@[i] == idx,
            a.phys@[i + 1] == next,
            c.phys@ == a.phys@.remove(i + 1),
            c.lists@ == a.lists@,
            c.bins@ == a.bins@,
            c.second_level_masks@ == a.second_level_masks@,
            c.first_level_mask == a.first_level_mask,
            c.nodes@.len() >= a.nodes@.len(),
            forall|j: int|
                0 <= j < a.phys@.len() && j != i && j != i + 1 ==> {
                    let n = #[trigger] a.phys@[j];
                    &&& c.nodes@[n as int].is_free == a.nodes@[n as int].is_free
                    &&& c.nodes@[n as int].size == a.nodes@[n as int].size
                    &&& c.nodes@[n as int].prev_free == a.nodes@[n as int].prev_free
                    &&& c.nodes@[n as int].next_free == a.nodes@[n as int].next_free
                },
        ensures
            c.lists_ok(ex.remove(next)),
    {
        let p = a.phys@;
        let np = c.phys@;
        let ex2 = ex.remove(next);
        p.remove_ensures(i + 1);
        a.lemma_chain_facts(i);
        assert(p[i] != p[i + 1]);
        assert(ex2.contains(idx));
        assert forall|bb: int| 0 <= bb < BIN_COUNT implies #[trigger] c.bin_ok(bb, ex2) by {
            assert(a.bin_ok(bb, ex));
            assert forall|k: int| 0 <= k < a.lists@[bb].len() implies {
                let n = #[trigger] a.lists@[bb][k];
                &&& c.nodes@[n as int].is_free == a.nodes@[n as int].is_free
                &&& c.nodes@[n as int].size == a.nodes@[n as int].size
                &&& c.nodes@[n as int].prev_free == a.nodes@[n as int].prev_free
                &&& c.nodes@[n as int].next_free == a.nodes@[n as int].next_free
                &&& c.phys@.contains(n)
                &&& (ex2.contains(n) ==> ex.contains(n))
            } by {
                a.lemma_member_bin(bb, k, ex);
                let n = a.lists@[bb][k];
                let j = choose|j: int| 0 <= j < p.len() && p[j] == n;
                assert(j != i && j != i + 1);
                let jj = if j < i { j } else { j - 1 };
                assert(np[jj] == n);
            }
            FreeList::lemma_bin_frame_members(a, c, bb, ex, ex2);
        }
        assert(c.covered(ex2)) by {
            reveal(FreeList::covered);
            assert(a.covered(ex));
            assert forall|j: int| 0 <= j < np.len() && c.nodes@[#[trigger] np[j] as int].is_free && !ex2.contains(np[j])
                implies c.lists@[bin_index(c.nodes@[np[j] as int].size)].contains(np[j]) by {
                let jj = if j < i { j } else { j + 1 };
                if j == i {
                    assert(np[j] == idx);
                } else {
                    assert(np[j] == p[jj]);
                    assert(jj != i + 1);
                }
            }
        }
        assert(c.bitmaps_ok()) by {
            reveal(FreeList::bitmaps_ok);
            assert(a.bitmaps_ok());
        }
    }

    /// Merge `next` into `idx` (absorb size, relink chain, recycle `next`).
    fn merge_next(&mut self, idx: u32, next: u32, Ghost(i): Ghost<int>, Ghost(ex): Ghost<Set<u32>>) -> (r: u32)
        requires
            old(self).struct_ok(),
            old(self).lists_ok(ex),
            ex.contains(idx),
            ex.contains(next),
            0 <= i,
            i + 1 < old(self).phys@.len(),
            old(self).phys@[i] == idx,
            old(self).phys@[i + 1] == next,
            old(self).nodes@[idx as int].is_free,
        ensures
            r == idx,
            final(self).struct_ok(),
            final(self).lists_ok(ex.remove(next)),
            final(self).regions() == old(self).regions().take(i) + seq![
                (old(self).nodes@[idx as int].offset, (old(self).nodes@[idx as int].size + old(self).nodes@[next as int].size) as u64, true),
            ] + old(self).regions().skip(i + 2),
            final(self).phys@ == old(self).phys@.remove(i + 1),
            final(self).lists@ == old(self).lists@,
            final(self).block_size == old(self).block_size,
            final(self).free_bytes == old(self).free_bytes,
            final(self).nodes@.len() == old(self).nodes@.len(),
            final(self).nodes@[idx as int] == (MemNode {
                size: (old(self).nodes@[idx as int].size + old(self).nodes@[next as int].size) as u64,
                next_phys: old(self).nodes@[next as int].next_phys,
                ..old(self).nodes@[idx as int]
            }),
            forall|j: int|
                0 <= j < old(self).phys@.len() && j != i && j != i + 1 ==> {
                    let n = #[trigger] old(self).phys@[j];
                    &&& final(self).nodes@[n as int].is_free == old(self).nodes@[n as int].is_free
                    &&& final(self).nodes@[n as int].size == old(self).nodes@[n as int].size
                    &&& final(self).nodes@[n as int].offset == old(self).nodes@[n as int].offset
                    &&& final(self).nodes@[n as int].prev_free == old(self).nodes@[n as int].prev_free
                    &&& final(self).nodes@[n as int].next_free == old(self).nodes@[n as int].next_free
                },
    {
        let ghost old_self = *self;
        let ghost p = self.phys@;
        proof {
            self.lemma_chain_facts(i);
            self.lemma_chain_facts(i + 1);
            self.lemma_phys_node(idx);
            assert(p.contains(p[i + 1]));
            self.lemma_phys_node(next);
            if i + 2 < p.len() {
                assert(p.contains(p[i + 2]));
                self.lemma_phys_node(p[i + 2]);
                assert(p[i + 2] != idx && p[i + 2] != next);
            }
        }
        let next_next = self.nodes[next as usize].next_phys;
        let next_size = self.nodes[next as usize].size;
        let mut survivor = self.nodes[idx as usize];
        survivor.size = survivor.size + next_size;
        survivor.next_phys = next_next;
        self.nodes.set(idx as usize, survivor);
        if next_next != NULL {
            let mut nn = self.nodes[next_next as usize];
            nn.prev_phys = idx;
            self.nodes.set(next_next as usize, nn);
        }
        self.recycle_node(next);
        proof {
            self.phys@ = p.remove(i + 1);
            p.remove_ensures(i + 1);
            assert(next_next != NULL ==> self.nodes@[next_next as int] == (MemNode { prev_phys: idx, ..old_self.nodes@[next_next as int] }));
            FreeList::lemma_merge_struct(&old_self, self, idx, next, i);
            assert forall|j: int| 0 <= j < p.len() && j != i && j != i + 1 implies {
                let n = #[trigger] p[j];
                &&& self.nodes@[n as int].is_free == old_self.nodes@[n as int].is_free
                &&& self.nodes@[n as int].size == old_self.nodes@[n as int].size
                &&& self.nodes@[n as int].offset == old_self.nodes@[n as int].offset
                &&& self.nodes@[n as int].prev_free == old_self.nodes@[n as int].prev_free
                &&& self.nodes@[n as int].next_free == old_self.nodes@[n as int].next_free
            } by {
                assert(p[j] != idx && p[j] != next);
                assert(p.contains(p[j]));
                old_self.lemma_phys_node(p[j]);
                if i + 2 < p.len() && p[j] == p[i + 2] {
                } else {
                    assert(self.nodes@[p[j] as int] == old_self.nodes@[p[j] as int]);
                }
            }
            FreeList::lemma_merge_lists(&old_self, self, idx, next, i, ex);
            FreeList::lemma_regions_merge(&old_self, self, i);
            assert(self.phys@[i] == idx);
            assert(self.regions()[i] == region_of(self.nodes@[idx as int]));
        }
        idx
    }

    fn recycle_node(&mut self, idx: u32)
        requires
            (idx as int) < old(self).nodes@.len(),
        ensures
            final(self).nodes@ == old(self).nodes@.update(idx as int, empty_node()),
            final(self).recycled@ == old(self).recycled@.push(idx),
            final(self).phys@ == old(self).phys@,
            final(self).lists@ == old(self).lists@,
            final(self).bins@ == old(self).bins@,
            final(self).second_level_masks@ == old(self).second_level_masks@,
            final(self).first_level_mask == old(self).first_level_mask,
            final(self).block_size == old(self).block_size,
            final(self).free_bytes == old(self).free_bytes,
    {
        self.nodes.set(idx as usize, MemNode::default());
        self.recycled.push(idx);
    }
}

impl FreeList {
    proof fn lemma_regions_same(a: &FreeList, c: &FreeList)
        requires
            a.struct_ok(),
            c.phys@ == a.phys@,
            c.nodes@.len() == a.nodes@.len(),
            forall|n: int| 0 <= n < c.nodes@.len() ==> same_shape(#[trigger] c.nodes@[n], a.nodes@[n]),
        ensures
            c.regions() == a.regions(),
    {
        let p = a.phys@;
        assert forall|j: int| 0 <= j < p.len() implies #[trigger] c.regions()[j] == a.regions()[j] by {
            assert(p.contains(p[j]));
            a.lemma_phys_node(p[j]);
            assert(same_shape(c.nodes@[p[j] as int], a.nodes@[p[j] as int]));
        }
        assert(c.regions() =~= a.regions());
    }

    proof fn lemma_regions_split(a: &FreeList, c: &FreeList, i: int)
        requires
            0 <= i < a.phys@.len(),
            c.phys@.len() == a.phys@.len() + 1,
            forall|j: int| 0 <= j < i ==> c.phys@[j] == a.phys@[j],
            forall|j: int| i + 1 < j < c.phys@.len() ==> c.phys@[j] == a.phys@[j - 1],
            forall|j: int|
                0 <= j < c.phys@.len() && j != i && j != i + 1 ==> (#[trigger] c.nodes@[c.phys@[j] as int]).offset
                    == a.nodes@[c.phys@[j] as int].offset
                    && c.nodes@[c.phys@[j] as int].size == a.nodes@[c.phys@[j] as int].size
                    && c.nodes@[c.phys@[j] as int].is_free == a.nodes@[c.phys@[j] as int].is_free,
        ensures
            c.regions() == a.regions().take(i) + seq![c.regions()[i], c.regions()[i + 1]] + a.regions().skip(i + 1),
    {
        let r = a.regions();
        let t = r.take(i) + seq![c.regions()[i], c.regions()[i + 1]] + r.skip(i + 1);
        assert forall|j: int| 0 <= j < t.len() implies #[trigger] c.regions()[j] == t[j] by {
            if j < i {
                assert(c.phys@[j] == a.phys@[j]);
                assert(c.nodes@[c.phys@[j] as int].offset == a.nodes@[c.phys@[j] as int].offset);
            } else if j > i + 1 {
                assert(c.phys@[j] == a.phys@[j - 1]);
                assert(c.nodes@[c.phys@[j] as int].offset == a.nodes@[c.phys@[j] as int].offset);
            }
        }
        assert(c.regions() =~= t);
    }

    proof fn lemma_regions_merge(a: &FreeList, c: &FreeList, i: int)
        requires
            0 <= i,
            i + 1 < a.phys@.len(),
            c.phys@ == a.phys@.remove(i + 1),
            forall|j: int|
                0 <= j < a.phys@.len() && j != i && j != i + 1 ==> {
                    let n = #[trigger] a.phys@[j];
                    &&& c.nodes@[n as int].is_free == a.nodes@[n as int].is_free
                    &&& c.nodes@[n as int].size == a.nodes@[n as int].size
                    &&& c.nodes@[n as int].offset == a.nodes@[n as int].offset
                },
        ensures
            c.regions() == a.regions().take(i) + seq![c.regions()[i]] + a.regions().skip(i + 2),
    {
        let r = a.regions();
        let p = a.phys@;
        p.remove_ensures(i + 1);
        let t = r.take(i) + seq![c.regions()[i]] + r.skip(i + 2);
        assert forall|j: int| 0 <= j < t.len() implies #[trigger] c.regions()[j] == t[j] by {
            if j < i {
                assert(c.phys@[j] == p[j]);
            } else if j > i {
                assert(c.phys@[j] == p[j + 1]);
            }
        }
        assert(c.regions() =~= t);
    }
}

impl FreeList {
    /// Changing only the free flag of region `j` keeps the structure; the
    /// region leaves or joins the excluded set.
    proof fn lemma_set_flag(a: &FreeList, c: &FreeList, x: u32, j: int, flag: bool, ex1: Set<u32>, ex2: Set<u32>)
        requires
            a.struct_ok(),
            a.lists_ok(ex1),
            0 <= j < a.phys@.len(),
            a.phys@[j] == x,
            c.nodes@ == a.nodes@.update(x as int, MemNode { is_free: flag, ..a.nodes@[x as int] }),
            c.phys@ == a.phys@,
            c.lists@ == a.lists@,
            c.bins@ == a.bins@,
            c.recycled@ == a.recycled@,
            c.block_size == a.block_size,
            c.second_level_masks@ == a.second_level_masks@,
            c.first_level_mask == a.first_level_mask,
            !flag ==> ex1.contains(x) && ex2 == ex1.remove(x),
            flag ==> !a.nodes@[x as int].is_free && ex2 == ex1.insert(x),
        ensures
            c.struct_ok(),
            c.lists_ok(ex2),
            c.regions() == a.regions().update(j, (a.regions()[j].0, a.regions()[j].1, flag)),
    {
        let p = a.phys@;
        assert(p.contains(x));
        a.lemma_phys_node(x);
        a.lemma_chain_facts(j);
        assert(c.struct_ok()) by {
            reveal(FreeList::struct_ok);
            assert forall|i: int| 0 <= i < p.len() implies {
                let n = c.nodes@[#[trigger] p[i] as int];
                &&& n.size >= MIN_ALLOC
                &&& n.offset % 16 == 0
                &&& n.offset + n.size <= c.block_size
            } by {}
            assert forall|i: int| 0 <= i < p.len() - 1 implies {
                &&& c.nodes@[#[trigger] p[i] as int].next_phys == p[i + 1]
                &&& c.nodes@[p[i + 1] as int].prev_phys == p[i]
                &&& c.nodes@[p[i + 1] as int].offset == c.nodes@[p[i] as int].offset + c.nodes@[p[i] as int].size
            } by {}
            assert forall|n: int| 0 <= n < c.nodes@.len() && !p.contains(n as u32)
                implies #[trigger] c.nodes@[n] == empty_node() by {
                assert(n != x);
            }
        }
        assert forall|bb: int| 0 <= bb < BIN_COUNT implies #[trigger] c.bin_ok(bb, ex2) by {
            assert(a.bin_ok(bb, ex1));
            assert forall|k: int| 0 <= k < a.lists@[bb].len() implies {
                let n = #[trigger] a.lists@[bb][k];
                &&& c.nodes@[n as int].is_free == a.nodes@[n as int].is_free
                &&& c.nodes@[n as int].size == a.nodes@[n as int].size
                &&& c.nodes@[n as int].prev_free == a.nodes@[n as int].prev_free
                &&& c.nodes@[n as int].next_free == a.nodes@[n as int].next_free
                &&& c.phys@.contains(n)
                &&& (ex2.contains(n) ==> ex1.contains(n))
            } by {
                a.lemma_member_bin(bb, k, ex1);
                let n = a.lists@[bb][k];
                assert(n != x);
            }
            FreeList::lemma_bin_frame_members(a, c, bb, ex1, ex2);
        }
        assert(c.covered(ex2)) by {
            reveal(FreeList::covered);
            assert(a.covered(ex1));
            assert forall|i: int| 0 <= i < p.len() && c.nodes@[#[trigger] p[i] as int].is_free && !ex2.contains(p[i])
                implies c.lists@[bin_index(c.nodes@[p[i] as int].size)].contains(p[i]) by {
                if p[i] == x {
                } else {
                    assert(p.contains(p[i]));
                    a.lemma_phys_node(p[i]);
                    assert(c.nodes@[p[i] as int] == a.nodes@[p[i] as int]);
                }
            }
        }
        assert(c.bitmaps_ok()) by {
            reveal(FreeList::bitmaps_ok);
            assert(a.bitmaps_ok());
        }
        let t = a.regions().update(j, (a.regions()[j].0, a.regions()[j].1, flag));
        assert forall|i: int| 0 <= i < p.len() implies #[trigger] c.regions()[i] == t[i] by {
            assert(p.contains(p[i]));
            a.lemma_phys_node(p[i]);
            if i != j {
                assert(p[i] != x);
                assert(c.nodes@[p[i] as int] == a.nodes@[p[i] as int]);
            }
        }
        assert(c.regions() =~= t);
    }

    /// Create a free-list managing a single block of `block_size` bytes.
    pub fn new(block_size: u64) -> (r: FreeList)
        requires
            block_size >= MIN_ALLOC,
        ensures
            r.wf(),
            r@ == seq![(0u64, block_size, true)],
            r.spec_block_size() == block_size,
            r.spec_free_bytes() == block_size,
            r.spec_node_count() == 1,
    {
        let mut second_level_masks: Vec<u64> = Vec::new();
        let mut k: usize = 0;
        while k < FL_COUNT
            invariant
                k <= FL_COUNT,
                second_level_masks@.len() == k,
                forall|j: int| 0 <= j < k ==> second_level_masks@[j] == 0,
            decreases FL_COUNT - k,
        {
            second_level_masks.push(0);
            k = k + 1;
        }
        let mut bins: Vec<u32> = Vec::new();
        let mut k: usize = 0;
        while k < BIN_COUNT
            invariant
                k <= BIN_COUNT,
                bins@.len() == k,
                forall|j: int| 0 <= j < k ==> bins@[j] == NULL,
            decreases BIN_COUNT - k,
        {
            bins.push(NULL);
            k = k + 1;
        }
        let mut nodes: Vec<MemNode> = Vec::new();
        nodes.push(MemNode {
            offset: 0,
            size: block_size,
            prev_phys: NULL,
            next_phys: NULL,
            prev_free: NULL,
            next_free: NULL,
            is_free: true,
            generation: NULL,
        });
        let mut list = FreeList {
            first_level_mask: 0,
            second_level_masks,
            bins,
            nodes,
            recycled: Vec::new(),
            block_size,
            free_bytes: block_size,
            phys: Ghost(Seq::<u32>::empty().push(0u32)),
            lists: Ghost(Seq::new(BIN_COUNT as nat, |b: int| Seq::<u32>::empty())),
        };
        proof {
            assert(list.struct_ok()) by {
                reveal(FreeList::struct_ok);
                assert(list.phys@.last() == 0u32);
                assert forall|n: int| 0 <= n < list.nodes@.len() && !list.phys@.contains(n as u32)
                    implies #[trigger] list.nodes@[n] == empty_node() by {
                    assert(list.phys@[0] == 0u32);
                }
                assert(list.phys@.no_duplicates());
            }
            assert forall|bb: int| 0 <= bb < BIN_COUNT implies #[trigger] list.bin_ok(bb, set![0u32]) by {
                reveal(FreeList::bin_ok);
            }
            assert(list.covered(set![0u32])) by {
                reveal(FreeList::covered);
            }
            assert(list.bitmaps_ok()) by {
                reveal(FreeList::bitmaps_ok);
                assert forall|f: int, s2: int| 0 <= f < 64 && 0 <= s2 < 64 implies (#[trigger] bit(list.second_level_masks@[f], s2)
                    <==> list.lists@[f * 64 + s2].len() > 0) by {
                    lemma_zero_iff_no_bits(0u64);
                    assert(0 <= f * 64 + s2 < BIN_COUNT) by (nonlinear_arith)
                        requires 0 <= f < 64, 0 <= s2 < 64;
                }
                assert forall|f: int| 0 <= f < 64 implies (#[trigger] bit(list.first_level_mask, f)
                    <==> list.second_level_masks@[f] != 0) by {
                    lemma_zero_iff_no_bits(0u64);
                }
            }
            assert(list.phys@.contains(0u32)) by {
                assert(list.phys@[0] == 0u32);
            }
        }
        let ghost before = list;
        list.insert_into_bin(0, Ghost(Set::<u32>::empty().insert(0u32)));
        proof {
            assert(set![0u32].remove(0u32) =~= Set::<u32>::empty());
            assert(before.regions() =~= seq![(0u64, block_size, true)]);
            assert(list.regions() == seq![(0u64, block_size, true)]);
            let r = list.regions();
            assert(r.drop_last() =~= Seq::<(u64, u64, bool)>::empty());
            assert(r.last() == (0u64, block_size, true));
            assert(free_total(Seq::<(u64, u64, bool)>::empty()) == 0);
            assert(free_total(r) == block_size);
        }
        list
    }
}

impl View for FreeList {
    type V = Seq<(u64, u64, bool)>;

    closed spec fn view(&self) -> Seq<(u64, u64, bool)> {
        self.regions()
    }
}

// ── carving a region out of a free region ──────────────────────────────────

/// Bytes reserved for a request of `size` bytes.
pub open spec fn request_size(size: u64) -> int {
    round_up(if size < 16 { 16 } else { size as int }, 16)
}

/// Size searched for so that a request of `size` bytes at `alignment` fits
/// whatever padding the alignment needs.
pub open spec fn request_search(size: u64, alignment: u64) -> int {
    request_size(size) + (if alignment > 16 { alignment - 16 } else { 0 })
}

/// Region `j` is free and its class is at least `target`.
pub open spec fn fits_class(r: Seq<(u64, u64, bool)>, j: int, target: int) -> bool {
    r[j].2 && bin_index(r[j].1) >= target
}

/// Offset handed out when region `i` serves a request aligned to `a`.
pub open spec fn carve_offset(r: Seq<(u64, u64, bool)>, i: int, a: int) -> int {
    round_up(r[i].0 as int, a)
}

/// Size of the region marked used when region `i` serves a request of `req` bytes.
pub open spec fn carve_size(r: Seq<(u64, u64, bool)>, i: int, req: int, a: int) -> int {
    let rest = r[i].1 - (carve_offset(r, i, a) - r[i].0);
    if rest - req >= 16 {
        req
    } else {
        rest
    }
}

/// The regions after free region `i` serves a request of `req` bytes
/// aligned to `a`: an optional free front padding, the used region, and an
/// optional free remainder.
pub open spec fn carve(r: Seq<(u64, u64, bool)>, i: int, req: int, a: int) -> Seq<(u64, u64, bool)> {
    let off = r[i].0 as int;
    let aoff = carve_offset(r, i, a);
    let pad = aoff - off;
    let rest = r[i].1 - pad;
    let front = if pad > 0 {
        seq![(off as u64, pad as u64, true)]
    } else {
        Seq::<(u64, u64, bool)>::empty()
    };
    let tail = if rest - req >= 16 {
        seq![((aoff + req) as u64, (rest - req) as u64, true)]
    } else {
        Seq::<(u64, u64, bool)>::empty()
    };
    r.take(i) + front + seq![(aoff as u64, carve_size(r, i, req, a) as u64, false)] + tail + r.skip(i + 1)
}

/// The regions before `lo` keep their nodes at their positions, and those
/// after `hi` keep their nodes at positions shifted by the change in the
/// number of regions.
pub open spec fn nodes_kept_around(before: FreeList, after: FreeList, lo: int, hi: int) -> bool {
    &&& forall|k: int| 0 <= k < lo ==> #[trigger] after.node_at(k) == before.node_at(k)
    &&& forall|k: int|
        hi < k < before@.len() ==> after.node_at(k + after@.len() - before@.len()) == #[trigger] before.node_at(k)
}

/// The first region that freeing used region `i` merges into.
pub open spec fn release_lo(r: Seq<(u64, u64, bool)>, i: int) -> int {
    if i > 0 && r[i - 1].2 { i - 1 } else { i }
}

/// The last region that freeing used region `i` merges into.
pub open spec fn release_hi(r: Seq<(u64, u64, bool)>, i: int) -> int {
    if i + 1 < r.len() && r[i + 1].2 { i + 1 } else { i }
}

/// The regions after used region `i` is freed and merged with its free neighbours.
pub open spec fn release(r: Seq<(u64, u64, bool)>, i: int) -> Seq<(u64, u64, bool)> {
    let lo = if i > 0 && r[i - 1].2 { i - 1 } else { i };
    let hi = if i + 1 < r.len() && r[i + 1].2 { i + 1 } else { i };
    let start = r[lo].0;
    let end = r[hi].0 + r[hi].1;
    r.take(lo) + seq![(start, (end - start) as u64, true)] + r.skip(hi + 1)
}

/// Freeing the region that an allocation just carved out of free region `i`
/// gives the block back exactly as it was: the padding before it and the
/// remainder after it merge back into one free region, and the neighbours,
/// which are used, stay apart.
pub proof fn lemma_release_undoes_carve(r: Seq<(u64, u64, bool)>, i: int, req: int, a: int)
    requires
        0 <= i < r.len(),
        r[i].2,
        no_adjacent_free(r),
        r[i].0 <= carve_offset(r, i, a),
        carve_offset(r, i, a) + req <= r[i].0 + r[i].1,
        req >= 16,
        r[i].0 + r[i].1 <= u64::MAX,
    ensures
        release(carve(r, i, req, a), if carve_offset(r, i, a) > r[i].0 { i + 1 } else { i }) == r,
{
    let c = carve(r, i, req, a);
    let off = r[i].0 as int;
    let aoff = carve_offset(r, i, a);
    let pad = aoff - off;
    let rest = r[i].1 - pad;
    let k = if aoff > off { i + 1 } else { i };
    let front = if pad > 0 {
        seq![(off as u64, pad as u64, true)]
    } else {
        Seq::<(u64, u64, bool)>::empty()
    };
    let tail = if rest - req >= 16 {
        seq![((aoff + req) as u64, (rest - req) as u64, true)]
    } else {
        Seq::<(u64, u64, bool)>::empty()
    };
    let mid = seq![(aoff as u64, carve_size(r, i, req, a) as u64, false)];
    assert(c == r.take(i) + front + mid + tail + r.skip(i + 1));
    assert(c[k] == mid[0]);
    if i > 0 {
        assert(!r[i - 1].2);
    }
    if i + 1 < r.len() {
        assert(!r[i + 1].2) by {
            assert(!(r[i].2 && r[i + 1].2));
        }
    }
    let lo = if k > 0 && c[k - 1].2 { k - 1 } else { k };
    let hi = if k + 1 < c.len() && c[k + 1].2 { k + 1 } else { k };
    if pad > 0 {
        assert(c[k - 1] == front[0]);
    } else if i > 0 {
        assert(c[k - 1] == r[i - 1]);
    }
    assert(lo == i);
    assert(c[lo].0 == off);
    if rest - req >= 16 {
        assert(c[k + 1] == tail[0]);
        assert(hi == k + 1);
        assert(c[hi].0 + c[hi].1 == off + r[i].1);
    } else {
        if i + 1 < r.len() {
            assert(c[k + 1] == r[i + 1]);
        }
        assert(hi == k);
        assert(c[hi].0 + c[hi].1 == off + r[i].1);
    }
    assert(c.take(lo) =~= r.take(i));
    assert(c.skip(hi + 1) =~= r.skip(i + 1));
    assert(release(c, k) =~= r.take(i) + seq![(off as u64, r[i].1, true)] + r.skip(i + 1));
    assert(r.take(i) + seq![r[i]] + r.skip(i + 1) =~= r);
}

pub proof fn lemma_free_total_single(x: (u64, u64, bool))
    ensures
        free_total(seq![x]) == (if x.2 { x.1 as int } else { 0 }),
{
    let s1 = seq![x];
    assert(s1.len() == 1);
    assert(s1.drop_last() =~= Seq::<(u64, u64, bool)>::empty());
    assert(s1.last() == x);
    assert(free_total(Seq::<(u64, u64, bool)>::empty()) == 0);
    assert(free_total(s1) == free_total(s1.drop_last()) + (if s1.last().2 { s1.last().1 as int } else { 0 }));
}

pub proof fn lemma_free_total_decomp(r: Seq<(u64, u64, bool)>, j: int)
    requires
        0 <= j < r.len(),
    ensures
        free_total(r) == free_total(r.take(j)) + (if r[j].2 { r[j].1 as int } else { 0 }) + free_total(r.skip(j + 1)),
        free_total(r.take(j)) >= 0,
        free_total(r.skip(j + 1)) >= 0,
{
    assert(r =~= r.take(j) + seq![r[j]] + r.skip(j + 1));
    lemma_free_total_append(r.take(j) + seq![r[j]], r.skip(j + 1));
    lemma_free_total_append(r.take(j), seq![r[j]]);
    lemma_free_total_single(r[j]);
    lemma_free_total_nonneg(r.take(j));
    lemma_free_total_nonneg(r.skip(j + 1));
}

pub proof fn lemma_carve(
    r0: Seq<(u64, u64, bool)>,
    i: int,
    req: int,
    a: int,
    r1: Seq<(u64, u64, bool)>,
    r2: Seq<(u64, u64, bool)>,
    r3: Seq<(u64, u64, bool)>,
)
    requires
        0 <= i < r0.len(),
        r0[i].2,
        no_adjacent_free(r0),
        r0[i].0 <= carve_offset(r0, i, a),
        carve_offset(r0, i, a) + req <= r0[i].0 + r0[i].1,
        req >= 16,
        r0[i].0 + r0[i].1 <= u64::MAX,
        r1 == (if carve_offset(r0, i, a) > r0[i].0 {
            r0.take(i) + seq![
                (r0[i].0, (carve_offset(r0, i, a) - r0[i].0) as u64, true),
                (carve_offset(r0, i, a) as u64, (r0[i].1 - (carve_offset(r0, i, a) - r0[i].0)) as u64, true),
            ] + r0.skip(i + 1)
        } else {
            r0
        }),
        r2 == (if r0[i].1 - (carve_offset(r0, i, a) - r0[i].0) - req >= 16 {
            let ia = if carve_offset(r0, i, a) > r0[i].0 { i + 1 } else { i };
            r1.take(ia) + seq![
                (carve_offset(r0, i, a) as u64, req as u64, true),
                ((carve_offset(r0, i, a) + req) as u64, (r0[i].1 - (carve_offset(r0, i, a) - r0[i].0) - req) as u64, true),
            ] + r1.skip(ia + 1)
        } else {
            r1
        }),
        r3 == r2.update(
            if carve_offset(r0, i, a) > r0[i].0 { i + 1 } else { i },
            (carve_offset(r0, i, a) as u64, carve_size(r0, i, req, a) as u64, false),
        ),
    ensures
        r3 == carve(r0, i, req, a),
        no_adjacent_free(r3),
        free_total(r0) >= carve_size(r0, i, req, a),
        free_total(r3) == free_total(r0) - carve_size(r0, i, req, a),
{
    let off = r0[i].0 as int;
    let aoff = carve_offset(r0, i, a);
    let pad = aoff - off;
    let rest = r0[i].1 - pad;
    let front = if pad > 0 {
        seq![(off as u64, pad as u64, true)]
    } else {
        Seq::<(u64, u64, bool)>::empty()
    };
    let tail = if rest - req >= 16 {
        seq![((aoff + req) as u64, (rest - req) as u64, true)]
    } else {
        Seq::<(u64, u64, bool)>::empty()
    };
    let used = (aoff as u64, carve_size(r0, i, req, a) as u64, false);
    let mid = front + seq![used] + tail;
    let c = carve(r0, i, req, a);
    assert(c =~= r0.take(i) + mid + r0.skip(i + 1));
    // shape
    assert forall|j: int| 0 <= j < c.len() implies #[trigger] r3[j] == c[j] by {
        let fl = front.len() as int;
        let tl = tail.len() as int;
        if j < i {
        } else if j < i + fl {
        } else if j == i + fl {
        } else if j < i + fl + 1 + tl {
        } else {
            assert(c[j] == r0[j - fl - tl]);
        }
    }
    assert(r3.len() == c.len());
    assert(r3 =~= c);
    // sums
    lemma_free_total_decomp(r0, i);
    lemma_free_total_append(r0.take(i) + mid, r0.skip(i + 1));
    lemma_free_total_append(r0.take(i), mid);
    lemma_free_total_append(front + seq![used], tail);
    lemma_free_total_append(front, seq![used]);
    lemma_free_total_single(used);
    if pad > 0 {
        lemma_free_total_single((off as u64, pad as u64, true));
    } else {
        assert(free_total(front) == 0);
    }
    if rest - req >= 16 {
        lemma_free_total_single(((aoff + req) as u64, (rest - req) as u64, true));
    } else {
        assert(free_total(tail) == 0);
    }
    // neighbours of a free region are used
    if i > 0 {
        assert(!(r0[i - 1].2 && r0[i].2));
    }
    if i + 1 < r0.len() {
        assert(!(r0[i].2 && r0[i + 1].2));
    }
    assert forall|j: int| 0 <= j < c.len() - 1 implies !(#[trigger] c[j].2 && c[j + 1].2) by {
        let fl = front.len() as int;
        let tl = tail.len() as int;
        if j + 1 < i {
            assert(!(r0[j].2 && r0[j + 1].2));
        } else if j >= i + fl + 1 + tl {
            assert(c[j] == r0[j - fl - tl]);
            assert(c[j + 1] == r0[j + 1 - fl - tl]);
            assert(!(r0[j - fl - tl].2 && r0[j - fl - tl + 1].2));
        }
    }
}

impl FreeList {
    pub open spec fn alloc_ok(&self, size: u64, alignment: u64, i: int) -> bool {
        let r = self@;
        let target = flat_bin(search_bin(request_search(size, alignment)));
        &&& 0 <= i < r.len()
        &&& fits_class(r, i, target)
        &&& forall|j: int| 0 <= j < r.len() && fits_class(r, j, target) ==> bin_index(#[trigger] r[j].1) >= bin_index(r[i].1)
        &&& self.node_at(i) == self.bin_members(bin_index(r[i].1))[0]
    }

    /// Allocate `size` bytes aligned to `alignment`.
    /// Returns `(offset, node_index)` or `None` if no fit.
    #[verifier::spinoff_prover]
    #[verifier::rlimit(60)]
    pub fn allocate(&mut self, size: u64, alignment: u64) -> (r: Option<(u64, u32)>)
        requires
            old(self).wf(),
            is_pow2_u64(alignment),
            size <= u64::MAX - 15,
            request_search(size, alignment) > u64::MAX || request_search(size, alignment) + search_step(
                request_search(size, alignment),
            ) - 1 <= u64::MAX,
        ensures
            final(self).wf(),
            final(self).spec_block_size() == old(self).spec_block_size(),
            r is None <==> (request_search(size, alignment) > u64::MAX
                || old(self).spec_node_count() + 2 > MAX_NODES
                || forall|j: int| 0 <= j < old(self)@.len() ==> !fits_class(
                    old(self)@,
                    j,
                    flat_bin(search_bin(request_search(size, alignment))),
                )),
            r is None ==> *final(self) == *old(self),
            r matches Some(res) ==> exists|i: int|
                #![trigger old(self)@[i]]
                old(self).alloc_ok(size, alignment, i)
                    && res.0 == carve_offset(old(self)@, i, alignment as int)
                    && final(self)@ == carve(old(self)@, i, request_size(size), alignment as int)
                    && final(self).spec_free_bytes() == old(self).spec_free_bytes() - carve_size(
                        old(self)@,
                        i,
                        request_size(size),
                        alignment as int,
                    )
                    && final(self).node_at(
                        if carve_offset(old(self)@, i, alignment as int) > old(self)@[i].0 { i + 1 } else { i },
                    ) == res.1
                    && nodes_kept_around(*old(self), *final(self), i, i),
            r matches Some(res) ==> allocated(*old(self), *final(self), size, alignment, res),
            r is Some ==> old(self).spec_node_count() <= final(self).spec_node_count() <= old(self).spec_node_count() + 2,
    {
        let ghost r0 = self@;
        proof {
            assert(is_pow2_u64(16)) by {
                vstd::arithmetic::power2::lemma2_to64();
                assert(pow2(4) == 16);
            }
        }
        let s0 = if size < MIN_ALLOC { MIN_ALLOC } else { size };
        let req = align_up(s0, MIN_ALLOC);
        let max_gap = alignment.saturating_sub(MIN_ALLOC);
        let search_size = match req.checked_add(max_gap) {
            Some(v) => v,
            None => {
                return None;
            },
        };
        if self.nodes.len() > MAX_NODES - 2 {
            return None;
        }
        proof {
            lemma_bin_of(search_size as int + search_step(search_size as int) - 1);
        }
        let (fl, sl) = mapping_search(search_size);
        let ghost target: int = fl * 64 + sl;
        let found = self.find_suitable_block(fl, sl);
        let candidate = match found {
            Some(c) => c,
            None => {
                proof {
                    assert forall|j: int| 0 <= j < r0.len() implies !fits_class(r0, j, target) by {
                        self.lemma_free_region_listed(j);
                    }
                }
                return None;
            },
        };
        let ghost c = choose|c: int|
            fl * 64 + sl <= c < BIN_COUNT && #[trigger] self.lists@[c].len() > 0 && candidate == self.lists@[c][0]
                && forall|d: int| fl * 64 + sl <= d < c ==> #[trigger] self.lists@[d].len() == 0;
        let ghost i: int;
        proof {
            assert(self.bin_ok(c, Set::empty()));
            self.lemma_member_bin(c, 0, Set::empty());
            i = choose|i: int| 0 <= i < self.phys@.len() && self.phys@[i] == candidate;
            self.lemma_free_region_listed(i);
            assert forall|j: int| 0 <= j < r0.len() && fits_class(r0, j, target)
                implies bin_index(#[trigger] r0[j].1) >= bin_index(r0[i].1) by {
                self.lemma_free_region_listed(j);
            }
            lemma_bin_of(r0[i].1 as int);
            lemma_bin_of(search_size as int + search_step(search_size as int) - 1);
            assert(bin_le(search_bin(search_size as int), bin_of(r0[i].1 as int)));
            lemma_search_sound(search_size as int, r0[i].1 as int);
            assert(self.alloc_ok(size, alignment, i));
        }
        let res = self.take_block(candidate, req, alignment, Ghost(i));
        Some(res)
    }

    /// Serve a request of `req` bytes at `alignment` from free region `i`,
    /// recorded by node `candidate`.
    #[verifier::rlimit(50)]
    fn take_block(&mut self, candidate: u32, req: u64, alignment: u64, Ghost(i): Ghost<int>) -> (res: (u64, u32))
        requires
            old(self).wf(),
            is_pow2_u64(alignment),
            0 <= i < old(self).phys@.len(),
            old(self).phys@[i] == candidate,
            old(self)@[i].2,
            req % 16 == 0,
            req >= MIN_ALLOC,
            old(self)@[i].1 >= req + (if alignment > 16 { alignment - 16 } else { 0 }),
            old(self).nodes@.len() + 2 <= MAX_NODES,
        ensures
            final(self).wf(),
            final(self).spec_block_size() == old(self).spec_block_size(),
            res.0 == carve_offset(old(self)@, i, alignment as int),
            final(self)@ == carve(old(self)@, i, req as int, alignment as int),
            final(self).spec_free_bytes() == old(self).spec_free_bytes() - carve_size(
                old(self)@,
                i,
                req as int,
                alignment as int,
            ),
            final(self).node_at(
                if carve_offset(old(self)@, i, alignment as int) > old(self)@[i].0 { i + 1 } else { i },
            ) == res.1,
            old(self)@[i].0 <= carve_offset(old(self)@, i, alignment as int),
            carve_offset(old(self)@, i, alignment as int) + req <= old(self)@[i].0 + old(self)@[i].1,
            old(self)@[i].0 + old(self)@[i].1 <= u64::MAX,
            nodes_kept_around(*old(self), *final(self), i, i),
            old(self).spec_node_count() <= final(self).spec_node_count() <= old(self).spec_node_count() + 2,
    {
        let ghost r0 = self@;
        let ghost p0 = self.phys@;
        let ghost n0 = self.nodes@.len();
        proof {
            self.lemma_free_region_listed(i);
            assert(self.phys@.contains(candidate)) by {
                assert(self.phys@[i] == candidate);
            }
            self.lemma_phys_node(candidate);
        }
        self.remove_from_bin(candidate, Ghost(Set::empty()));
        let ghost ex1 = Set::<u32>::empty().insert(candidate);
        let offset = self.nodes[candidate as usize].offset;
        let node_size0 = self.nodes[candidate as usize].size;
        proof {
            assert(r0[i] == (offset, node_size0, true));
            lemma_pow2_u64_pos(alignment);
            lemma_round_up_aligned(offset as int, alignment as int);
        }
        let aligned_offset = align_up(offset, alignment);
        let front_padding = aligned_offset - offset;
        let ghost ia: int = if front_padding > 0 { i + 1 } else { i };
        let alloc_idx = if front_padding > 0 {
            let back = self.split_node(candidate, front_padding, Ghost(i), Ghost(ex1));
            proof {
                assert(self.phys@[i] == candidate);
                assert(self.phys@.contains(candidate));
            }
            self.insert_into_bin(candidate, Ghost(ex1.insert(back)));
            proof {
                assert(ex1.insert(back).remove(candidate) =~= Set::<u32>::empty().insert(back));
                assert(self.phys@[i + 1] == back);
            }
            back
        } else {
            candidate
        };
        let ghost ex2 = Set::<u32>::empty().insert(alloc_idx);
        let ghost r1 = self@;
        proof {
            assert(forall|k: int| 0 <= k < i ==> self.phys@[k] == p0[k]);
            assert(forall|k: int| i < k < p0.len() ==> self.phys@[k + self.phys@.len() - p0.len()] == p0[k]);
            assert(n0 <= self.nodes@.len() <= n0 + 1);
        }
        proof {
            assert(self.phys@[ia] == alloc_idx);
            assert(self.lists_ok(ex2));
            assert(self.phys@.contains(alloc_idx));
            self.lemma_phys_node(alloc_idx);
            assert(r1[ia] == region_of(self.nodes@[alloc_idx as int]));
            assert(r1[ia].1 == node_size0 - front_padding);
        }
        let node_size = self.nodes[alloc_idx as usize].size;
        let remainder = node_size - req;
        if remainder >= MIN_ALLOC {
            let rem = self.split_node(alloc_idx, req, Ghost(ia), Ghost(ex2));
            proof {
                assert(self.phys@[ia + 1] == rem);
                assert(self.phys@.contains(rem));
            }
            self.insert_into_bin(rem, Ghost(ex2.insert(rem)));
            proof {
                assert(self.phys@[ia] == alloc_idx);
                assert(ex2.insert(rem).remove(rem) =~= ex2);
            }
        }
        let ghost r2 = self@;
        let ghost before_mark = *self;
        proof {
            assert(forall|k: int| 0 <= k < i ==> self.phys@[k] == p0[k]);
            assert(forall|k: int| i < k < p0.len() ==> self.phys@[k + self.phys@.len() - p0.len()] == p0[k]);
            assert(n0 <= self.nodes@.len() <= n0 + 2);
        }
        proof {
            assert(self.phys@[ia] == alloc_idx);
            assert(self.phys@.contains(alloc_idx));
            self.lemma_phys_node(alloc_idx);
        }
        let mut node = self.nodes[alloc_idx as usize];
        node.is_free = false;
        self.nodes.set(alloc_idx as usize, node);
        let final_size = node.size;
        proof {
            assert(ex2.remove(alloc_idx) =~= Set::<u32>::empty());
            FreeList::lemma_set_flag(&before_mark, self, alloc_idx, ia, false, ex2, Set::empty());
            assert(self@[ia] == (before_mark@[ia].0, before_mark@[ia].1, false));
            assert(final_size == before_mark@[ia].1);
            lemma_carve(r0, i, req as int, alignment as int, r1, r2, self@);
            assert(self@[ia].1 == carve_size(r0, i, req as int, alignment as int));
            assert(self.free_bytes == old(self).free_bytes);
        }
        let ghost before_sub = *self;
        self.free_bytes = self.free_bytes - final_size;
        proof {
            FreeList::lemma_frame_counter(&before_sub, self);
        }
        (aligned_offset, alloc_idx)
    }

    /// A free region is in the list of its bin.
    proof fn lemma_free_region_listed(&self, j: int)
        requires
            self.struct_ok(),
            self.lists_ok(Set::empty()),
            0 <= j < self.phys@.len(),
        ensures
            self@[j].2 ==> self.lists@[bin_index(self@[j].1)].len() > 0
                && self.lists@[bin_index(self@[j].1)].contains(self.phys@[j]),
            0 <= bin_index(self@[j].1) < BIN_COUNT,
            self@[j] == region_of(self.nodes@[self.phys@[j] as int]),
    {
        reveal(FreeList::covered);
        assert(self.phys@.contains(self.phys@[j]));
        self.lemma_phys_node(self.phys@[j]);
        lemma_bin_of(self@[j].1 as int);
    }
}

impl FreeList {
    /// The invariant does not look at the free byte counter.
    proof fn lemma_frame_counter(a: &FreeList, c: &FreeList)
        requires
            c.phys@ == a.phys@,
            c.lists@ == a.lists@,
            c.nodes@ == a.nodes@,
            c.bins@ == a.bins@,
            c.recycled@ == a.recycled@,
            c.second_level_masks@ == a.second_level_masks@,
            c.first_level_mask == a.first_level_mask,
            c.block_size == a.block_size,
        ensures
            a.struct_ok() ==> c.struct_ok(),
            a.lists_ok(Set::empty()) ==> c.lists_ok(Set::empty()),
            c.regions() == a.regions(),
    {
        reveal(FreeList::struct_ok);
        reveal(FreeList::covered);
        reveal(FreeList::bitmaps_ok);
        if a.lists_ok(Set::empty()) {
            assert forall|bb: int| 0 <= bb < BIN_COUNT implies #[trigger] c.bin_ok(bb, Set::empty()) by {
                reveal(FreeList::bin_ok);
                assert(a.bin_ok(bb, Set::empty()));
            }
        }
    }
}

/// Sum of the sizes of all regions.
pub open spec fn total(r: Seq<(u64, u64, bool)>) -> int
    decreases r.len(),
{
    if r.len() == 0 {
        0
    } else {
        total(r.drop_last()) + r.last().1 as int
    }
}

/// Regions follow each other without gap or overlap, starting at offset 0.
pub open spec fn contiguous(r: Seq<(u64, u64, bool)>) -> bool {
    &&& r.len() >= 1
    &&& r[0].0 == 0
    &&& forall|k: int| 0 <= k < r.len() - 1 ==> #[trigger] r[k + 1].0 == r[k].0 + r[k].1
}

pub proof fn lemma_offsets_are_prefix_sums(r: Seq<(u64, u64, bool)>, k: int)
    requires
        contiguous(r),
        0 <= k < r.len(),
    ensures
        r[k].0 == total(r.take(k)),
    decreases k,
{
    if k == 0 {
        assert(r.take(0) =~= Seq::<(u64, u64, bool)>::empty());
    } else {
        lemma_offsets_are_prefix_sums(r, k - 1);
        assert(r.take(k).drop_last() =~= r.take(k - 1));
        assert(r.take(k).last() == r[k - 1]);
        assert(r[(k - 1) + 1].0 == r[k - 1].0 + r[k - 1].1);
    }
}

pub proof fn lemma_free_total_le_total(r: Seq<(u64, u64, bool)>)
    ensures
        0 <= free_total(r) <= total(r),
    decreases r.len(),
{
    if r.len() > 0 {
        lemma_free_total_le_total(r.drop_last());
    }
}

/// Freeing a used region cannot push the free byte count past the block size.
pub proof fn lemma_free_total_room(r: Seq<(u64, u64, bool)>, i: int, block_size: int)
    requires
        contiguous(r),
        r[r.len() - 1].0 + r[r.len() - 1].1 == block_size,
        0 <= i < r.len(),
        !r[i].2,
    ensures
        free_total(r) + r[i].1 <= block_size,
{
    let n = r.len() - 1;
    lemma_offsets_are_prefix_sums(r, n);
    assert(r =~= r.take(n) + seq![r[n]]);
    assert((r.take(n) + seq![r[n]]).drop_last() =~= r.take(n));
    assert(total(r) == total(r.take(n)) + r[n].1);
    assert(total(r) == block_size);
    // split r around i
    assert(r =~= r.take(i) + seq![r[i]] + r.skip(i + 1));
    lemma_total_append(r.take(i) + seq![r[i]], r.skip(i + 1));
    lemma_total_append(r.take(i), seq![r[i]]);
    let si = seq![r[i]];
    assert(si.drop_last() =~= Seq::<(u64, u64, bool)>::empty());
    assert(si.last() == r[i]);
    assert(total(Seq::<(u64, u64, bool)>::empty()) == 0);
    assert(total(si) == total(si.drop_last()) + si.last().1);
    lemma_free_total_decomp(r, i);
    lemma_free_total_le_total(r.take(i));
    lemma_free_total_le_total(r.skip(i + 1));
}

pub proof fn lemma_total_append(a: Seq<(u64, u64, bool)>, b: Seq<(u64, u64, bool)>)
    ensures
        total(a + b) == total(a) + total(b),
    decreases b.len(),
{
    if b.len() == 0 {
        assert(a + b =~= a);
    } else {
        assert((a + b).drop_last() =~= a + b.drop_last());
        lemma_total_append(a, b.drop_last());
    }
}

pub proof fn lemma_release_shape(
    r0: Seq<(u64, u64, bool)>,
    i: int,
    r1: Seq<(u64, u64, bool)>,
    r2: Seq<(u64, u64, bool)>,
    r3: Seq<(u64, u64, bool)>,
)
    requires
        0 <= i < r0.len(),
        !r0[i].2,
        no_adjacent_free(r0),
        contiguous(r0),
        forall|k: int| 0 <= k < r0.len() ==> #[trigger] r0[k].0 + r0[k].1 <= u64::MAX,
        r1 == r0.update(i, (r0[i].0, r0[i].1, true)),
        r2 == (if i + 1 < r0.len() && r0[i + 1].2 {
            r1.take(i) + seq![(r0[i].0, (r0[i].1 + r0[i + 1].1) as u64, true)] + r1.skip(i + 2)
        } else {
            r1
        }),
        r3 == (if i > 0 && r0[i - 1].2 {
            r2.take(i - 1) + seq![(r0[i - 1].0, (r0[i - 1].1 + r2[i].1) as u64, true)] + r2.skip(i + 1)
        } else {
            r2
        }),
    ensures
        r3 == release(r0, i),
{
    let lo = if i > 0 && r0[i - 1].2 { i - 1 } else { i };
    let hi = if i + 1 < r0.len() && r0[i + 1].2 { i + 1 } else { i };
    let start = r0[lo].0;
    let end = r0[hi].0 + r0[hi].1;
    let m = (start, (end - start) as u64, true);
    let rel = release(r0, i);
    assert(rel == r0.take(lo) + seq![m] + r0.skip(hi + 1));
    assert(r0[lo].0 + r0[lo].1 <= u64::MAX);
    assert(r0[hi].0 + r0[hi].1 <= u64::MAX);
    if i + 1 < r0.len() {
        assert(r0[i + 1].0 == r0[i].0 + r0[i].1);
    }
    if i > 0 {
        assert(r0[(i - 1) + 1].0 == r0[i - 1].0 + r0[i - 1].1);
    }
    if hi == i + 1 {
        assert(r2[i] == (r0[i].0, (r0[i].1 + r0[i + 1].1) as u64, true));
    } else {
        assert(r2[i] == r1[i]);
    }
    assert forall|j: int| 0 <= j < rel.len() implies #[trigger] r3[j] == rel[j] by {
        if j < lo {
            assert(r3[j] == r0[j]) by {
                if lo == i - 1 {
                    assert(r3[j] == r2[j]);
                }
                if hi == i + 1 {
                    assert(r2[j] == r1[j]);
                }
            }
        } else if j == lo {
        } else {
            assert(rel[j] == r0[j + hi - lo]);
            if lo == i - 1 {
                assert(r3[j] == r2[j + 1]);
                if hi == i + 1 {
                    assert(r2[j + 1] == r1[j + 2]);
                } else {
                    assert(r2[j + 1] == r1[j + 1]);
                }
            } else {
                if hi == i + 1 {
                    assert(r2[j] == r1[j + 1]);
                } else {
                    assert(r2[j] == r1[j]);
                }
            }
        }
    }
    assert(r3.len() == rel.len());
    assert(r3 =~= rel);
}

pub proof fn lemma_release_sum(
    r0: Seq<(u64, u64, bool)>,
    i: int,
    r1: Seq<(u64, u64, bool)>,
    r2: Seq<(u64, u64, bool)>,
    r3: Seq<(u64, u64, bool)>,
)
    requires
        0 <= i < r0.len(),
        !r0[i].2,
        no_adjacent_free(r0),
        contiguous(r0),
        forall|k: int| 0 <= k < r0.len() ==> #[trigger] r0[k].0 + r0[k].1 <= u64::MAX,
        r1 == r0.update(i, (r0[i].0, r0[i].1, true)),
        r2 == (if i + 1 < r0.len() && r0[i + 1].2 {
            r1.take(i) + seq![(r0[i].0, (r0[i].1 + r0[i + 1].1) as u64, true)] + r1.skip(i + 2)
        } else {
            r1
        }),
        r3 == (if i > 0 && r0[i - 1].2 {
            r2.take(i - 1) + seq![(r0[i - 1].0, (r0[i - 1].1 + r2[i].1) as u64, true)] + r2.skip(i + 1)
        } else {
            r2
        }),
    ensures
        free_total(release(r0, i)) == free_total(r0) + r0[i].1,
{
    let lo = if i > 0 && r0[i - 1].2 { i - 1 } else { i };
    let hi = if i + 1 < r0.len() && r0[i + 1].2 { i + 1 } else { i };
    let start = r0[lo].0;
    let end = r0[hi].0 + r0[hi].1;
    let m = (start, (end - start) as u64, true);
    let rel = release(r0, i);
    assert(rel == r0.take(lo) + seq![m] + r0.skip(hi + 1));
    assert(r0[lo].0 + r0[lo].1 <= u64::MAX);
    assert(r0[hi].0 + r0[hi].1 <= u64::MAX);
    if i + 1 < r0.len() {
        assert(r0[i + 1].0 == r0[i].0 + r0[i].1);
    }
    if i > 0 {
        assert(r0[(i - 1) + 1].0 == r0[i - 1].0 + r0[i - 1].1);
    }
    lemma_free_total_decomp(r0, i);
    lemma_free_total_append(r0.take(lo) + seq![m], r0.skip(hi + 1));
    lemma_free_total_append(r0.take(lo), seq![m]);
    lemma_free_total_single(m);
    if lo == i - 1 {
        lemma_free_total_decomp(r0.take(i), i - 1);
        assert(r0.take(i).take(i - 1) =~= r0.take(i - 1));
        assert(r0.take(i).skip(i) =~= Seq::<(u64, u64, bool)>::empty());
    }
    if hi == i + 1 {
        lemma_free_total_decomp(r0.skip(i + 1), 0);
        assert(r0.skip(i + 1).take(0) =~= Seq::<(u64, u64, bool)>::empty());
        assert(r0.skip(i + 1).skip(1) =~= r0.skip(i + 2));
    }
    assert(rel =~= r0.take(lo) + seq![m] + r0.skip(hi + 1));
}

pub proof fn lemma_release_adjacent(
    r0: Seq<(u64, u64, bool)>,
    i: int,
    r1: Seq<(u64, u64, bool)>,
    r2: Seq<(u64, u64, bool)>,
    r3: Seq<(u64, u64, bool)>,
)
    requires
        0 <= i < r0.len(),
        !r0[i].2,
        no_adjacent_free(r0),
        contiguous(r0),
        forall|k: int| 0 <= k < r0.len() ==> #[trigger] r0[k].0 + r0[k].1 <= u64::MAX,
        r1 == r0.update(i, (r0[i].0, r0[i].1, true)),
        r2 == (if i + 1 < r0.len() && r0[i + 1].2 {
            r1.take(i) + seq![(r0[i].0, (r0[i].1 + r0[i + 1].1) as u64, true)] + r1.skip(i + 2)
        } else {
            r1
        }),
        r3 == (if i > 0 && r0[i - 1].2 {
            r2.take(i - 1) + seq![(r0[i - 1].0, (r0[i - 1].1 + r2[i].1) as u64, true)] + r2.skip(i + 1)
        } else {
            r2
        }),
    ensures
        no_adjacent_free(release(r0, i)),
{
    let lo = if i > 0 && r0[i - 1].2 { i - 1 } else { i };
    let hi = if i + 1 < r0.len() && r0[i + 1].2 { i + 1 } else { i };
    let start = r0[lo].0;
    let end = r0[hi].0 + r0[hi].1;
    let m = (start, (end - start) as u64, true);
    let rel = release(r0, i);
    assert(rel == r0.take(lo) + seq![m] + r0.skip(hi + 1));
    assert(r0[lo].0 + r0[lo].1 <= u64::MAX);
    assert(r0[hi].0 + r0[hi].1 <= u64::MAX);
    assert forall|j: int| 0 <= j < rel.len() - 1 implies !(#[trigger] rel[j].2 && rel[j + 1].2) by {
        if j + 1 < lo {
            assert(!(r0[j].2 && r0[j + 1].2));
        } else if j + 1 == lo {
            if lo == i - 1 {
                assert(!(r0[i - 2].2 && r0[i - 1].2));
            } else {
                assert(!(r0[i - 1].2 && r0[i].2));
            }
        } else if j == lo {
            assert(rel[j + 1] == r0[hi + 1]);
            if hi == i + 1 {
                assert(!(r0[i + 1].2 && r0[i + 2].2));
            } else {
                assert(!(r0[i].2 && r0[i + 1].2));
            }
        } else {
            assert(rel[j] == r0[j + hi - lo]);
            assert(rel[j + 1] == r0[j + 1 + hi - lo]);
            assert(!(r0[j + hi - lo].2 && r0[j + hi - lo + 1].2));
        }
    }
}

pub proof fn lemma_total_nonneg(r: Seq<(u64, u64, bool)>)
    ensures
        total(r) >= 0,
    decreases r.len(),
{
    if r.len() > 0 {
        lemma_total_nonneg(r.drop_last());
    }
}

impl FreeList {
    proof fn lemma_regions_contiguous(&self)
        requires
            self.struct_ok(),
        ensures
            contiguous(self@),
            forall|k: int| 0 <= k < self@.len() ==> #[trigger] self@[k].0 + self@[k].1 <= self.block_size,
            self@[self@.len() - 1].0 + self@[self@.len() - 1].1 == self.block_size,
            self@.len() == self.phys@.len(),
    {
        reveal(FreeList::struct_ok);
        let r = self@;
        let p = self.phys@;
        assert forall|k: int| 0 <= k < r.len() - 1 implies #[trigger] r[k + 1].0 == r[k].0 + r[k].1 by {
            assert(r[k] == region_of(self.nodes@[p[k] as int]));
            assert(r[k + 1] == region_of(self.nodes@[p[k + 1] as int]));
        }
        assert forall|k: int| 0 <= k < r.len() implies #[trigger] r[k].0 + r[k].1 <= self.block_size by {
            assert(r[k] == region_of(self.nodes@[p[k] as int]));
        }
        assert(p.last() == p[p.len() - 1]);
    }

    /// Node `idx` records a region currently handed out.
    pub open spec fn is_live(&self, idx: u32) -> bool {
        exists|i: int| 0 <= i < self@.len() && self.node_at(i) == idx && !self@[i].2
    }

    /// True when `idx` records a region currently handed out, so that it may
    /// be passed to `free`.
    pub fn is_allocated(&self, idx: u32) -> (r: bool)
        requires
            self.wf(),
        ensures
            r == self.is_live(idx),
    {
        if (idx as usize) < self.nodes.len() {
            let n = self.nodes[idx as usize];
            proof {
                reveal(FreeList::struct_ok);
                if n.size > 0 {
                    assert(self.phys@.contains(idx));
                    let i = choose|i: int| 0 <= i < self.phys@.len() && self.phys@[i] == idx;
                    assert(self@[i] == region_of(n));
                    assert(self.node_at(i) == idx);
                    if !n.is_free {
                        assert(self.is_live(idx));
                    }
                }
                if self.is_live(idx) {
                    let i = choose|i: int| 0 <= i < self@.len() && self.node_at(i) == idx && !self@[i].2;
                    assert(self.phys@[i] == idx);
                    assert(self@[i] == region_of(self.nodes@[self.phys@[i] as int]));
                    assert(self.nodes@[self.phys@[i] as int].size >= MIN_ALLOC);
                }
            }
            n.size > 0 && !n.is_free
        } else {
            proof {
                reveal(FreeList::struct_ok);
                if self.is_live(idx) {
                    let i = choose|i: int| 0 <= i < self@.len() && self.node_at(i) == idx && !self@[i].2;
                    assert(self.phys@[i] == idx);
                }
            }
            false
        }
    }

    /// Free a previously allocated node. Coalesces with adjacent free regions.
    #[verifier::rlimit(60)]
    pub fn free(&mut self, node_idx: u32)
        requires
            old(self).wf(),
            old(self).is_live(node_idx),
        ensures
            final(self).wf(),
            final(self).spec_block_size() == old(self).spec_block_size(),
            exists|i: int|
                #![trigger old(self)@[i]]
                0 <= i < old(self)@.len() && old(self).node_at(i) == node_idx && !old(self)@[i].2
                    && final(self)@ == release(old(self)@, i)
                    && final(self).spec_free_bytes() == old(self).spec_free_bytes() + old(self)@[i].1
                    && nodes_kept_around(*old(self), *final(self), release_lo(old(self)@, i), release_hi(old(self)@, i)),
            freed(*old(self), *final(self), node_idx),
            final(self).spec_node_count() == old(self).spec_node_count(),
    {
        let ghost r0 = self@;
        let ghost i = choose|i: int| 0 <= i < r0.len() && self.node_at(i) == node_idx && !r0[i].2;
        proof {
            self.lemma_regions_contiguous();
            self.lemma_chain_facts(i);
            assert(self.phys@.contains(node_idx));
            self.lemma_phys_node(node_idx);
            assert(r0[i] == region_of(self.nodes@[node_idx as int]));
            lemma_free_total_room(r0, i, self.block_size as int);
        }
        let ghost p0 = self.phys@;
        let ghost n0 = self.nodes@.len();
        let freed_size = self.nodes[node_idx as usize].size;
        let ghost before_flag = *self;
        let mut n = self.nodes[node_idx as usize];
        n.is_free = true;
        self.nodes.set(node_idx as usize, n);
        let ghost ex = Set::<u32>::empty().insert(node_idx);
        proof {
            FreeList::lemma_set_flag(&before_flag, self, node_idx, i, true, Set::empty(), ex);
        }
        let ghost before_count = *self;
        self.free_bytes = self.free_bytes + freed_size;
        proof {
            FreeList::lemma_frame_counter(&before_count, self);
            FreeList::lemma_frame_lists(&before_count, self, ex);
        }
        let ghost r1 = self@;
        // forward merge
        let next = self.nodes[node_idx as usize].next_phys;
        proof {
            self.lemma_chain_facts(i);
            if i + 1 < r0.len() {
                assert(self.phys@.contains(self.phys@[i + 1]));
                self.lemma_phys_node(self.phys@[i + 1]);
                assert(r0[i + 1] == region_of(self.nodes@[self.phys@[i + 1] as int]));
            }
        }
        if next != NULL && self.nodes[next as usize].is_free {
            proof {
                assert(self.phys@.contains(next)) by {
                    assert(self.phys@[i + 1] == next);
                }
                assert(!ex.contains(next));
            }
            self.remove_from_bin(next, Ghost(ex));
            self.merge_next(node_idx, next, Ghost(i), Ghost(ex.insert(next)));
            proof {
                assert(ex.insert(next).remove(next) =~= ex);
            }
        }
        let ghost r2 = self@;
        let ghost p2 = self.phys@;
        proof {
            if i + 1 < r0.len() && r0[i + 1].2 {
                p0.remove_ensures(i + 1);
                assert(p2 == p0.remove(i + 1));
            } else {
                assert(p2 == p0);
            }
            assert(r2 == (if i + 1 < r0.len() && r0[i + 1].2 {
                r1.take(i) + seq![(r0[i].0, (r0[i].1 + r0[i + 1].1) as u64, true)] + r1.skip(i + 2)
            } else {
                r1
            }));
            assert(self.phys@[i] == node_idx);
        }
        // backward merge
        let prev = self.nodes[node_idx as usize].prev_phys;
        proof {
            self.lemma_chain_facts(i);
            if i > 0 {
                assert(self.phys@.contains(self.phys@[i - 1]));
                self.lemma_phys_node(self.phys@[i - 1]);
                assert(r2[i - 1] == region_of(self.nodes@[self.phys@[i - 1] as int]));
                assert(r2[i - 1] == r0[i - 1]);
            }
            assert(r2[i] == region_of(self.nodes@[node_idx as int]));
        }
        let mut survivor = node_idx;
        let ghost pos: int = i;
        if prev != NULL && self.nodes[prev as usize].is_free {
            proof {
                assert(self.phys@.contains(prev)) by {
                    assert(self.phys@[i - 1] == prev);
                }
                assert(!ex.contains(prev));
            }
            self.remove_from_bin(prev, Ghost(ex));
            self.merge_next(prev, node_idx, Ghost(i - 1), Ghost(ex.insert(prev)));
            proof {
                assert(ex.insert(prev).remove(node_idx) =~= Set::<u32>::empty().insert(prev));
                pos = i - 1;
            }
            survivor = prev;
        }
        let ghost r3 = self@;
        proof {
            if i > 0 && r0[i - 1].2 {
                p2.remove_ensures(i);
                assert(self.phys@ == p2.remove(i));
            } else {
                assert(self.phys@ == p2);
            }
            let lo = release_lo(r0, i);
            let hi = release_hi(r0, i);
            assert(forall|k: int| 0 <= k < lo ==> self.phys@[k] == p0[k]);
            assert(forall|k: int| hi < k < p0.len() ==> self.phys@[k - (hi - lo)] == p0[k]);
            assert(self.nodes@.len() == n0);
            assert(r3 == (if i > 0 && r0[i - 1].2 {
                r2.take(i - 1) + seq![(r0[i - 1].0, (r0[i - 1].1 + r2[i].1) as u64, true)] + r2.skip(i + 1)
            } else {
                r2
            }));
            assert(self.phys@[pos] == survivor);
            assert(self.phys@.contains(survivor));
            self.lemma_phys_node(survivor);
            assert(r3[pos] == region_of(self.nodes@[survivor as int]));
            lemma_release_shape(r0, i, r1, r2, r3);
            lemma_release_sum(r0, i, r1, r2, r3);
            lemma_release_adjacent(r0, i, r1, r2, r3);
        }
        self.insert_into_bin(survivor, Ghost(Set::<u32>::empty().insert(survivor)));
        proof {
            assert(Set::<u32>::empty().insert(survivor).remove(survivor) =~= Set::<u32>::empty());
        }
    }

    /// The lists invariant does not look at the free byte counter.
    proof fn lemma_frame_lists(a: &FreeList, c: &FreeList, ex: Set<u32>)
        requires
            a.lists_ok(ex),
            c.phys@ == a.phys@,
            c.lists@ == a.lists@,
            c.nodes@ == a.nodes@,
            c.bins@ == a.bins@,
            c.second_level_masks@ == a.second_level_masks@,
            c.first_level_mask == a.first_level_mask,
        ensures
            c.lists_ok(ex),
    {
        reveal(FreeList::covered);
        reveal(FreeList::bitmaps_ok);
        assert forall|bb: int| 0 <= bb < BIN_COUNT implies #[trigger] c.bin_ok(bb, ex) by {
            reveal(FreeList::bin_ok);
            assert(a.bin_ok(bb, ex));
        }
    }
}

pub proof fn lemma_all_free_when_full(r: Seq<(u64, u64, bool)>)
    requires
        free_total(r) == total(r),
    ensures
        forall|j: int| 0 <= j < r.len() ==> #[trigger] r[j].2 || r[j].1 == 0,
    decreases r.len(),
{
    if r.len() > 0 {
        lemma_free_total_le_total(r.drop_last());
        lemma_all_free_when_full(r.drop_last());
        assert forall|j: int| 0 <= j < r.len() implies #[trigger] r[j].2 || r[j].1 == 0 by {
            if j < r.len() - 1 {
                assert(r[j] == r.drop_last()[j]);
            }
        }
    }
}

/// `after` is `before` once an allocation of `size` bytes at `alignment`
/// handed out `res`: free region `i`, which holds the request, was carved,
/// and the node of the used part is `res.1`.
pub open spec fn allocated(before: FreeList, after: FreeList, size: u64, alignment: u64, res: (u64, u32)) -> bool {
    exists|i: int|
        #![trigger before@[i]]
        {
            &&& before.alloc_ok(size, alignment, i)
            &&& res.0 == carve_offset(before@, i, alignment as int)
            &&& after@ == carve(before@, i, request_size(size), alignment as int)
            &&& after.spec_free_bytes() == before.spec_free_bytes() - carve_size(
                before@,
                i,
                request_size(size),
                alignment as int,
            )
            &&& after.node_at(if carve_offset(before@, i, alignment as int) > before@[i].0 { i + 1 } else { i })
                == res.1
            &&& before@[i].0 <= carve_offset(before@, i, alignment as int)
            &&& carve_offset(before@, i, alignment as int) + request_size(size) <= before@[i].0 + before@[i].1
            &&& before@[i].0 + before@[i].1 <= u64::MAX
            &&& nodes_kept_around(before, after, i, i)
        }
}

/// `after` is `before` once the used region of node `node` was freed.
pub open spec fn freed(before: FreeList, after: FreeList, node: u32) -> bool {
    exists|j: int|
        #![trigger before@[j]]
        0 <= j < before@.len() && before.node_at(j) == node && !before@[j].2 && after@ == release(before@, j)
            && after.spec_free_bytes() == before.spec_free_bytes() + before@[j].1
            && nodes_kept_around(before, after, release_lo(before@, j), release_hi(before@, j))
}

/// Freeing the node that an allocation just handed out gives the block back
/// exactly as it was before the allocation: the same regions and the same
/// free bytes.
pub proof fn lemma_free_undoes_allocate(
    before: FreeList,
    mid: FreeList,
    after: FreeList,
    size: u64,
    alignment: u64,
    res: (u64, u32),
)
    requires
        before.wf(),
        mid.wf(),
        allocated(before, mid, size, alignment, res),
        freed(mid, after, res.1),
    ensures
        after@ == before@,
        after.spec_free_bytes() == before.spec_free_bytes(),
{
    let i = choose|i: int|
        #![trigger before@[i]]
        {
            &&& before.alloc_ok(size, alignment, i)
            &&& res.0 == carve_offset(before@, i, alignment as int)
            &&& mid@ == carve(before@, i, request_size(size), alignment as int)
            &&& mid.spec_free_bytes() == before.spec_free_bytes() - carve_size(
                before@,
                i,
                request_size(size),
                alignment as int,
            )
            &&& mid.node_at(if carve_offset(before@, i, alignment as int) > before@[i].0 { i + 1 } else { i })
                == res.1
            &&& before@[i].0 <= carve_offset(before@, i, alignment as int)
            &&& carve_offset(before@, i, alignment as int) + request_size(size) <= before@[i].0 + before@[i].1
            &&& before@[i].0 + before@[i].1 <= u64::MAX
        };
    let j = choose|j: int|
        #![trigger mid@[j]]
        0 <= j < mid@.len() && mid.node_at(j) == res.1 && !mid@[j].2 && after@ == release(mid@, j)
            && after.spec_free_bytes() == mid.spec_free_bytes() + mid@[j].1;
    let k = if carve_offset(before@, i, alignment as int) > before@[i].0 { i + 1 } else { i };
    let r = before@;
    let req = request_size(size);
    let a = alignment as int;
    before.lemma_wf_no_adjacent_free();
    assert(req >= 16) by {
        lemma_request_size_min(size);
    }
    lemma_carve_layout(r, i, req, a);
    assert(0 <= k < mid@.len());
    mid.lemma_nodes_distinct(j, k);
    lemma_release_undoes_carve(r, i, req, a);
    assert(mid@[k].1 == carve_size(r, i, req, a));
}

/// The used region of a carve stands at `i`, after the padding if any.
proof fn lemma_carve_layout(r: Seq<(u64, u64, bool)>, i: int, req: int, a: int)
    requires
        0 <= i < r.len(),
    ensures
        (if carve_offset(r, i, a) > r[i].0 { i + 1 } else { i }) < carve(r, i, req, a).len(),
        carve(r, i, req, a)[if carve_offset(r, i, a) > r[i].0 { i + 1 } else { i }] == (
            carve_offset(r, i, a) as u64,
            carve_size(r, i, req, a) as u64,
            false,
        ),
{
}

proof fn lemma_request_size_min(size: u64)
    ensures
        request_size(size) >= 16,
{
    let s = if size < 16 { 16 } else { size as int };
    assert(round_up(s, 16) >= s) by (nonlinear_arith)
        requires
            s >= 16,
    {
        assert((s + 15) / 16 * 16 >= s);
    }
}

impl FreeList {
    /// Distinct regions are recorded by distinct nodes.
    pub proof fn lemma_nodes_distinct(&self, i: int, j: int)
        requires
            self.wf(),
            0 <= i < self@.len(),
            0 <= j < self@.len(),
            self.node_at(i) == self.node_at(j),
        ensures
            i == j,
    {
        reveal(FreeList::struct_ok);
    }

    /// No two neighbouring regions are free.
    pub proof fn lemma_wf_no_adjacent_free(&self)
        requires
            self.wf(),
        ensures
            no_adjacent_free(self@),
    {
    }
}

impl FreeList {
    /// Each region is recorded by its own node of the pool, and the pool
    /// stays within its bound.
    pub proof fn lemma_region_count(&self)
        requires
            self.wf(),
        ensures
            self@.len() <= self.spec_node_count(),
            self.spec_node_count() <= MAX_NODES,
    {
        reveal(FreeList::struct_ok);
        let p = self.phys@;
        let q = p.map_values(|n: u32| n as int);
        assert(q.no_duplicates()) by {
            assert forall|i: int, j: int| 0 <= i < q.len() && 0 <= j < q.len() && i != j implies q[i] != q[j] by {
                assert(p[i] != p[j]);
            }
        }
        q.unique_seq_to_set();
        vstd::set_lib::lemma_int_range(0, self.nodes@.len() as int);
        assert(q.to_set().subset_of(vstd::set_lib::set_int_range(0, self.nodes@.len() as int))) by {
            assert forall|x: int| q.to_set().contains(x) implies vstd::set_lib::set_int_range(0, self.nodes@.len() as int).contains(x) by {
                let i = choose|i: int| 0 <= i < q.len() && q[i] == x;
                assert(q[i] == p[i] as int);
            }
        }
        vstd::set_lib::lemma_len_subset(q.to_set(), vstd::set_lib::set_int_range(0, self.nodes@.len() as int));
    }
}

impl FreeList {
    /// Index of the node that starts the physical chain: the one without a
    /// physical predecessor, at offset 0 and not empty.
    fn find_head(&self) -> (h: usize)
        requires
            self.wf(),
        ensures
            h == self.phys@[0],
    {
        proof {
            reveal(FreeList::struct_ok);
        }
        let n = self.nodes.len();
        let mut h: usize = 0;
        while h < n
            invariant
                n == self.nodes@.len(),
                self.wf(),
                h <= self.phys@[0],
            decreases n - h,
        {
            let nd = self.nodes[h];
            if nd.prev_phys == NULL && nd.offset == 0 && nd.size > 0 {
                proof {
                    reveal(FreeList::struct_ok);
                    let p = self.phys@;
                    if p.contains(h as u32) {
                        let i = choose|i: int| 0 <= i < p.len() && p[i] == h as u32;
                        if i > 0 {
                            self.lemma_chain_facts(i);
                            assert((p[i - 1] as int) < self.nodes@.len());
                        }
                    } else {
                        assert(self.nodes@[h as int] == empty_node());
                    }
                }
                return h;
            }
            proof {
                reveal(FreeList::struct_ok);
                self.lemma_chain_facts(0);
                if h == self.phys@[0] {
                    assert(self.nodes@[self.phys@[0] as int].size >= MIN_ALLOC);
                }
            }
            h = h + 1;
        }
        proof {
            reveal(FreeList::struct_ok);
            assert((self.phys@[0] as int) < self.nodes@.len());
        }
        0
    }

    /// Walks the physical chain from its head and checks that the links are
    /// reciprocal, that the regions follow each other without gap or
    /// overlap, that no two neighbours are both free, that their sizes add
    /// up to the block size and their free sizes to the free byte count.
    /// Under the invariant every check passes.
    pub fn check_invariants(&self) -> (ok: bool)
        requires
            self.wf(),
        ensures
            ok,
    {
        let head = self.find_head();
        proof {
            self.lemma_regions_contiguous();
            reveal(FreeList::struct_ok);
        }
        let ghost r = self@;
        let ghost p = self.phys@;
        let mut current: u32 = head as u32;
        let mut prev: u32 = NULL;
        let mut total_size: u64 = 0;
        let mut total_free: u64 = 0;
        let ghost mut k: int = 0;
        while current != NULL
            invariant
                self.wf(),
                r == self@,
                p == self.phys@,
                contiguous(r),
                r.len() == p.len(),
                forall|j: int| 0 <= j < r.len() ==> #[trigger] r[j].0 + r[j].1 <= self.block_size,
                no_adjacent_free(r),
                0 <= k <= p.len(),
                current == (if k < p.len() { p[k] } else { NULL }),
                prev == (if k == 0 { NULL } else { p[k - 1] }),
                total_size == total(r.take(k)),
                total_free == free_total(r.take(k)),
            decreases p.len() - k,
        {
            proof {
                reveal(FreeList::struct_ok);
                self.lemma_chain_facts(k);
                lemma_offsets_are_prefix_sums(r, k);
                assert(r[k] == region_of(self.nodes@[p[k] as int]));
                assert(r.take(k + 1).drop_last() =~= r.take(k));
                assert(r.take(k + 1).last() == r[k]);
                lemma_free_total_le_total(r.take(k + 1));
            }
            let node = self.nodes[current as usize];
            if node.prev_phys != prev {
                return false;
            }
            total_size = total_size + node.size;
            if node.is_free {
                total_free = total_free + node.size;
            }
            if node.next_phys != NULL {
                proof {
                    assert(k + 1 < p.len());
                    assert(r[k + 1] == region_of(self.nodes@[p[k + 1] as int]));
                }
                let next = self.nodes[node.next_phys as usize];
                if node.offset + node.size != next.offset {
                    return false;
                }
                if node.is_free && next.is_free {
                    return false;
                }
            }
            prev = current;
            current = node.next_phys;
            proof {
                k = k + 1;
            }
        }
        proof {
            let n = r.len() - 1;
            lemma_offsets_are_prefix_sums(r, n);
            assert(r.take(p.len() as int) =~= r);
            assert(r =~= r.take(n) + seq![r[n]]);
            assert((r.take(n) + seq![r[n]]).drop_last() =~= r.take(n));
        }
        total_size == self.block_size && total_free == self.free_bytes
    }
}

impl FreeList {
    pub fn block_size(&self) -> (r: u64)
        ensures
            r == self.spec_block_size(),
    {
        self.block_size
    }

    pub fn free_bytes(&self) -> (r: u64)
        ensures
            r == self.spec_free_bytes(),
    {
        self.free_bytes
    }

    pub fn node_count(&self) -> (r: usize)
        ensures
            r == self.spec_node_count(),
    {
        self.nodes.len()
    }

    /// True when every byte in the block is free (single coalesced region).
    pub fn is_empty(&self) -> (r: bool)
        requires
            self.wf(),
        ensures
            r == (self.spec_free_bytes() == self.spec_block_size()),
            r == (self@ == seq![(0u64, self.spec_block_size(), true)]),
    {
        proof {
            self.lemma_regions_contiguous();
            let r = self@;
            let n = r.len() - 1;
            lemma_offsets_are_prefix_sums(r, n);
            assert(r =~= r.take(n) + seq![r[n]]);
            assert((r.take(n) + seq![r[n]]).drop_last() =~= r.take(n));
            assert(total(r) == self.block_size);
            if self.free_bytes == self.block_size {
                lemma_all_free_when_full(r);
                assert(self.struct_ok());
                assert forall|j: int| 0 <= j < r.len() implies #[trigger] r[j].1 >= MIN_ALLOC by {
                    reveal(FreeList::struct_ok);
                    assert(r[j] == region_of(self.nodes@[self.phys@[j] as int]));
                }
                if r.len() > 1 {
                    assert(r[0].2 || r[0].1 == 0);
                    assert(r[1].2 || r[1].1 == 0);
                    assert(!(r[0].2 && r[1].2));
                }
                assert(r.len() == 1);
                assert(r[0].1 == self.block_size);
                assert(r =~= seq![(0u64, self.block_size, true)]);
            }
            if r == seq![(0u64, self.block_size, true)] {
                lemma_free_total_single((0u64, self.block_size, true));
            }
        }
        self.free_bytes == self.block_size
    }
}


impl FreeList {
    /// An allocation keeps every handle: each node that recorded a region
    /// handed out still does, and the node it hands out is live and differs
    /// from all of them.
    pub proof fn lemma_allocate_keeps_handles(
        before: FreeList,
        after: FreeList,
        size: u64,
        alignment: u64,
        res: (u64, u32),
        h: u32,
    )
        requires
            before.wf(),
            after.wf(),
            allocated(before, after, size, alignment, res),
        ensures
            after.is_live(res.1),
            before.is_live(h) ==> after.is_live(h) && h != res.1,
    {
        let r = before@;
        let i = choose|i: int|
            #![trigger r[i]]
            {
                &&& before.alloc_ok(size, alignment, i)
                &&& res.0 == carve_offset(r, i, alignment as int)
                &&& after@ == carve(r, i, request_size(size), alignment as int)
                &&& after.spec_free_bytes() == before.spec_free_bytes() - carve_size(
                    r,
                    i,
                    request_size(size),
                    alignment as int,
                )
                &&& after.node_at(if carve_offset(r, i, alignment as int) > r[i].0 { i + 1 } else { i }) == res.1
                &&& r[i].0 <= carve_offset(r, i, alignment as int)
                &&& carve_offset(r, i, alignment as int) + request_size(size) <= r[i].0 + r[i].1
                &&& r[i].0 + r[i].1 <= u64::MAX
                &&& nodes_kept_around(before, after, i, i)
            };
        let a = alignment as int;
        let req = request_size(size);
        let aoff = carve_offset(r, i, a);
        let pad = aoff - r[i].0;
        let rest = r[i].1 - pad;
        let front = if pad > 0 {
            seq![(r[i].0, pad as u64, true)]
        } else {
            Seq::<(u64, u64, bool)>::empty()
        };
        let tail = if rest - req >= 16 {
            seq![((aoff + req) as u64, (rest - req) as u64, true)]
        } else {
            Seq::<(u64, u64, bool)>::empty()
        };
        let used = seq![(aoff as u64, carve_size(r, i, req, a) as u64, false)];
        let n = after@;
        assert(n == r.take(i) + front + used + tail + r.skip(i + 1));
        let ia = if aoff > r[i].0 { i + 1 } else { i };
        assert(ia == i + front.len());
        assert(n[ia] == used[0]);
        assert(0 <= ia < n.len() && after.node_at(ia) == res.1 && !n[ia].2);
        if before.is_live(h) {
            let k = choose|k: int| 0 <= k < r.len() && before.node_at(k) == h && !r[k].2;
            assert(r[i].2);
            assert(k != i);
            let d = n.len() - r.len();
            assert(d == front.len() + tail.len());
            if k < i {
                assert(n[k] == r[k]);
                assert(after.node_at(k) == h);
                if h == res.1 {
                    after.lemma_nodes_distinct(k, ia);
                }
            } else {
                assert(n[k + d] == r.skip(i + 1)[k - i - 1]);
                assert(n[k + d] == r[k]);
                assert(after.node_at(k + d) == before.node_at(k));
                if h == res.1 {
                    after.lemma_nodes_distinct(k + d, ia);
                }
            }
        }
    }

    /// A free keeps every other handle: each other node that recorded a
    /// region handed out still does, and the node freed records none.
    pub proof fn lemma_free_keeps_handles(before: FreeList, after: FreeList, node: u32, h: u32)
        requires
            before.wf(),
            after.wf(),
            freed(before, after, node),
        ensures
            !after.is_live(node),
            before.is_live(h) && h != node ==> after.is_live(h),
    {
        let r = before@;
        let j = choose|j: int|
            #![trigger r[j]]
            0 <= j < r.len() && before.node_at(j) == node && !r[j].2 && after@ == release(r, j)
                && after.spec_free_bytes() == before.spec_free_bytes() + r[j].1
                && nodes_kept_around(before, after, release_lo(r, j), release_hi(r, j));
        let lo = release_lo(r, j);
        let hi = release_hi(r, j);
        let n = after@;
        let start = r[lo].0;
        let end = r[hi].0 + r[hi].1;
        assert(n == r.take(lo) + seq![(start, (end - start) as u64, true)] + r.skip(hi + 1));
        assert(n.len() == r.len() - (hi - lo));
        if after.is_live(node) {
            let k = choose|k: int| 0 <= k < n.len() && after.node_at(k) == node && !n[k].2;
            if k < lo {
                assert(after.node_at(k) == before.node_at(k));
                before.lemma_nodes_distinct(k, j);
            } else if k == lo {
                assert(n[lo].2);
            } else {
                let kk = k + (hi - lo);
                assert(hi < kk < r.len());
                assert(after.node_at(kk + n.len() - r.len()) == before.node_at(kk));
                before.lemma_nodes_distinct(kk, j);
            }
        }
        if before.is_live(h) && h != node {
            let k = choose|k: int| 0 <= k < r.len() && before.node_at(k) == h && !r[k].2;
            assert(k != j);
            assert(k < lo || k > hi);
            if k < lo {
                assert(n[k] == r[k]);
                assert(after.node_at(k) == h);
            } else {
                let kn = k - (hi - lo);
                assert(n[kn] == r.skip(hi + 1)[k - hi - 1]);
                assert(n[kn] == r[k]);
                assert(after.node_at(kn) == h);
            }
        }
    }

    /// The block is one free region exactly when no node records a region
    /// handed out.
    pub proof fn lemma_empty_iff_nothing_live(fl: FreeList)
        requires
            fl.wf(),
        ensures
            (fl@ == seq![(0u64, fl.spec_block_size(), true)]) <==> forall|h: u32| !fl.is_live(h),
    {
        let r = fl@;
        fl.lemma_regions_contiguous();
        if r == seq![(0u64, fl.spec_block_size(), true)] {
            assert forall|h: u32| !fl.is_live(h) by {
                if fl.is_live(h) {
                    let k = choose|k: int| 0 <= k < r.len() && fl.node_at(k) == h && !r[k].2;
                    assert(k == 0);
                }
            }
        }
        if forall|h: u32| !fl.is_live(h) {
            assert forall|k: int| 0 <= k < r.len() implies #[trigger] r[k].2 by {
                if !r[k].2 {
                    assert(fl.is_live(fl.node_at(k)));
                }
            }
            if r.len() > 1 {
                assert(r[0].2 && r[1].2);
                assert(!(r[0int].2 && r[0int + 1].2));
            }
            assert(r.len() == 1);
            assert(r[0].0 == 0);
            assert(r =~= seq![(0u64, fl.spec_block_size(), true)]);
        }
    }
}


/// In contiguous regions, a region ends at or before the start of every
/// region after it.
pub proof fn lemma_regions_ordered(r: Seq<(u64, u64, bool)>, k: int, i: int)
    requires
        contiguous(r),
        0 <= k < i < r.len(),
    ensures
        r[k].0 + r[k].1 <= r[i].0,
    decreases i - k,
{
    assert(r[k + 1].0 == r[k].0 + r[k].1);
    if k + 1 < i {
        lemma_regions_ordered(r, k + 1, i);
    }
}

impl FreeList {
    /// Every region starts on a granule boundary.
    proof fn lemma_offset_granule(&self, i: int)
        requires
            self.wf(),
            0 <= i < self@.len(),
        ensures
            self@[i].0 % 16 == 0,
    {
        reveal(FreeList::struct_ok);
        assert(self@[i] == region_of(self.nodes@[self.phys@[i] as int]));
    }

    /// The free bytes never exceed the block.
    pub proof fn lemma_free_bytes_within(&self)
        requires
            self.wf(),
        ensures
            self.spec_free_bytes() <= self.spec_block_size(),
    {
        self.lemma_regions_contiguous();
        let r = self@;
        let n = r.len() - 1;
        lemma_offsets_are_prefix_sums(r, n);
        assert(r =~= r.take(n) + seq![r[n]]);
        assert((r.take(n) + seq![r[n]]).drop_last() =~= r.take(n));
        lemma_total_append(r.take(n), seq![r[n]]);
        lemma_free_total_le_total(r);
    }

    /// Where an allocation is placed: at an offset aligned as asked, inside
    /// the block, overlapping no region handed out before, and costing the
    /// free bytes at least the request and less than one more granule.
    pub proof fn lemma_allocation_placed(before: FreeList, after: FreeList, size: u64, alignment: u64, res: (u64, u32))
        requires
            before.wf(),
            after.wf(),
            is_pow2_u64(alignment),
            allocated(before, after, size, alignment, res),
        ensures
            res.0 % alignment == 0,
            res.0 + request_size(size) <= before.spec_block_size(),
            forall|k: int|
                0 <= k < before@.len() && !(#[trigger] before@[k]).2 ==> before@[k].0 + before@[k].1 <= res.0 || res.0
                    + request_size(size) <= before@[k].0,
            request_size(size) <= before.spec_free_bytes() - after.spec_free_bytes() < request_size(size) + 16,
    {
        let r = before@;
        let i = choose|i: int|
            #![trigger r[i]]
            {
                &&& before.alloc_ok(size, alignment, i)
                &&& res.0 == carve_offset(r, i, alignment as int)
                &&& after@ == carve(r, i, request_size(size), alignment as int)
                &&& after.spec_free_bytes() == before.spec_free_bytes() - carve_size(
                    r,
                    i,
                    request_size(size),
                    alignment as int,
                )
                &&& after.node_at(if carve_offset(r, i, alignment as int) > r[i].0 { i + 1 } else { i }) == res.1
                &&& r[i].0 <= carve_offset(r, i, alignment as int)
                &&& carve_offset(r, i, alignment as int) + request_size(size) <= r[i].0 + r[i].1
                &&& r[i].0 + r[i].1 <= u64::MAX
                &&& nodes_kept_around(before, after, i, i)
            };
        before.lemma_regions_contiguous();
        before.lemma_offset_granule(i);
        lemma_pow2_u64_pos(alignment);
        lemma_round_up_aligned(r[i].0 as int, alignment as int);
        assert forall|k: int|
            0 <= k < r.len() && !(#[trigger] r[k]).2 implies r[k].0 + r[k].1 <= res.0 || res.0 + request_size(size)
                <= r[k].0 by {
            assert(r[i].2);
            if k < i {
                lemma_regions_ordered(r, k, i);
            } else if k > i {
                lemma_regions_ordered(r, i, k);
            }
        }
    }
}

} // verus!
