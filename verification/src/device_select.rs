//! Choices made from what the physical device reports: the queue family of
//! each role, and the memory type of each kind of memory.
use vstd::prelude::*;

use crate::types::{MemoryPropertyFlags, MemoryRequirements};

verus! {

/// Queue family capability bits.
pub const QUEUE_GRAPHICS_BIT: u32 = 1u32;

pub const QUEUE_COMPUTE_BIT: u32 = 2u32;

pub const QUEUE_TRANSFER_BIT: u32 = 4u32;

pub open spec fn has_bit(flags: u32, bit: u32) -> bool {
    flags & bit == bit
}

pub open spec fn is_graphics_family(f: u32) -> bool {
    has_bit(f, QUEUE_GRAPHICS_BIT)
}

/// Compute-capable and not graphics-capable.
pub open spec fn is_dedicated_compute(f: u32) -> bool {
    has_bit(f, QUEUE_COMPUTE_BIT) && !has_bit(f, QUEUE_GRAPHICS_BIT)
}

/// Transfer-capable and neither graphics- nor compute-capable.
pub open spec fn is_dedicated_transfer(f: u32) -> bool {
    has_bit(f, QUEUE_TRANSFER_BIT) && !has_bit(f, QUEUE_GRAPHICS_BIT) && !has_bit(f, QUEUE_COMPUTE_BIT)
}

/// The capability a family is searched for.
pub enum FamilyRole {
    Graphics,
    Compute,
    DedicatedCompute,
    DedicatedTransfer,
}

pub open spec fn plays(role: FamilyRole, f: u32) -> bool {
    match role {
        FamilyRole::Graphics => is_graphics_family(f),
        FamilyRole::Compute => has_bit(f, QUEUE_COMPUTE_BIT),
        FamilyRole::DedicatedCompute => is_dedicated_compute(f),
        FamilyRole::DedicatedTransfer => is_dedicated_transfer(f),
    }
}

/// `i` is the first family of `s` that plays `role`.
pub open spec fn first_where(s: Seq<u32>, role: FamilyRole, i: int) -> bool {
    0 <= i < s.len() && plays(role, s[i]) && forall|j: int| 0 <= j < i ==> !plays(role, #[trigger] s[j])
}

/// `i` is the last family of `s` that plays `role`.
pub open spec fn last_where(s: Seq<u32>, role: FamilyRole, i: int) -> bool {
    0 <= i < s.len() && plays(role, s[i]) && forall|j: int| i < j < s.len() ==> !plays(role, #[trigger] s[j])
}

/// The queue family chosen for each role.
pub struct QueueDiscovery {
    pub graphics: Option<u32>,
    pub compute: Option<u32>,
    pub transfer: Vec<u32>,
    pub present: Option<u32>,
}

/// The first index of `s` that satisfies `p`, if any.
pub open spec fn first_of(s: Seq<u32>, p: FamilyRole) -> Option<int> {
    if exists|i: int| #[trigger] first_where(s, p, i) {
        Some(choose|i: int| #[trigger] first_where(s, p, i))
    } else {
        None
    }
}

/// The last index of `s` that satisfies `p`, if any.
pub open spec fn last_of(s: Seq<u32>, p: FamilyRole) -> Option<int> {
    if exists|i: int| #[trigger] last_where(s, p, i) {
        Some(choose|i: int| #[trigger] last_where(s, p, i))
    } else {
        None
    }
}

/// The compute family before the fallback: the last dedicated compute
/// family, else the first compute-capable one.
pub open spec fn compute_family(fams: Seq<u32>) -> Option<int> {
    match last_of(fams, FamilyRole::DedicatedCompute) {
        Some(c) => Some(c),
        None => first_of(fams, FamilyRole::Compute),
    }
}

/// The transfer family before the fallbacks: the first dedicated one.
pub open spec fn transfer_family(fams: Seq<u32>) -> Option<int> {
    first_of(fams, FamilyRole::DedicatedTransfer)
}

impl QueueDiscovery {
    /// Chooses the families from their capability bits and, when there is a
    /// surface, from whether each can present to it. Graphics is the first
    /// graphics family; compute falls back to graphics; transfer is the first
    /// dedicated transfer family, falling back to graphics, and graphics too
    /// when it would share compute's family; present is the first family
    /// that can present.
    pub fn find_queue(families: &Vec<u32>, present_support: Option<&Vec<bool>>) -> (d: QueueDiscovery)
        requires
            families@.len() <= u32::MAX,
            exists|i: int| 0 <= i < families@.len() && is_graphics_family(#[trigger] families@[i]),
            present_support matches Some(p) ==> p@.len() == families@.len(),
        ensures
            d.graphics matches Some(g) && first_where(families@, FamilyRole::Graphics, g as int),
            d.compute == Some(
                match compute_family(families@) {
                    Some(c) => c as u32,
                    None => d.graphics.unwrap(),
                },
            ),
            d.transfer@ == seq![
                ({
                    let raw = match transfer_family(families@) {
                        Some(t) => t as u32,
                        None => d.graphics.unwrap(),
                    };
                    if raw == d.compute.unwrap() {
                        d.graphics.unwrap()
                    } else {
                        raw
                    }
                }),
            ],
            match present_support {
                Some(p) => match d.present {
                    Some(q) => 0 <= q < p@.len() && p@[q as int] && forall|j: int| 0 <= j < q ==> !p@[j],
                    None => forall|j: int| 0 <= j < p@.len() ==> !p@[j],
                },
                None => d.present is None,
            },
    {
        let n = families.len();
        let mut graphics: Option<u32> = None;
        let mut compute: Option<u32> = None;
        let mut transfer: Option<u32> = None;
        let mut present: Option<u32> = None;
        let mut i: usize = 0;
        while i < n
            invariant
                n == families@.len(),
                n <= u32::MAX,
                i <= n,
                present_support matches Some(p) ==> p@.len() == n,
                match graphics {
                    Some(g) => first_where(families@, FamilyRole::Graphics, g as int) && g < i,
                    None => forall|j: int| 0 <= j < i ==> !is_graphics_family(#[trigger] families@[j]),
                },
                match compute {
                    Some(c) => c < i && if exists|k: int| 0 <= k < i && is_dedicated_compute(#[trigger] families@[k]) {
                        is_dedicated_compute(families@[c as int]) && forall|j: int| c < j < i ==> !is_dedicated_compute(#[trigger] families@[j])
                    } else {
                        first_where(families@, FamilyRole::Compute, c as int)
                    },
                    None => forall|j: int| 0 <= j < i ==> !has_bit(#[trigger] families@[j], QUEUE_COMPUTE_BIT),
                },
                match transfer {
                    Some(t) => first_where(families@, FamilyRole::DedicatedTransfer, t as int) && t < i,
                    None => forall|j: int| 0 <= j < i ==> !is_dedicated_transfer(#[trigger] families@[j]),
                },
                match present_support {
                    Some(p) => match present {
                        Some(q) => q < i && p@[q as int] && forall|j: int| 0 <= j < q ==> !p@[j],
                        None => forall|j: int| 0 <= j < i ==> !p@[j],
                    },
                    None => present is None,
                },
            decreases n - i,
        {
            let idx = i as u32;
            let flags = families[i];
            let g_bit = flags & QUEUE_GRAPHICS_BIT == QUEUE_GRAPHICS_BIT;
            let c_bit = flags & QUEUE_COMPUTE_BIT == QUEUE_COMPUTE_BIT;
            let t_bit = flags & QUEUE_TRANSFER_BIT == QUEUE_TRANSFER_BIT;
            if g_bit && graphics.is_none() {
                graphics = Some(idx);
            }
            let dedicated_compute = c_bit && !g_bit;
            if c_bit {
                if dedicated_compute || compute.is_none() {
                    compute = Some(idx);
                }
            }
            let dedicated_transfer = t_bit && !g_bit && !c_bit;
            if transfer.is_none() && dedicated_transfer {
                transfer = Some(idx);
            }
            if let Some(p) = present_support {
                if p[i] && present.is_none() {
                    present = Some(idx);
                }
            }
            i = i + 1;
        }
        let g = match graphics {
            Some(g) => g,
            None => {
                proof {
                    let k = choose|k: int| 0 <= k < families@.len() && is_graphics_family(#[trigger] families@[k]);
                }
                0
            },
        };
        let c = match compute {
            Some(c) => c,
            None => g,
        };
        let t0 = match transfer {
            Some(t) => t,
            None => g,
        };
        let t = if t0 == c {
            g
        } else {
            t0
        };
        let mut tv: Vec<u32> = Vec::new();
        tv.push(t);
        proof {
            match compute {
                Some(cc) => {
                    if exists|k: int| 0 <= k < n && is_dedicated_compute(#[trigger] families@[k]) {
                        assert(last_where(families@, FamilyRole::DedicatedCompute, cc as int));
                        let w = choose|w: int| #[trigger] last_where(families@, FamilyRole::DedicatedCompute, w);
                        assert(w == cc);
                    } else {
                        assert(!exists|w: int| #[trigger] last_where(families@, FamilyRole::DedicatedCompute, w));
                        assert(first_where(families@, FamilyRole::Compute, cc as int));
                        let w = choose|w: int| #[trigger] first_where(families@, FamilyRole::Compute, w);
                        assert(w == cc);
                    }
                },
                None => {
                    assert(!exists|w: int| #[trigger] last_where(families@, FamilyRole::DedicatedCompute, w));
                    assert(!exists|w: int| #[trigger] first_where(families@, FamilyRole::Compute, w));
                },
            }
            match transfer {
                Some(tt) => {
                    let w = choose|w: int| #[trigger] first_where(families@, FamilyRole::DedicatedTransfer, w);
                    assert(w == tt);
                },
                None => {
                    assert(!exists|w: int| #[trigger] first_where(families@, FamilyRole::DedicatedTransfer, w));
                },
            }
            assert(tv@ =~= seq![t]);
        }
        QueueDiscovery { graphics: Some(g), compute: Some(c), present, transfer: tv }
    }
}

/// How frames are handed to the display.
#[derive(Copy, Clone, PartialEq, Eq, Debug, Structural)]
pub enum PresentMode {
    Vsync,
    Mailbox,
}

/// Memory type `i` is allowed by `type_filter` and has every flag of `required`.
pub open spec fn memory_type_matches(types: Seq<MemoryPropertyFlags>, type_filter: u32, required: MemoryPropertyFlags, i: int) -> bool {
    &&& 0 <= i < types.len()
    &&& type_filter & (1u32 << (i as u32)) != 0
    &&& types[i].0 & required.0 == required.0
}

/// The first memory type allowed by `type_filter` that has every flag of
/// `required`.
pub fn find_memory_type_index(types: &Vec<MemoryPropertyFlags>, type_filter: u32, required: MemoryPropertyFlags) -> (r: Option<u32>)
    requires
        types@.len() <= 32,
    ensures
        r matches Some(i) ==> memory_type_matches(types@, type_filter, required, i as int)
            && forall|j: int| 0 <= j < i ==> !memory_type_matches(types@, type_filter, required, j),
        r is None ==> forall|j: int| 0 <= j < types@.len() ==> !memory_type_matches(types@, type_filter, required, j),
{
    let n = types.len();
    let mut i: usize = 0;
    while i < n
        invariant
            n == types@.len(),
            n <= 32,
            i <= n,
            forall|j: int| 0 <= j < i ==> !memory_type_matches(types@, type_filter, required, j),
        decreases n - i,
    {
        let bit: u32 = 1u32 << (i as u32);
        if (type_filter & bit) != 0 && types[i].contains(required) {
            return Some(i as u32);
        }
        i = i + 1;
    }
    None
}

/// The memory types used outside the arenas.
#[derive(Copy, Clone)]
pub struct MemoryIndices {
    pub staging: u32,
    pub device_local: u32,
    pub transcript: u32,
}

/// `r` is the first type allowed by `type_filter` with every flag of `required`.
pub open spec fn chosen_type(types: Seq<MemoryPropertyFlags>, type_filter: u32, required: MemoryPropertyFlags, r: u32) -> bool {
    memory_type_matches(types, type_filter, required, r as int) && forall|j: int|
        0 <= j < r ==> !memory_type_matches(types, type_filter, required, j)
}

impl MemoryIndices {
    /// Staging memory is host-visible and coherent, device-local memory is
    /// device-local, transcript memory is host-visible.
    pub fn find(types: &Vec<MemoryPropertyFlags>, req: MemoryRequirements) -> (m: Self)
        requires
            types@.len() <= 32,
            exists|i: int| memory_type_matches(types@, req.memory_type_bits, MemoryPropertyFlags(6), i),
            exists|i: int| memory_type_matches(types@, req.memory_type_bits, MemoryPropertyFlags(1), i),
            exists|i: int| memory_type_matches(types@, req.memory_type_bits, MemoryPropertyFlags(2), i),
        ensures
            chosen_type(types@, req.memory_type_bits, MemoryPropertyFlags(6), m.staging),
            chosen_type(types@, req.memory_type_bits, MemoryPropertyFlags(1), m.device_local),
            chosen_type(types@, req.memory_type_bits, MemoryPropertyFlags(2), m.transcript),
    {
        let staging_flags = MemoryPropertyFlags::HOST_VISIBLE() | MemoryPropertyFlags::HOST_COHERENT();
        let bits = staging_flags.0;
        assert(bits == 6) by (bit_vector)
            requires
                bits == 2u32 | 4u32;
        let staging = find_memory_type_index(types, req.memory_type_bits, staging_flags);
        let device_local = find_memory_type_index(types, req.memory_type_bits, MemoryPropertyFlags::DEVICE_LOCAL());
        let transcript = find_memory_type_index(types, req.memory_type_bits, MemoryPropertyFlags::HOST_VISIBLE());
        MemoryIndices {
            staging: staging.unwrap(),
            device_local: device_local.unwrap(),
            transcript: transcript.unwrap(),
        }
    }
}

/// Vulkan's physical device types that the renderer runs on.
pub const DEVICE_TYPE_INTEGRATED_GPU: i32 = 1i32;
pub const DEVICE_TYPE_DISCRETE_GPU: i32 = 2i32;

/// The first index of `types` holding `t`, if any.
pub open spec fn first_index_of(types: Seq<i32>, t: i32) -> Option<int> {
    if exists|i: int| 0 <= i < types.len() && types[i] == t {
        Some(choose|i: int| 0 <= i < types.len() && types[i] == t && forall|j: int| 0 <= j < i ==> types[j] != t)
    } else {
        None
    }
}

proof fn lemma_first_index_of(types: Seq<i32>, t: i32, i: int)
    requires
        0 <= i < types.len(),
        types[i] == t,
        forall|j: int| 0 <= j < i ==> types[j] != t,
    ensures
        first_index_of(types, t) == Some(i),
{
    let k = choose|k: int| 0 <= k < types.len() && types[k] == t && forall|j: int| 0 <= j < k ==> types[j] != t;
    assert(0 <= k < types.len() && types[k] == t && forall|j: int| 0 <= j < k ==> types[j] != t);
    if k < i {
        assert(types[k] != t);
    }
    if i < k {
        assert(types[i] != t);
    }
}

/// The device to render on, among devices of the given types: the first
/// discrete GPU, else the first integrated one; none when there is neither.
pub fn pick_physical_device(types: &Vec<i32>) -> (r: Option<usize>)
    ensures
        r == (match first_index_of(types@, DEVICE_TYPE_DISCRETE_GPU) {
            Some(i) => Some(i as usize),
            None => match first_index_of(types@, DEVICE_TYPE_INTEGRATED_GPU) {
                Some(i) => Some(i as usize),
                None => None,
            },
        }),
{
    let mut fallback: Option<usize> = None;
    let mut k: usize = 0;
    while k < types.len()
        invariant
            k <= types@.len(),
            forall|j: int| 0 <= j < k ==> types@[j] != DEVICE_TYPE_DISCRETE_GPU,
            match fallback {
                Some(f) => f < k && types@[f as int] == DEVICE_TYPE_INTEGRATED_GPU && forall|j: int|
                    0 <= j < f ==> types@[j] != DEVICE_TYPE_INTEGRATED_GPU,
                None => forall|j: int| 0 <= j < k ==> types@[j] != DEVICE_TYPE_INTEGRATED_GPU,
            },
        decreases types@.len() - k,
    {
        if types[k] == DEVICE_TYPE_DISCRETE_GPU {
            proof {
                lemma_first_index_of(types@, DEVICE_TYPE_DISCRETE_GPU, k as int);
            }
            return Some(k);
        }
        if types[k] == DEVICE_TYPE_INTEGRATED_GPU && fallback.is_none() {
            fallback = Some(k);
        }
        k = k + 1;
    }
    match fallback {
        Some(f) => {
            proof {
                lemma_first_index_of(types@, DEVICE_TYPE_INTEGRATED_GPU, f as int);
            }
        },
        None => {},
    }
    fallback
}

/// The queue families the device creates queues on: each family that
/// discovery chose for some role, once.
pub fn unique_queue_families(discovery: &QueueDiscovery) -> (r: Vec<u32>)
    requires
        discovery.graphics is Some,
        discovery.compute is Some,
    ensures
        r@.no_duplicates(),
        forall|x: u32|
            r@.contains(x) <==> (discovery.graphics == Some(x) || discovery.compute == Some(x)
                || discovery.transfer@.contains(x) || discovery.present == Some(x)),
{
    let mut r: Vec<u32> = Vec::new();
    push_unique(&mut r, discovery.graphics.unwrap());
    push_unique(&mut r, discovery.compute.unwrap());
    let mut k: usize = 0;
    while k < discovery.transfer.len()
        invariant
            k <= discovery.transfer@.len(),
            discovery.graphics is Some,
            discovery.compute is Some,
            r@.no_duplicates(),
            forall|x: u32|
                r@.contains(x) <==> (discovery.graphics == Some(x) || discovery.compute == Some(x) || exists|j: int|
                    0 <= j < k && discovery.transfer@[j] == x),
        decreases discovery.transfer@.len() - k,
    {
        push_unique(&mut r, discovery.transfer[k]);
        proof {
            assert forall|x: u32| r@.contains(x) <==> (discovery.graphics == Some(x) || discovery.compute == Some(x)
                || exists|j: int| 0 <= j < k + 1 && discovery.transfer@[j] == x) by {
                if x == discovery.transfer@[k as int] {
                    assert(0 <= k < k + 1 && discovery.transfer@[k as int] == x);
                }
                if exists|j: int| 0 <= j < k + 1 && discovery.transfer@[j] == x {
                    let j = choose|j: int| 0 <= j < k + 1 && discovery.transfer@[j] == x;
                    if j < k {
                        assert(0 <= j < k && discovery.transfer@[j] == x);
                    }
                }
            }
        }
        k = k + 1;
    }
    if let Some(p) = discovery.present {
        push_unique(&mut r, p);
    }
    proof {
        assert forall|x: u32| r@.contains(x) <==> (discovery.graphics == Some(x) || discovery.compute == Some(x)
            || discovery.transfer@.contains(x) || discovery.present == Some(x)) by {
            if discovery.transfer@.contains(x) {
                let j = choose|j: int| 0 <= j < discovery.transfer@.len() && discovery.transfer@[j] == x;
                assert(0 <= j < k && discovery.transfer@[j] == x);
            }
        }
    }
    r
}

fn push_unique(r: &mut Vec<u32>, x: u32)
    requires
        old(r)@.no_duplicates(),
    ensures
        final(r)@.no_duplicates(),
        forall|y: u32| final(r)@.contains(y) <==> (old(r)@.contains(y) || y == x),
{
    let mut k: usize = 0;
    while k < r.len()
        invariant
            k <= r@.len(),
            r@ == old(r)@,
            old(r)@.no_duplicates(),
            forall|j: int| 0 <= j < k ==> r@[j] != x,
        decreases r@.len() - k,
    {
        if r[k] == x {
            return;
        }
        k = k + 1;
    }
    r.push(x);
    proof {
        assert forall|y: u32| r@.contains(y) <==> (old(r)@.contains(y) || y == x) by {
            if y == x {
                assert(r@[r@.len() - 1] == x);
            }
            if old(r)@.contains(y) {
                let j = choose|j: int| 0 <= j < old(r)@.len() && old(r)@[j] == y;
                assert(r@[j] == y);
            }
            if r@.contains(y) && y != x {
                let j = choose|j: int| 0 <= j < r@.len() && r@[j] == y;
                assert(j < old(r)@.len());
                assert(old(r)@[j] == y);
            }
        }
    }
}

} // verus!
