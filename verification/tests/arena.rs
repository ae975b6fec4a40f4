use glex::arena::{FreeRequest, Lifetime, SubAllocation, ThreadArena};
use glex::domain::ResourceKind;
use rand::{RngExt, SeedableRng};

fn all_blocks_gone(arena: &ThreadArena) -> bool {
    (0..arena.slot_count()).all(|i| arena.block(i).is_none())
}

fn return_all(arena: &mut ThreadArena, allocs: Vec<SubAllocation>) {
    for a in allocs {
        arena.return_allocation(a);
    }
}

#[test]
fn test_temporal_safety_gating() {
    let mut arena = ThreadArena::new();
    arena.inject_new_block(1, 1, 1024 * 1024, ResourceKind::Buffer);

    let mut alloc = arena.allocate(1024, 16, ResourceKind::Buffer, 0).unwrap();
    alloc.finalize_lifetime(10);
    arena.return_allocation(alloc);

    arena.reap(5);
    assert_eq!(arena.deferred_count(), 1, "Should stay in deferred list");
    assert!(
        !arena.block(0).unwrap().free_list.is_empty(),
        "FreeList must not merge before GPU fence"
    );

    arena.reap(10);
    assert_eq!(arena.deferred_count(), 0);
    assert!(arena.block(0).is_none(), "Block must be destroyed when empty");
}

#[test]
fn test_generation_aba_protection() {
    let mut arena = ThreadArena::new();
    let block_size = 1024;

    arena.inject_new_block(200, 200, block_size, ResourceKind::Buffer);
    let mut alloc_gen0 = arena.allocate(block_size, 1, ResourceKind::Buffer, 0).unwrap();
    alloc_gen0.finalize_lifetime(1);
    arena.return_allocation(alloc_gen0);
    arena.reap(1);
    assert!(arena.block(0).is_none());

    arena.inject_new_block(200, 200, block_size, ResourceKind::Buffer);
    assert_eq!(arena.slot_generation(0), 1);

    let mut hold = arena.allocate(1, 1, ResourceKind::Buffer, 0).unwrap();

    arena.push_free_request(FreeRequest {
        block_idx: 0,
        node_idx: 0,
        generation: 0,
        lifetime: Lifetime::Submitted(1),
    });

    arena.reap(100);

    assert_eq!(arena.slot_generation(0), 1);
    let block = arena.block(0).unwrap();
    assert!(!block.free_list.is_empty());
    assert_eq!(block.live_allocations, 1);

    hold.finalize_lifetime(200);
    arena.return_allocation(hold);
    arena.reap(200);
}

#[test]
fn test_random_lifetimes() {
    let mut arena = ThreadArena::new();
    arena.inject_new_block(1, 1, 1024 * 1024, ResourceKind::Buffer);

    let mut allocs = Vec::new();
    for i in 0u64..1000 {
        let mut a = arena.allocate(256, 16, ResourceKind::Buffer, 0).unwrap();
        a.finalize_lifetime(i % 5 + 1);
        allocs.push(a);
    }

    return_all(&mut arena, allocs);
    for t in 1..=5 {
        arena.reap(t);
    }

    assert!(arena.return_queue_is_empty());
    assert_eq!(arena.deferred_count(), 0);
    assert!(all_blocks_gone(&arena));
}

#[test]
fn test_alignment_pathology() {
    let mut arena = ThreadArena::new();
    arena.inject_new_block(1, 1, 1024 * 1024, ResourceKind::Buffer);

    let aligns = [8u64, 16, 32, 64, 128, 256];
    let mut allocs = Vec::with_capacity(1000);
    for i in 0..1000 {
        let align = aligns[i % aligns.len()];
        let a = arena.allocate(128, align, ResourceKind::Buffer, 0).expect("alignment failure");
        assert_eq!(a.offset() % align, 0);
        allocs.push(a);
    }

    for a in allocs.iter_mut() {
        a.finalize_lifetime(1);
    }
    return_all(&mut arena, allocs);
    arena.reap(1);
}

#[test]
fn test_fragmentation_pressure() {
    let mut arena = ThreadArena::new();
    arena.inject_new_block(1, 1, 1024 * 1024, ResourceKind::Buffer);

    let mut allocs = Vec::new();
    let sizes = [64u64, 128, 256, 512, 1024, 2048];
    for i in 0..2000 {
        let size = sizes[i % sizes.len()];
        if let Some(a) = arena.allocate(size, 16, ResourceKind::Buffer, 0) {
            allocs.push(a);
        }
    }

    for i in (0..allocs.len()).step_by(2).rev() {
        let mut a = allocs.swap_remove(i);
        a.finalize_lifetime(1);
        arena.return_allocation(a);
    }
    for a in allocs.iter_mut() {
        a.finalize_lifetime(1);
    }

    while !arena.return_queue_is_empty() || arena.deferred_count() != 0 {
        arena.reap(1);
    }
    return_all(&mut arena, allocs);
    while !arena.return_queue_is_empty() || arena.deferred_count() != 0 {
        arena.reap(1);
    }

    if all_blocks_gone(&arena) {
        arena.inject_new_block(99, 99, 1024 * 1024, ResourceKind::Buffer);
    }

    let mut extra: Vec<SubAllocation> = (0..100)
        .map(|_| {
            arena
                .allocate(512, 16, ResourceKind::Buffer, 1)
                .expect("Fragmentation failure: TLSF islands did not coalesce")
        })
        .collect();

    for a in extra.iter_mut() {
        a.finalize_lifetime(1);
    }
    return_all(&mut arena, extra);
    arena.reap(1);
}

#[test]
fn test_invariants_under_stress() {
    let mut arena = ThreadArena::new();
    arena.inject_new_block(1, 1, 1024 * 1024, ResourceKind::Buffer);

    for _ in 0..500 {
        let mut a = arena.allocate(128, 16, ResourceKind::Buffer, 0).unwrap();
        a.finalize_lifetime(1);
        arena.return_allocation(a);
    }

    let mut keepers: Vec<SubAllocation> =
        (0..500).map(|_| arena.allocate(128, 16, ResourceKind::Buffer, 0).unwrap()).collect();

    arena.reap(1);

    for i in 0..arena.slot_count() {
        if let Some(b) = arena.block(i) {
            assert!(b.free_list.check_invariants());
        }
    }

    for a in keepers.iter_mut() {
        a.finalize_lifetime(2);
    }
    return_all(&mut arena, keepers);
    arena.reap(2);
}

#[test]
fn test_split_coalesce_worst_case() {
    let mut arena = ThreadArena::new();
    arena.inject_new_block(1, 1, 1024 * 1024, ResourceKind::Buffer);

    let mut allocs: Vec<SubAllocation> =
        (0..8000).map(|_| arena.allocate(64, 16, ResourceKind::Buffer, 0).unwrap()).collect();

    for i in (0..allocs.len()).step_by(2).rev() {
        let mut a = allocs.swap_remove(i);
        a.finalize_lifetime(1);
        arena.return_allocation(a);
    }

    arena.reap(1);

    let mut big = arena.allocate(64 * 100, 16, ResourceKind::Buffer, 1).expect("coalesce failed");
    big.finalize_lifetime(1);
    arena.return_allocation(big);

    for a in allocs.iter_mut() {
        a.finalize_lifetime(1);
    }
    return_all(&mut arena, allocs);
    arena.reap(1);
}

#[test]
fn fuzz_allocator() {
    let mut rng = rand::rngs::StdRng::seed_from_u64(42);

    let mut arena = ThreadArena::new();
    arena.inject_new_block(1, 1, 1024 * 1024, ResourceKind::Buffer);

    let mut live: Vec<SubAllocation> = Vec::new();

    for t in 1u64..=5000 {
        if rng.random_bool(0.6) {
            let size = 1 << rng.random_range(4..10u32);
            if let Some(a) = arena.allocate(size, 16, ResourceKind::Buffer, t) {
                live.push(a);
            }
        } else if !live.is_empty() {
            let idx = rng.random_range(0..live.len());
            let mut a = live.swap_remove(idx);
            a.finalize_lifetime(t);
            arena.return_allocation(a);
        }

        arena.reap(t);

        for i in 0..arena.slot_count() {
            if let Some(b) = arena.block(i) {
                assert!(b.free_list.check_invariants());
            }
        }
    }

    for a in live.iter_mut() {
        a.finalize_lifetime(5001);
    }
    return_all(&mut arena, live);
    arena.reap(5001);
}

// ── Further cases ────────────────────────────────────────────────────────────

#[test]
fn kinds_never_share_a_block() {
    let mut arena = ThreadArena::new();
    arena.inject_new_block(7, 8, 4096, ResourceKind::Image);
    assert!(arena.allocate(64, 16, ResourceKind::Buffer, 0).is_none());
    let a = arena.allocate(64, 16, ResourceKind::Image, 0).unwrap();
    assert_eq!(a.buffer(), 7);
    assert_eq!(a.memory(), 8);
    assert_eq!(a.size(), 64);
    assert_eq!(a.block_idx(), 0);
}

#[test]
fn unset_lifetime_waits_forever() {
    let mut arena = ThreadArena::new();
    arena.inject_new_block(1, 2, 1024, ResourceKind::Buffer);
    let a = arena.allocate(64, 16, ResourceKind::Buffer, 0).unwrap();
    let req = a.free_request();
    assert_eq!(req.lifetime, Lifetime::Unset);
    arena.push_free_request(req);
    arena.reap(u64::MAX);
    assert_eq!(arena.deferred_count(), 1);
    assert!(arena.block(0).is_some());
}

#[test]
fn destroyed_block_goes_to_device_frees_and_slot_is_reused() {
    let mut arena = ThreadArena::new();
    arena.inject_new_block(11, 12, 1024, ResourceKind::Buffer);
    let mut a = arena.allocate(64, 16, ResourceKind::Buffer, 0).unwrap();
    a.finalize_lifetime(3);
    arena.return_allocation(a);
    arena.reap(3);
    assert!(arena.block(0).is_none());
    assert_eq!(arena.take_device_frees(), vec![(11, 12)]);
    assert!(arena.take_device_frees().is_empty());

    arena.inject_new_block(21, 22, 2048, ResourceKind::Buffer);
    assert_eq!(arena.slot_count(), 1);
    assert_eq!(arena.slot_generation(0), 1);
    assert_eq!(arena.block(0).unwrap().free_list.block_size(), 2048);
}

#[test]
fn empty_block_without_requests_is_destroyed_on_reap() {
    let mut arena = ThreadArena::new();
    arena.inject_new_block(5, 6, 1024, ResourceKind::Buffer);
    arena.reap(0);
    assert!(arena.block(0).is_none());
    assert_eq!(arena.take_device_frees(), vec![(5, 6)]);
}
