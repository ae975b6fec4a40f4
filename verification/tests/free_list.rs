use glex::{mapping_insert, mapping_search, FreeList};

// ── Mapping ──────────────────────────────────────────────────────────────────

#[test]
fn mapping_insert_small_regime() {
    assert_eq!(mapping_insert(16), (0, 0));
    assert_eq!(mapping_insert(20), (0, 1));
    assert_eq!(mapping_insert(24), (0, 2));
    assert_eq!(mapping_insert(32), (0, 4));
    assert_eq!(mapping_insert(255), (0, 59));
}

#[test]
fn mapping_insert_large_regime() {
    assert_eq!(mapping_insert(256), (1, 0));
    assert_eq!(mapping_insert(512), (2, 0));
    assert_eq!(mapping_insert(1024), (3, 0));
    assert_eq!(mapping_insert(300), (1, 11));
    assert_eq!(mapping_insert(511), (1, 63));
}

#[test]
fn mapping_search_rounds_up() {
    assert_eq!(mapping_search(256), (1, 0));
    assert_eq!(mapping_search(257), (1, 1));
    assert_eq!(mapping_search(253), (1, 0));
}

// ── Allocation ───────────────────────────────────────────────────────────────

#[test]
fn basic_allocate_and_free() {
    let mut fl = FreeList::new(1024);
    assert_eq!(fl.free_bytes(), 1024);

    let (offset, idx) = fl.allocate(64, 1).unwrap();
    assert_eq!(offset, 0);
    assert_eq!(fl.free_bytes(), 1024 - 64);

    fl.free(idx);
    assert_eq!(fl.free_bytes(), 1024);
    assert!(fl.check_invariants());
}

#[test]
fn aligned_allocation() {
    let mut fl = FreeList::new(4096);

    let (off1, _idx1) = fl.allocate(16, 1).unwrap();
    assert_eq!(off1, 0);

    let (off2, _idx2) = fl.allocate(64, 256).unwrap();
    assert_eq!(off2 % 256, 0);
    assert_eq!(off2, 256);

    assert!(fl.check_invariants());
}

#[test]
fn coalescing_all_directions() {
    let mut fl = FreeList::new(1024);

    let (_, a) = fl.allocate(256, 1).unwrap();
    let (_, b) = fl.allocate(256, 1).unwrap();
    let (_, c) = fl.allocate(256, 1).unwrap();
    assert_eq!(fl.free_bytes(), 256);

    fl.free(b);
    assert_eq!(fl.free_bytes(), 512);
    assert!(fl.check_invariants());

    fl.free(a);
    assert_eq!(fl.free_bytes(), 768);
    assert!(fl.check_invariants());

    fl.free(c);
    assert_eq!(fl.free_bytes(), 1024);
    assert!(fl.is_empty());
    assert!(fl.check_invariants());
}

#[test]
fn exhaustion_returns_none() {
    let mut fl = FreeList::new(64);
    let (_, a) = fl.allocate(32, 1).unwrap();
    let (_, b) = fl.allocate(32, 1).unwrap();
    assert!(fl.allocate(16, 1).is_none());

    fl.free(a);
    fl.free(b);
    assert!(fl.is_empty());
    assert!(fl.check_invariants());
}

#[test]
fn many_small_allocations() {
    let mut fl = FreeList::new(1024);
    let mut handles = Vec::new();

    while let Some((_, idx)) = fl.allocate(16, 1) {
        handles.push(idx);
    }
    assert_eq!(handles.len(), 64);
    assert_eq!(fl.free_bytes(), 0);

    for idx in handles {
        fl.free(idx);
    }
    assert!(fl.is_empty());
    assert!(fl.check_invariants());
}

#[test]
fn alternating_free_coalesces() {
    let mut fl = FreeList::new(512);
    let (_, a) = fl.allocate(128, 1).unwrap();
    let (_, b) = fl.allocate(128, 1).unwrap();
    let (_, c) = fl.allocate(128, 1).unwrap();
    let (_, d) = fl.allocate(128, 1).unwrap();

    fl.free(b);
    fl.free(d);
    assert!(fl.check_invariants());

    fl.free(a);
    assert!(fl.check_invariants());

    fl.free(c);
    assert!(fl.is_empty());
    assert!(fl.check_invariants());
}

// ── Further cases ────────────────────────────────────────────────────────────

#[test]
fn is_allocated_tracks_live_nodes() {
    let mut fl = FreeList::new(1024);
    let (_, a) = fl.allocate(100, 16).unwrap();
    assert!(fl.is_allocated(a));
    fl.free(a);
    assert!(!fl.is_allocated(a));
    assert!(!fl.is_allocated(12345));
}

#[test]
fn small_requests_round_up_to_minimum() {
    let mut fl = FreeList::new(256);
    let (off, _) = fl.allocate(1, 1).unwrap();
    assert_eq!(off, 0);
    assert_eq!(fl.free_bytes(), 256 - 16);
    let (off2, _) = fl.allocate(17, 1).unwrap();
    assert_eq!(off2, 16);
    assert_eq!(fl.free_bytes(), 256 - 16 - 32);
}

#[test]
fn remainder_below_minimum_is_not_split() {
    let mut fl = FreeList::new(48);
    let (off, a) = fl.allocate(40, 1).unwrap();
    assert_eq!(off, 0);
    assert_eq!(fl.free_bytes(), 0);
    assert!(fl.allocate(16, 1).is_none());
    fl.free(a);
    assert!(fl.is_empty());
}

#[test]
fn block_size_and_node_count_are_reported() {
    let fl = FreeList::new(4096);
    assert_eq!(fl.block_size(), 4096);
    assert_eq!(fl.free_bytes(), 4096);
    assert_eq!(fl.node_count(), 1);
    assert!(fl.is_empty());
}

#[test]
fn oversized_request_returns_none() {
    let mut fl = FreeList::new(1024);
    assert!(fl.allocate(2048, 1).is_none());
    assert_eq!(fl.free_bytes(), 1024);
}

#[test]
fn freeing_the_last_allocation_restores_the_block() {
    let mut fl = FreeList::new(4096);
    let (_, a) = fl.allocate(100, 16).unwrap();
    let bytes_after_a = fl.free_bytes();
    let nodes_after_a = fl.node_count();
    let (_, b) = fl.allocate(300, 256).unwrap();
    assert!(fl.free_bytes() < bytes_after_a);
    fl.free(b);
    assert_eq!(fl.free_bytes(), bytes_after_a);
    assert!(!fl.is_allocated(b));
    assert!(fl.is_allocated(a));
    assert!(fl.node_count() >= nodes_after_a);
    fl.free(a);
    assert!(fl.is_empty());
}

#[test]
fn node_count_grows_by_at_most_two_per_allocation_and_never_on_free() {
    let mut fl = FreeList::new(4096);
    let n0 = fl.node_count();
    let (_, a) = fl.allocate(100, 64).unwrap();
    let n1 = fl.node_count();
    assert!(n0 <= n1 && n1 <= n0 + 2);
    let (_, b) = fl.allocate(200, 16).unwrap();
    let n2 = fl.node_count();
    assert!(n1 <= n2 && n2 <= n1 + 2);
    fl.free(a);
    assert_eq!(fl.node_count(), n2);
    fl.free(b);
    assert_eq!(fl.node_count(), n2);
    assert!(fl.is_empty());
}
