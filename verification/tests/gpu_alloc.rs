use glex::arena::SubAllocation;
use glex::domain::ResourceKind;
use glex::gpu_alloc::{AllocationError, BlockFactory, GpuAllocator, LocalArena, DEFAULT_BUFFER_BLOCK_SIZE, DEFAULT_IMAGE_BLOCK_SIZE};
use glex::types::{MemoryPropertyFlags, MemoryRequirements};
use std::sync::atomic::{AtomicBool, AtomicU64, Ordering};
use std::sync::Arc;

struct MockFactory {
    next_id: AtomicU64,
    freed_count: AtomicU64,
    inject_oom: AtomicBool,
}

impl MockFactory {
    fn new() -> Arc<Self> {
        Arc::new(Self { next_id: AtomicU64::new(1), freed_count: AtomicU64::new(0), inject_oom: AtomicBool::new(false) })
    }
}

struct Shared(Arc<MockFactory>);

impl BlockFactory for Shared {
    fn allocate_block(&self, size: u64, _memory_type_index: u32) -> Result<(u64, u64, u64), i32> {
        if self.0.inject_oom.load(Ordering::Relaxed) {
            return Err(-2);
        }
        let id = self.0.next_id.fetch_add(1, Ordering::Relaxed);
        Ok((id, id + 1, size))
    }

    fn free_block(&self, _buffer: u64, _memory: u64) {
        self.0.freed_count.fetch_add(1, Ordering::Relaxed);
    }
}

fn test_allocator(block_size: u64) -> (GpuAllocator<Shared>, Arc<MockFactory>, LocalArena) {
    let factory = MockFactory::new();
    let alloc = GpuAllocator::with_factory(Shared(Arc::clone(&factory)), Vec::new(), block_size, block_size);
    (alloc, factory, LocalArena::new())
}

fn give_back(arena: &mut LocalArena, subs: Vec<SubAllocation>) {
    for s in subs {
        arena.arena.return_allocation(s);
    }
}

#[test]
fn test_basic_allocate_reap_flush() {
    let (mut alloc, factory, mut arena) = test_allocator(1024 * 1024);

    let mut sub = alloc
        .allocate_raw(&mut arena, 256, 16, 0, ResourceKind::Buffer, 0)
        .expect("allocation must succeed");

    assert_eq!(factory.next_id.load(Ordering::Relaxed), 2);

    sub.finalize_lifetime(1);
    arena.arena.return_allocation(sub);

    alloc.reap(&mut arena, 1);
    alloc.flush_device_frees();

    assert_eq!(factory.freed_count.load(Ordering::Relaxed), 1);
}

#[test]
fn test_fast_path_reuses_block() {
    let (mut alloc, factory, mut arena) = test_allocator(1024 * 1024);

    let mut subs: Vec<SubAllocation> = (0..100)
        .map(|_| alloc.allocate_raw(&mut arena, 1024, 16, 0, ResourceKind::Buffer, 0).unwrap())
        .collect();

    assert_eq!(factory.next_id.load(Ordering::Relaxed), 2, "Only one vkAllocateMemory call expected");

    for s in subs.iter_mut() {
        s.finalize_lifetime(1);
    }
    give_back(&mut arena, subs);
    alloc.reap(&mut arena, 1);
    alloc.flush_device_frees();
}

#[test]
fn test_slow_path_new_block() {
    let (mut alloc, factory, mut arena) = test_allocator(1024);

    let mut subs: Vec<SubAllocation> = (0..200)
        .filter_map(|_| alloc.allocate_raw(&mut arena, 16, 16, 0, ResourceKind::Buffer, 0).ok())
        .collect();

    assert!(factory.next_id.load(Ordering::Relaxed) >= 3, "Expected at least 2 vkAllocateMemory calls");

    for s in subs.iter_mut() {
        s.finalize_lifetime(1);
    }
    give_back(&mut arena, subs);
    alloc.reap(&mut arena, 1);
    alloc.flush_device_frees();
    assert!(alloc.pending_device_frees_is_empty());
}

#[test]
fn test_oom_propagates() {
    let (mut alloc, factory, mut arena) = test_allocator(64);

    let mut s1 = alloc.allocate_raw(&mut arena, 64, 1, 0, ResourceKind::Buffer, 0).unwrap();
    factory.inject_oom.store(true, Ordering::Relaxed);

    let err = alloc.allocate_raw(&mut arena, 64, 1, 0, ResourceKind::Buffer, 0).unwrap_err();
    assert!(matches!(err, AllocationError::DeviceOom(_)));

    s1.finalize_lifetime(1);
    arena.arena.return_allocation(s1);
    factory.inject_oom.store(false, Ordering::Relaxed);
    alloc.reap(&mut arena, 1);
    alloc.flush_device_frees();
}

#[test]
fn test_too_large_returns_error() {
    let (mut alloc, _, mut arena) = test_allocator(1024);
    let err = alloc.allocate_raw(&mut arena, 2048, 1, 0, ResourceKind::Buffer, 0).unwrap_err();
    assert!(matches!(err, AllocationError::TooLargeForArena { size: 2048, block_size: 1024 }));
}

#[test]
fn test_flush_is_idempotent() {
    let (mut alloc, factory, mut arena) = test_allocator(1024 * 1024);

    let mut s = alloc.allocate_raw(&mut arena, 256, 16, 0, ResourceKind::Buffer, 0).unwrap();
    s.finalize_lifetime(1);
    arena.arena.return_allocation(s);
    alloc.reap(&mut arena, 1);

    alloc.flush_device_frees();
    alloc.flush_device_frees();

    assert_eq!(factory.freed_count.load(Ordering::Relaxed), 1);
}

#[test]
fn test_partial_reap_deferred() {
    let (mut alloc, factory, mut arena) = test_allocator(1024 * 1024);

    let mut s = alloc.allocate_raw(&mut arena, 256, 16, 0, ResourceKind::Buffer, 0).unwrap();
    s.finalize_lifetime(10);
    arena.arena.return_allocation(s);

    alloc.reap(&mut arena, 5);
    alloc.flush_device_frees();
    assert_eq!(
        factory.freed_count.load(Ordering::Relaxed),
        0,
        "Block must not be freed before GPU timeline reaches lifetime"
    );

    alloc.reap(&mut arena, 10);
    alloc.flush_device_frees();
    assert_eq!(factory.freed_count.load(Ordering::Relaxed), 1, "Block must be freed once GPU timeline has passed");
}

#[test]
fn test_find_memory_type() {
    let types = vec![
        MemoryPropertyFlags::HOST_VISIBLE(),
        MemoryPropertyFlags::DEVICE_LOCAL() | MemoryPropertyFlags::HOST_VISIBLE(),
        MemoryPropertyFlags::DEVICE_LOCAL(),
    ];
    let alloc = GpuAllocator::with_factory(
        Shared(MockFactory::new()),
        types,
        DEFAULT_BUFFER_BLOCK_SIZE,
        DEFAULT_IMAGE_BLOCK_SIZE,
    );

    assert_eq!(alloc.find_memory_type(0b110, MemoryPropertyFlags::DEVICE_LOCAL()), Some(1));

    assert_eq!(alloc.find_memory_type(0b001, MemoryPropertyFlags::DEVICE_LOCAL()), None);
}

#[test]
fn test_buffer_image_block_isolation() {
    let (mut alloc, factory, mut arena) = test_allocator(512 * 1024);

    let mut buf = alloc.allocate_raw(&mut arena, 1024, 16, 0, ResourceKind::Buffer, 0).unwrap();
    let mut img = alloc.allocate_raw(&mut arena, 1024, 16, 0, ResourceKind::Image, 0).unwrap();

    assert_eq!(factory.next_id.load(Ordering::Relaxed), 3, "Buffer and Image must use separate blocks");

    buf.finalize_lifetime(1);
    img.finalize_lifetime(1);
    arena.arena.return_allocation(buf);
    arena.arena.return_allocation(img);
    alloc.reap(&mut arena, 1);
    alloc.flush_device_frees();
    assert_eq!(factory.freed_count.load(Ordering::Relaxed), 2);
}

// ── Further cases ────────────────────────────────────────────────────────────

#[test]
fn allocate_without_suitable_type_fails() {
    let mut alloc = GpuAllocator::with_factory(Shared(MockFactory::new()), vec![MemoryPropertyFlags::HOST_VISIBLE()], 1024, 1024);
    let mut arena = LocalArena::new();
    let req = MemoryRequirements { size: 64, alignment: 16, memory_type_bits: 0b1 };
    let err = alloc.allocate(&mut arena, req, MemoryPropertyFlags::DEVICE_LOCAL(), ResourceKind::Buffer, 0).unwrap_err();
    assert_eq!(err, AllocationError::NoSuitableMemoryType);
    let ok = alloc.allocate(&mut arena, req, MemoryPropertyFlags::HOST_VISIBLE(), ResourceKind::Buffer, 0).unwrap();
    assert_eq!(ok.size(), 64);
}

#[test]
fn default_block_sizes() {
    let alloc = GpuAllocator::new(Shared(MockFactory::new()), Vec::new());
    assert_eq!(alloc.buffer_block_size(), 128 * 1024 * 1024);
    assert_eq!(alloc.image_block_size(), 1024 * 1024);
}

#[test]
fn device_block_too_small_counts_as_out_of_memory() {
    let mut arena = LocalArena::new();
    let r = glex::gpu_alloc::serve_from_new_block(&mut arena, Ok((1, 2, 8)), 8, 1, ResourceKind::Buffer, 0);
    assert_eq!(r.unwrap_err(), AllocationError::DeviceOom(glex::gpu_alloc::ERROR_OUT_OF_DEVICE_MEMORY));
    let r = glex::gpu_alloc::serve_from_new_block(&mut arena, Err(-3), 8, 1, ResourceKind::Buffer, 0);
    assert_eq!(r.unwrap_err(), AllocationError::DeviceOom(-3));
    let r = glex::gpu_alloc::serve_from_new_block(&mut arena, Ok((1, 2, 256)), 8, 1, ResourceKind::Buffer, 0).unwrap();
    assert_eq!(r.buffer(), 1);
    assert_eq!(r.memory(), 2);
}
