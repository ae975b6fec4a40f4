//! Static descriptor contracts: each binding slot and each set layout is a
//! type whose bindings are known at compile time. A descriptor set goes
//! from allocated, through its writes, to updated and then bound; the writes
//! it collects are what the device must apply before the set is used.
use vstd::prelude::*;

use std::marker::PhantomData;

use crate::domain::ImageLayout;
use crate::record::RecordOp;
use crate::type_states::{Allocated, Bound, Unallocated, Updated};
use crate::types::{DescriptorBinding, DescriptorPoolSize, DescriptorType, PipelineBindPoint, ShaderStages};

verus! {

/// One descriptor slot; implemented once per binding.
pub trait Binding {
    spec fn index_spec() -> u32;

    spec fn type_spec() -> DescriptorType;

    spec fn stages_spec() -> ShaderStages;

    spec fn count_spec() -> u32;

    fn index() -> (r: u32)
        ensures
            r == Self::index_spec(),
    ;

    fn descriptor_type() -> (r: DescriptorType)
        ensures
            r == Self::type_spec(),
    ;

    fn stages() -> (r: ShaderStages)
        ensures
            r == Self::stages_spec(),
    ;

    fn count() -> (r: u32)
        ensures
            r == Self::count_spec(),
    ;
}

/// A full descriptor set layout contract.
pub trait DescriptorSetInterface {
    spec fn bindings_spec() -> Seq<DescriptorBinding>;

    fn bindings() -> (r: Vec<DescriptorBinding>)
        ensures
            r@ == Self::bindings_spec(),
    ;
}

/// The layout entry of binding `B`.
pub open spec fn binding_desc_spec<B: Binding>() -> DescriptorBinding {
    DescriptorBinding {
        binding: B::index_spec(),
        descriptor_type: B::type_spec(),
        count: B::count_spec(),
        stages: B::stages_spec(),
    }
}

/// The layout entry of binding `B`.
pub fn binding_desc<B: Binding>() -> (r: DescriptorBinding)
    ensures
        r == binding_desc_spec::<B>(),
{
    DescriptorBinding { binding: B::index(), descriptor_type: B::descriptor_type(), count: B::count(), stages: B::stages() }
}

/// Uniform buffer at slot 0, read by the vertex stage.
pub struct GlobalUBO;

impl Binding for GlobalUBO {
    open spec fn index_spec() -> u32 {
        0
    }

    open spec fn type_spec() -> DescriptorType {
        DescriptorType::UniformBuffer
    }

    open spec fn stages_spec() -> ShaderStages {
        ShaderStages(1)
    }

    open spec fn count_spec() -> u32 {
        1
    }

    fn index() -> (r: u32) {
        0
    }

    fn descriptor_type() -> (r: DescriptorType) {
        DescriptorType::UniformBuffer
    }

    fn stages() -> (r: ShaderStages) {
        ShaderStages(1)
    }

    fn count() -> (r: u32) {
        1
    }
}

/// Texture sampler at slot 1, read by the fragment stage.
pub struct MainTexture;

impl Binding for MainTexture {
    open spec fn index_spec() -> u32 {
        1
    }

    open spec fn type_spec() -> DescriptorType {
        DescriptorType::CombinedImageSampler
    }

    open spec fn stages_spec() -> ShaderStages {
        ShaderStages(2)
    }

    open spec fn count_spec() -> u32 {
        1
    }

    fn index() -> (r: u32) {
        1
    }

    fn descriptor_type() -> (r: DescriptorType) {
        DescriptorType::CombinedImageSampler
    }

    fn stages() -> (r: ShaderStages) {
        ShaderStages(2)
    }

    fn count() -> (r: u32) {
        1
    }
}

/// The scene set: the global uniform buffer and the main texture.
pub struct SceneSet;

impl DescriptorSetInterface for SceneSet {
    open spec fn bindings_spec() -> Seq<DescriptorBinding> {
        seq![binding_desc_spec::<GlobalUBO>(), binding_desc_spec::<MainTexture>()]
    }

    fn bindings() -> (r: Vec<DescriptorBinding>) {
        let mut v: Vec<DescriptorBinding> = Vec::new();
        v.push(binding_desc::<GlobalUBO>());
        v.push(binding_desc::<MainTexture>());
        proof {
            assert(v@ =~= Self::bindings_spec());
        }
        v
    }
}

/// Storage buffer at slot 0 that a compute pass reads.
pub struct StorageRead;

impl Binding for StorageRead {
    open spec fn index_spec() -> u32 {
        0
    }

    open spec fn type_spec() -> DescriptorType {
        DescriptorType::StorageBuffer
    }

    open spec fn stages_spec() -> ShaderStages {
        ShaderStages(4)
    }

    open spec fn count_spec() -> u32 {
        1
    }

    fn index() -> (r: u32) {
        0
    }

    fn descriptor_type() -> (r: DescriptorType) {
        DescriptorType::StorageBuffer
    }

    fn stages() -> (r: ShaderStages) {
        ShaderStages(4)
    }

    fn count() -> (r: u32) {
        1
    }
}

/// Storage buffer at slot 1 that a compute pass writes.
pub struct StorageWrite;

impl Binding for StorageWrite {
    open spec fn index_spec() -> u32 {
        1
    }

    open spec fn type_spec() -> DescriptorType {
        DescriptorType::StorageBuffer
    }

    open spec fn stages_spec() -> ShaderStages {
        ShaderStages(4)
    }

    open spec fn count_spec() -> u32 {
        1
    }

    fn index() -> (r: u32) {
        1
    }

    fn descriptor_type() -> (r: DescriptorType) {
        DescriptorType::StorageBuffer
    }

    fn stages() -> (r: ShaderStages) {
        ShaderStages(4)
    }

    fn count() -> (r: u32) {
        1
    }
}

/// The compute storage set: the buffer a compute pass reads and the one it
/// writes.
pub struct ComputeStorage;

impl DescriptorSetInterface for ComputeStorage {
    open spec fn bindings_spec() -> Seq<DescriptorBinding> {
        seq![binding_desc_spec::<StorageRead>(), binding_desc_spec::<StorageWrite>()]
    }

    fn bindings() -> (r: Vec<DescriptorBinding>) {
        let mut v: Vec<DescriptorBinding> = Vec::new();
        v.push(binding_desc::<StorageRead>());
        v.push(binding_desc::<StorageWrite>());
        proof {
            assert(v@ =~= Self::bindings_spec());
        }
        v
    }
}

/// The pool sizes of a pool for compute storage sets: one storage buffer
/// read and one written per set.
pub fn compute_storage_pool_sizes(max_sets: u32) -> (r: Vec<DescriptorPoolSize>)
    requires
        max_sets * 2 <= u32::MAX,
    ensures
        r@ == seq![DescriptorPoolSize { descriptor_type: DescriptorType::StorageBuffer, count: (max_sets * 2) as u32 }],
{
    let mut r: Vec<DescriptorPoolSize> = Vec::new();
    r.push(DescriptorPoolSize { descriptor_type: DescriptorType::StorageBuffer, count: max_sets * 2 });
    proof {
        assert(r@ =~= seq![DescriptorPoolSize { descriptor_type: DescriptorType::StorageBuffer, count: (max_sets * 2) as u32 }]);
    }
    r
}

/// The pool sizes of a pool for graphics sets with one vertex storage
/// buffer each.
pub fn gfx_vertex_storage_pool_sizes(max_sets: u32) -> (r: Vec<DescriptorPoolSize>)
    ensures
        r@ == seq![DescriptorPoolSize { descriptor_type: DescriptorType::StorageBuffer, count: max_sets }],
{
    let mut r: Vec<DescriptorPoolSize> = Vec::new();
    r.push(DescriptorPoolSize { descriptor_type: DescriptorType::StorageBuffer, count: max_sets });
    proof {
        assert(r@ =~= seq![DescriptorPoolSize { descriptor_type: DescriptorType::StorageBuffer, count: max_sets }]);
    }
    r
}


/// A descriptor write the device must apply.
#[derive(Debug, Clone, Copy, PartialEq, Eq, Structural)]
pub enum DescriptorWrite {
    /// `range` bytes of `buffer` from `offset`, at binding `binding` of `set`.
    Buffer { set: u64, binding: u32, descriptor_type: DescriptorType, buffer: u64, offset: u64, range: u64 },
    /// An image view read through a sampler, in layout `layout`, at binding
    /// `binding` of `set`.
    ImageSampler {
        set: u64,
        binding: u32,
        descriptor_type: DescriptorType,
        sampler: u64,
        image_view: u64,
        layout: ImageLayout,
    },
}

/// A descriptor set of layout `Iface` in state `S`, with the writes made to
/// it so far, in order.
pub struct DescriptorSet<S, Iface> {
    handle: u64,
    writes: Vec<DescriptorWrite>,
    _state: PhantomData<S>,
    _iface: PhantomData<Iface>,
}

impl<S, Iface> DescriptorSet<S, Iface> {
    pub closed spec fn handle_spec(&self) -> u64 {
        self.handle
    }

    pub closed spec fn writes_spec(&self) -> Seq<DescriptorWrite> {
        self.writes@
    }

    pub fn handle(&self) -> (h: u64)
        ensures
            h == self.handle_spec(),
    {
        self.handle
    }

    /// The writes made to the set, in order.
    pub fn writes(&self) -> (w: &Vec<DescriptorWrite>)
        ensures
            w@ == self.writes_spec(),
    {
        &self.writes
    }

    fn retype<T>(self) -> (r: DescriptorSet<T, Iface>)
        ensures
            r.handle_spec() == self.handle_spec(),
            r.writes_spec() == self.writes_spec(),
    {
        DescriptorSet { handle: self.handle, writes: self.writes, _state: PhantomData, _iface: PhantomData }
    }
}

impl<Iface> DescriptorSet<Unallocated, Iface> {
    /// The set the device allocated as `handle`, with nothing written yet.
    pub fn allocate(handle: u64) -> (r: DescriptorSet<Allocated, Iface>)
        ensures
            r.handle_spec() == handle,
            r.writes_spec().len() == 0,
    {
        DescriptorSet { handle, writes: Vec::new(), _state: PhantomData, _iface: PhantomData }
    }
}

impl<Iface> DescriptorSet<Allocated, Iface> {
    /// Writes the first `size` bytes of `buffer` to binding `BIND`, which
    /// holds uniform or storage buffers.
    pub fn write_buffer<BIND: Binding>(self, buffer: u64, size: u64) -> (r: Self)
        requires
            BIND::type_spec() == DescriptorType::UniformBuffer || BIND::type_spec() == DescriptorType::StorageBuffer,
        ensures
            r.handle_spec() == self.handle_spec(),
            r.writes_spec() == self.writes_spec().push(
                DescriptorWrite::Buffer {
                    set: self.handle_spec(),
                    binding: BIND::index_spec(),
                    descriptor_type: BIND::type_spec(),
                    buffer,
                    offset: 0,
                    range: size,
                },
            ),
    {
        let mut s = self;
        let w = DescriptorWrite::Buffer {
            set: s.handle,
            binding: BIND::index(),
            descriptor_type: BIND::descriptor_type(),
            buffer,
            offset: 0,
            range: size,
        };
        s.writes.push(w);
        s
    }

    /// Writes `image_view`, read through `sampler` in the shader-read
    /// layout, to binding `BIND`, which holds combined image samplers.
    pub fn write_image_sampler<BIND: Binding>(self, sampler: u64, image_view: u64) -> (r: Self)
        requires
            BIND::type_spec() == DescriptorType::CombinedImageSampler,
        ensures
            r.handle_spec() == self.handle_spec(),
            r.writes_spec() == self.writes_spec().push(
                DescriptorWrite::ImageSampler {
                    set: self.handle_spec(),
                    binding: BIND::index_spec(),
                    descriptor_type: BIND::type_spec(),
                    sampler,
                    image_view,
                    layout: ImageLayout::ShaderReadOnly,
                },
            ),
    {
        let mut s = self;
        let w = DescriptorWrite::ImageSampler {
            set: s.handle,
            binding: BIND::index(),
            descriptor_type: BIND::descriptor_type(),
            sampler,
            image_view,
            layout: ImageLayout::ShaderReadOnly,
        };
        s.writes.push(w);
        s
    }

    /// Ends the writing phase.
    pub fn finish(self) -> (r: DescriptorSet<Updated, Iface>)
        ensures
            r.handle_spec() == self.handle_spec(),
            r.writes_spec() == self.writes_spec(),
    {
        self.retype()
    }
}

/// Binding set `set` at set number `first_set` of `layout`.
pub open spec fn bind_op(bind_point: PipelineBindPoint, layout: u64, first_set: u32, set: u64) -> RecordOp {
    RecordOp::BindDescriptorSet { bind_point, layout, first_set, set }
}

impl<Iface> DescriptorSet<Updated, Iface> {
    /// Binds the set for graphics at set number `set_index` of `layout`:
    /// the set and the operation to record.
    pub fn bind(self, layout: u64, set_index: u32) -> (r: (DescriptorSet<Bound, Iface>, RecordOp))
        ensures
            r.0.handle_spec() == self.handle_spec(),
            r.0.writes_spec() == self.writes_spec(),
            r.1 == bind_op(PipelineBindPoint::spec_raw(0), layout, set_index, self.handle_spec()),
    {
        let op = self.bind_ref(layout, set_index);
        (self.retype(), op)
    }

    /// The set once a command buffer has bound it.
    pub(crate) fn into_bound(self) -> (r: DescriptorSet<Bound, Iface>)
        ensures
            r.handle_spec() == self.handle_spec(),
            r.writes_spec() == self.writes_spec(),
    {
        self.retype()
    }

    /// Binds the set for graphics, keeping it for later frames: the
    /// operation to record.
    pub fn bind_ref(&self, layout: u64, set_index: u32) -> (r: RecordOp)
        ensures
            r == bind_op(PipelineBindPoint::spec_raw(0), layout, set_index, self.handle_spec()),
    {
        RecordOp::BindDescriptorSet { bind_point: PipelineBindPoint::GRAPHICS(), layout, first_set: set_index, set: self.handle }
    }
}

impl<Iface: DescriptorSetInterface> DescriptorSet<Updated, Iface> {
    /// The set allocated as `handle`, written by `f` and finished.
    pub fn build<F: FnOnce(DescriptorSet<Allocated, Iface>) -> DescriptorSet<Allocated, Iface>>(handle: u64, f: F) -> (r: Self)
        requires
            forall|s: DescriptorSet<Allocated, Iface>| s.handle_spec() == handle && s.writes_spec().len() == 0 ==> f.requires((s,)),
        ensures
            exists|s: DescriptorSet<Allocated, Iface>, w: DescriptorSet<Allocated, Iface>|
                s.handle_spec() == handle && s.writes_spec().len() == 0 && f.ensures((s,), w) && r.handle_spec() == w.handle_spec()
                    && r.writes_spec() == w.writes_spec(),
    {
        let set = DescriptorSet::<Unallocated, Iface>::allocate(handle);
        let written = f(set);
        written.finish()
    }
}

impl DescriptorSet<Updated, ComputeStorage> {
    /// A compute storage set allocated as `handle`: `size` bytes of `read`
    /// for the pass to read and of `write` for it to write.
    pub fn storage_pair(handle: u64, read: u64, write: u64, size: u64) -> (r: Self)
        ensures
            r.handle_spec() == handle,
            r.writes_spec() == seq![
                DescriptorWrite::Buffer {
                    set: handle,
                    binding: 0,
                    descriptor_type: DescriptorType::StorageBuffer,
                    buffer: read,
                    offset: 0,
                    range: size,
                },
                DescriptorWrite::Buffer {
                    set: handle,
                    binding: 1,
                    descriptor_type: DescriptorType::StorageBuffer,
                    buffer: write,
                    offset: 0,
                    range: size,
                },
            ],
    {
        let set = DescriptorSet::<Unallocated, ComputeStorage>::allocate(handle);
        let set = set.write_buffer::<StorageRead>(read, size).write_buffer::<StorageWrite>(write, size);
        let r = set.finish();
        proof {
            assert(r.writes_spec() =~= seq![
                DescriptorWrite::Buffer {
                    set: handle,
                    binding: 0,
                    descriptor_type: DescriptorType::StorageBuffer,
                    buffer: read,
                    offset: 0,
                    range: size,
                },
                DescriptorWrite::Buffer {
                    set: handle,
                    binding: 1,
                    descriptor_type: DescriptorType::StorageBuffer,
                    buffer: write,
                    offset: 0,
                    range: size,
                },
            ]);
        }
        r
    }
}

} // verus!
