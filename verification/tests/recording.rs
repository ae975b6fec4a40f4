use glex::arena::ThreadArena;
use glex::command_buffer::CommandPool;
use glex::descriptor::{
    binding_desc, ComputeStorage, DescriptorSet, DescriptorSetInterface, DescriptorWrite, GlobalUBO, MainTexture,
    SceneSet, StorageRead,
};
use glex::domain::{ImageLayout, ResourceKind};
use glex::gpu_alloc::{BlockFactory, GpuAllocator};
use glex::pipeline_config::PipelineId;
use glex::record::{PipelineManager, PipelineSlot, RecordOp};
use glex::recorder::{ComputeRecorder, RenderRecorder2D, TransferRecorder};
use glex::rendering::{ClearValue, RenderingInfoBuilder};
use glex::resource::{Buffer, Image};
use glex::type_states::{Allocated, IndexBuffer, TransferDst, TransferSrc, Unallocated, Undefined, VertexBuffer};
use glex::types::{
    AttachmentLoadOp, AttachmentStoreOp, DescriptorType, Extent2D, Format, IndexType, MemoryPropertyFlags, Offset2D,
    PipelineBindPoint, ShaderStages,
};

struct NoDevice;

impl BlockFactory for NoDevice {
    fn allocate_block(&self, _size: u64, _memory_type_index: u32) -> Result<(u64, u64, u64), i32> {
        Err(-2)
    }

    fn free_block(&self, _buffer: u64, _memory: u64) {}
}

#[test]
fn scene_set_layout_lists_its_two_bindings() {
    let b = SceneSet::bindings();
    assert_eq!(b.len(), 2);
    assert_eq!((b[0].binding, b[0].descriptor_type, b[0].count, b[0].stages), (0, DescriptorType::UniformBuffer, 1, ShaderStages(1)));
    assert_eq!(
        (b[1].binding, b[1].descriptor_type, b[1].count, b[1].stages),
        (1, DescriptorType::CombinedImageSampler, 1, ShaderStages(2))
    );
    let c = ComputeStorage::bindings();
    assert_eq!((c[0].binding, c[1].binding), (0, 1));
    assert_eq!((c[0].descriptor_type, c[1].descriptor_type), (DescriptorType::StorageBuffer, DescriptorType::StorageBuffer));
    let d = binding_desc::<StorageRead>();
    assert_eq!((d.binding, d.stages), (0, ShaderStages(4)));
}

#[test]
fn descriptor_writes_are_collected_in_order() {
    let set = DescriptorSet::<Unallocated, SceneSet>::allocate(30);
    assert!(set.writes().is_empty());
    let set = set.write_buffer::<GlobalUBO>(40, 256).write_image_sampler::<MainTexture>(41, 42);
    let set = set.finish();
    assert_eq!(set.handle(), 30);
    assert_eq!(
        set.writes()[0],
        DescriptorWrite::Buffer {
            set: 30,
            binding: 0,
            descriptor_type: DescriptorType::UniformBuffer,
            buffer: 40,
            offset: 0,
            range: 256
        }
    );
    assert_eq!(
        set.writes()[1],
        DescriptorWrite::ImageSampler {
            set: 30,
            binding: 1,
            descriptor_type: DescriptorType::CombinedImageSampler,
            sampler: 41,
            image_view: 42,
            layout: ImageLayout::ShaderReadOnly
        }
    );
    let op = set.bind_ref(9, 2);
    assert_eq!(op, RecordOp::BindDescriptorSet { bind_point: PipelineBindPoint::GRAPHICS(), layout: 9, first_set: 2, set: 30 });
    let (bound, op) = set.bind(9, 1);
    assert_eq!(bound.handle(), 30);
    assert_eq!(op, RecordOp::BindDescriptorSet { bind_point: PipelineBindPoint::GRAPHICS(), layout: 9, first_set: 1, set: 30 });
}

#[test]
fn a_storage_pair_writes_the_read_then_the_write_buffer() {
    let set = DescriptorSet::storage_pair(5, 6, 7, 128);
    assert_eq!(set.handle(), 5);
    assert_eq!(set.writes().len(), 2);
    assert!(matches!(set.writes()[0], DescriptorWrite::Buffer { binding: 0, buffer: 6, range: 128, .. }));
    assert!(matches!(set.writes()[1], DescriptorWrite::Buffer { binding: 1, buffer: 7, range: 128, .. }));
    let built = DescriptorSet::<glex::type_states::Updated, ComputeStorage>::build(8, |s: DescriptorSet<Allocated, ComputeStorage>| {
        s.write_buffer::<StorageRead>(9, 16)
    });
    assert_eq!(built.handle(), 8);
    assert_eq!(built.writes().len(), 1);
}

#[test]
fn rendering_builder_collects_attachments() {
    let desc = RenderingInfoBuilder::new(Offset2D::new(2, 3), Extent2D::new(640, 480))
        .color_clear(11, [1.0f32.to_bits(), 0, 0, 1.0f32.to_bits()])
        .color_load(12)
        .depth_clear(13, 1.0f32.to_bits())
        .build();
    assert_eq!((desc.area.x(), desc.area.y(), desc.area.extent().width(), desc.area.extent().height()), (2, 3, 640, 480));
    assert_eq!(desc.color_attachments.len(), 2);
    let c = desc.color_attachments[0];
    assert_eq!((c.view, c.layout, c.load_op, c.store_op), (11, ImageLayout::ColorAttachment, AttachmentLoadOp::CLEAR(), AttachmentStoreOp::STORE()));
    assert_eq!(c.clear_value, ClearValue::Color { r_bits: 1.0f32.to_bits(), g_bits: 0, b_bits: 0, a_bits: 1.0f32.to_bits() });
    let l = desc.color_attachments[1];
    assert_eq!((l.view, l.load_op), (12, AttachmentLoadOp::LOAD()));
    let d = desc.depth_attachment.unwrap();
    assert_eq!((d.view, d.layout, d.load_op, d.clear_depth_bits), (13, ImageLayout::DepthAttachment, AttachmentLoadOp::CLEAR(), 1.0f32.to_bits()));
}

#[test]
fn a_command_buffer_records_a_rendering() {
    let pool = CommandPool::new(3, 1);
    let cb = pool.allocate(70);
    assert_eq!((cb.handle(), cb.family(), cb.ops().len()), (70, 1, 0));
    let cb = cb.begin();
    let desc = RenderingInfoBuilder::new(Offset2D::new(0, 0), Extent2D::new(8, 8)).color_load(4).build();
    let mut cb = cb.begin_rendering(desc);
    cb.bind_graphics_pipeline(21);
    cb.set_scissor_rect(1, 2, 3, 4);
    cb.draw(6);
    cb.draw_indexed(12, 2, 3);
    let vb: Buffer<VertexBuffer> = Buffer::<Undefined>::from_raw_view(31, 64, 1).into_transfer_dst(1).0.into_vertex_buffer(1).0;
    cb.bind_vertex_buffer(&vb);
    let ib: Buffer<IndexBuffer> = Buffer::<Undefined>::from_raw_view(32, 64, 1).into_transfer_dst(1).0.into_index_buffer(1).0;
    cb.bind_index_buffer(&ib);
    let cb = cb.end_rendering().end();
    let ops = cb.ops();
    assert_eq!(ops.len(), 8);
    assert_eq!(ops[0], RecordOp::BeginRenderingWith { desc: 0 });
    assert_eq!(cb.renderings().len(), 1);
    assert_eq!(ops[1], RecordOp::BindPipeline { bind_point: PipelineBindPoint::GRAPHICS(), pipeline: 21 });
    assert_eq!(ops[2], RecordOp::SetScissor { offset_x: 1, offset_y: 2, width: 3, height: 4 });
    assert_eq!(ops[3], RecordOp::Draw { vertex_count: 6 });
    assert_eq!(ops[4], RecordOp::DrawIndexed { index_count: 12, instance_count: 2, first_index: 3 });
    assert_eq!(ops[5], RecordOp::BindVertexBuffer { buffer: 31, offset: 0 });
    assert_eq!(ops[6], RecordOp::BindIndexBuffer { buffer: 32, offset: 0, index_type: IndexType::U32() });
    assert_eq!(ops[7], RecordOp::EndRendering);
}

#[test]
fn copies_start_at_the_buffers_place_in_memory() {
    let mut arena = ThreadArena::new();
    arena.inject_new_block(50, 51, 1 << 20, ResourceKind::Buffer);
    let a = arena.allocate(1000, 16, ResourceKind::Buffer, 0).unwrap();
    let b = arena.allocate(1000, 16, ResourceKind::Buffer, 0).unwrap();
    let (a_off, b_off) = (a.offset(), b.offset());
    assert_ne!(a_off, b_off);
    let src = Buffer::staging(60, 1000, a, 0);
    let dst: Buffer<TransferDst> = Buffer::<Undefined>::allocate(1000, b, 0).into_transfer_dst(0).0;
    let mut cb = CommandPool::new(1, 0).allocate(2).begin();
    cb.copy_buffer(&src, &dst, 100);
    cb.copy_buffer_offset(&src, &dst, 100, 10, 20);
    let ops = cb.ops();
    assert_eq!(ops[0], RecordOp::CopyBuffer { src: 60, dst: dst.handle(), src_offset: a_off, dst_offset: b_off, size: 100 });
    assert_eq!(
        ops[1],
        RecordOp::CopyBuffer { src: 60, dst: dst.handle(), src_offset: a_off + 10, dst_offset: b_off + 20, size: 100 }
    );
}

#[test]
fn recorders_bind_to_the_layout_of_the_last_pipeline() {
    let mut pipelines = PipelineManager::new();
    let gfx = pipelines.push(PipelineSlot { handle: 100, layout: 200 });
    let comp = pipelines.push(PipelineSlot { handle: 101, layout: 201 });
    assert_eq!((gfx, comp), (PipelineId(0), PipelineId(1)));

    let desc = RenderingInfoBuilder::new(Offset2D::new(0, 0), Extent2D::new(8, 8)).build();
    let cb = CommandPool::new(1, 0).allocate(2).begin().begin_rendering(desc);
    let mut r = RenderRecorder2D::new(cb, &pipelines, None);
    r.bind_pipeline(gfx);
    let set = DescriptorSet::<Unallocated, SceneSet>::allocate(77).finish();
    r.bind_descriptor_set_ref(&set);
    r.set_viewport_region(0, 0, 8.0f32.to_bits(), 8.0f32.to_bits());
    r.set_scissor_region(0, 0, 8, 8);
    r.push_constants(ShaderStages(1), 16, vec![1, 2, 3, 4]);
    let cb = r.into_command_buffer();
    assert_eq!(cb.push_data(), &vec![vec![1u8, 2, 3, 4]]);
    assert_eq!(cb.ops()[5], RecordOp::PushConstantData { layout: 200, stages: ShaderStages(1), offset: 16, data: 0 });
    let ops = cb.ops().clone();
    assert_eq!(ops[1], RecordOp::BindPipeline { bind_point: PipelineBindPoint::GRAPHICS(), pipeline: 100 });
    assert_eq!(ops[2], RecordOp::BindDescriptorSet { bind_point: PipelineBindPoint::GRAPHICS(), layout: 200, first_set: 0, set: 77 });
    assert_eq!(ops[3], RecordOp::SetViewport { x_bits: 0, y_bits: 0, width_bits: 8.0f32.to_bits(), height_bits: 8.0f32.to_bits() });

    let cb = CommandPool::new(1, 0).allocate(3).begin();
    let mut c = ComputeRecorder::new(cb, &pipelines, None);
    c.bind_pipeline(comp);
    let set = DescriptorSet::storage_pair(5, 6, 7, 128);
    let bound = c.bind_compute_descriptor_set(set);
    assert_eq!(bound.handle(), 5);
    c.dispatch(4, 2, 1);
    c.push_compute_constants(vec![9; 8]);
    let cb = c.into_command_buffer();
    assert_eq!(cb.ops()[3], RecordOp::PushConstantData { layout: 201, stages: ShaderStages(4), offset: 0, data: 0 });
    assert_eq!(cb.push_data()[0], vec![9u8; 8]);
    let ops = cb.ops().clone();
    assert_eq!(ops[0], RecordOp::BindPipeline { bind_point: PipelineBindPoint::COMPUTE(), pipeline: 101 });
    assert_eq!(ops[1], RecordOp::BindDescriptorSet { bind_point: PipelineBindPoint::COMPUTE(), layout: 201, first_set: 0, set: 5 });
    assert_eq!(ops[2], RecordOp::Dispatch { x: 4, y: 2, z: 1 });
}

#[test]
fn a_transfer_recorder_copies_raw_and_typed_buffers() {
    let cb = CommandPool::new(1, 0).allocate(2).begin();
    let mut t = TransferRecorder::new(cb);
    t.copy_buffer_raw(1, 2, 30);
    t.copy_buffer_raw_offset(1, 2, 30, 40);
    let src: Buffer<TransferSrc> = Buffer::<Undefined>::from_raw_view(8, 64, 0).into_transfer_src(0).0;
    let mut arena = ThreadArena::new();
    arena.inject_new_block(40, 41, 1 << 20, ResourceKind::Image);
    let sub = arena.allocate(4096, 256, ResourceKind::Image, 0).unwrap();
    let img: Image<TransferDst> = Image::allocate_2d(77, sub, Format(37), Extent2D::new(16, 8), 0, 4096, 256).into_transfer_dst(0).0;
    t.copy_buffer_to_image(&src, &img);
    let ops = t.into_command_buffer().ops().clone();
    assert_eq!(ops[0], RecordOp::CopyBuffer { src: 1, dst: 2, src_offset: 0, dst_offset: 0, size: 30 });
    assert_eq!(ops[1], RecordOp::CopyBuffer { src: 1, dst: 2, src_offset: 0, dst_offset: 40, size: 30 });
    match ops[2] {
        RecordOp::CopyBufferToImage { buffer, offset, image, extent } => {
            assert_eq!((buffer, offset, image), (8, 0, 77));
            assert_eq!((extent.width(), extent.height(), extent.depth()), (16, 8, 1));
        }
        _ => panic!("expected a copy into the image"),
    }
}

#[test]
fn an_allocator_keeps_the_block_sizes_it_was_given() {
    let a = GpuAllocator::new_with_block_sizes(NoDevice, vec![MemoryPropertyFlags(1)], 4096, 1024);
    assert_eq!((a.buffer_block_size(), a.image_block_size()), (4096, 1024));
}

#[test]
fn transition_barriers_are_recorded_as_lists() {
    let mut cb = CommandPool::new(1, 0).allocate(2).begin();
    let (buf, bar) = Buffer::<Undefined>::from_raw_view(5, 64, 0).into_transfer_dst(0);
    cb.buffer_barrier(vec![bar]);
    let img = glex::resource::SwapchainImage::from_raw(6, Extent2D::new(4, 4));
    let (_, ib) = img.into_color_attachment();
    cb.image_barrier(vec![ib, ib]);
    assert_eq!(cb.ops()[0], RecordOp::BufferBarriers { list: 0 });
    assert_eq!(cb.ops()[1], RecordOp::ImageBarriers { list: 0 });
    assert_eq!(cb.buffer_barrier_lists()[0][0].buffer, buf.handle());
    assert_eq!(cb.image_barrier_lists()[0].len(), 2);
    assert_eq!(cb.image_barrier_lists()[0][1].image, 6);
}
