use glex::arena::{Lifetime, ThreadArena};
use glex::domain::{Access, ImageLayout, ResourceKind, Stage};
use glex::resource::{image_barrier, Buffer, Image, SwapchainImage};
use glex::type_states::{ShaderReadOnly, TransferDst, Undefined};
use glex::types::{AccessFlags2, Extent2D, Format, ImageAspect, PipelineStageFlags2, QUEUE_FAMILY_IGNORED};

#[test]
fn a_buffer_acquired_by_another_queue_waits_for_nothing_there() {
    let b = Buffer::<Undefined>::from_raw_view(7, 256, 0);
    assert_eq!((b.handle(), b.size(), b.family(), b.offset(), b.range(), b.memory()), (7, 256, 0, 0, 256, None));
    let (b, bar) = b.into_transfer_dst(0);
    assert_eq!(bar.src_stage, PipelineStageFlags2(0));
    assert_eq!(bar.dst_stage, PipelineStageFlags2::TRANSFER());
    assert_eq!(bar.dst_access, AccessFlags2::TRANSFER_WRITE());
    assert_eq!((bar.src_queue_family, bar.dst_queue_family), (QUEUE_FAMILY_IGNORED, QUEUE_FAMILY_IGNORED));
    let (b, bar) = b.into_vertex_buffer(0);
    assert_eq!(bar.src_stage, PipelineStageFlags2::TRANSFER());
    assert_eq!(bar.src_access, AccessFlags2::TRANSFER_WRITE());
    assert_eq!(bar.dst_access, AccessFlags2::VERTEX_ATTRIBUTE_READ());
    let (b, bar) = b.into_transfer_dst(2);
    assert_eq!(bar.src_stage, PipelineStageFlags2(0));
    assert_eq!(bar.src_access, AccessFlags2(0));
    assert_eq!((bar.src_queue_family, bar.dst_queue_family), (0, 2));
    assert_eq!(b.family(), 2);
}

#[test]
fn a_release_keeps_the_owner_until_the_other_queue_acquires() {
    let b: Buffer<TransferDst> = Buffer::<Undefined>::from_raw_view(9, 64, 2).into_transfer_dst(2).0;
    let (b, rel) = b.into_storage_release(1);
    assert_eq!(b.family(), 2);
    assert_eq!((rel.src_queue_family, rel.dst_queue_family), (2, 1));
    assert_eq!(rel.dst_stage, PipelineStageFlags2(0));
    let (b, acq) = b.into_storage(1);
    assert_eq!(b.family(), 1);
    assert_eq!(acq.src_stage, PipelineStageFlags2(0));
    assert_eq!(acq.dst_access, AccessFlags2::SHADER_READ() | AccessFlags2::SHADER_WRITE());
    let (b, same) = b.into_storage(1);
    assert_eq!(same.src_stage, PipelineStageFlags2::COMPUTE_SHADER());
    let (_, bar) = b.into_transfer_src(1);
    assert_eq!(bar.src_access, AccessFlags2::SHADER_WRITE());
}

#[test]
fn storage_from_a_transfer_on_the_same_queue_needs_no_barrier() {
    let b: Buffer<TransferDst> = Buffer::<Undefined>::from_raw_view(9, 64, 1).into_transfer_dst(1).0;
    let (b, bar) = b.into_storage(1);
    assert!(bar.is_none());
    assert_eq!(b.family(), 1);
    let b: Buffer<TransferDst> = Buffer::<Undefined>::from_raw_view(9, 64, 1).into_transfer_dst(1).0;
    let (_, bar) = b.into_uniform(1);
    assert_eq!(bar.dst_stage, PipelineStageFlags2::VERTEX_SHADER() | PipelineStageFlags2::FRAGMENT_SHADER());
    assert_eq!(bar.dst_access, AccessFlags2::UNIFORM_READ());
}

#[test]
fn an_image_goes_from_upload_to_sampling() {
    let img = SwapchainImage::from_raw(5, Extent2D::new(8, 4));
    assert_eq!((img.handle(), img.extent().width(), img.extent().height(), img.extent().depth()), (5, 8, 4, 1));
    let (img, b) = img.into_color_attachment();
    assert_eq!((b.old_layout, b.new_layout), (ImageLayout::Undefined, ImageLayout::ColorAttachment));
    let (_, b) = img.into_present_src();
    assert_eq!((b.new_layout, b.dst_stage, b.dst_access), (ImageLayout::Present, Stage::Bottom, Access::NoAccess));

    let b = image_barrier(3, ImageLayout::General, ImageLayout::General, Stage::Compute, Access::StorageWrite,
        Stage::Compute, Access::StorageRead, ImageAspect::Color, 4, 4);
    assert_eq!((b.src_queue_family, b.dst_queue_family), (QUEUE_FAMILY_IGNORED, QUEUE_FAMILY_IGNORED));
    let b = image_barrier(3, ImageLayout::General, ImageLayout::General, Stage::Compute, Access::StorageWrite,
        Stage::Compute, Access::StorageRead, ImageAspect::Color, 4, 5);
    assert_eq!((b.src_queue_family, b.dst_queue_family), (4, 5));
}

#[test]
fn a_sampled_image_is_acquired_once_per_family() {
    let mut arena = ThreadArena::new();
    arena.inject_new_block(40, 41, 1 << 20, ResourceKind::Image);
    let sub = arena.allocate(4096, 256, ResourceKind::Image, 0).unwrap();
    let offset = sub.offset();
    let img = Image::allocate_2d(77, sub, Format(37), Extent2D::new(16, 8), 2, 4096, 256);
    assert_eq!((img.handle(), img.format(), img.family()), (77, Format(37), 2));
    assert_eq!((img.extent().width(), img.extent().height(), img.extent().depth()), (16, 8, 1));
    let (img, up) = img.into_transfer_dst(2);
    assert_eq!((up.src_stage, up.dst_access), (Stage::Top, Access::TransferWrite));
    let (mut img, rel): (Image<ShaderReadOnly>, _) = img.release_to_shader_read(0);
    assert_eq!(img.family(), 2);
    assert_eq!((rel.src_queue_family, rel.dst_queue_family), (2, 0));
    let acq = img.acquire(0).unwrap();
    assert_eq!((acq.src_stage, acq.dst_stage), (Stage::Top, Stage::Fragment));
    assert_eq!(img.family(), 0);
    assert!(img.acquire(0).is_none());
    img.finalize_lifetime(3);
    let sub = img.into_allocation().unwrap();
    assert_eq!(sub.offset(), offset);
    assert_eq!(sub.free_request().lifetime, Lifetime::Submitted(3));
}

#[test]
fn an_allocated_buffer_reports_its_allocation() {
    let mut arena = ThreadArena::new();
    arena.inject_new_block(50, 51, 1 << 20, ResourceKind::Buffer);
    let sub = arena.allocate(1000, 16, ResourceKind::Buffer, 0).unwrap();
    let (off, size) = (sub.offset(), sub.size());
    let b = Buffer::allocate(900, sub, 0);
    assert_eq!((b.handle(), b.size(), b.offset(), b.range(), b.memory()), (50, 900, off, size, Some(51)));
    let (mut b, _) = b.into_storage(0);
    b.finalize_lifetime(9);
    assert_eq!(b.into_allocation().unwrap().free_request().lifetime, Lifetime::Submitted(9));
}
