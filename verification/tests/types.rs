use glex::domain::{GraphError, PassDomain};
use glex::descriptor::{compute_storage_pool_sizes, gfx_vertex_storage_pool_sizes, Binding, StorageRead, StorageWrite};
use glex::types::{DescriptorType, FrontFace};
use glex::vk_values::{cull_mode_bits, descriptor_type_raw, front_face_raw, image_layout_raw, shader_stage_bits};
use glex::device_select::{MemoryIndices, PresentMode, QueueDiscovery};
use glex::domain::{Access, ImageLayout, Stage, UsageIntent};
use glex::layout_helpers::{data_size, push_range, push_size, shader_stages, vertex_attr, vertex_binding, vertex_stride};
use glex::pipeline_config::{BlendConfig, DepthConfig, RasterConfig};
use glex::types::{
    AccessFlags2, BlendFactor, CommandBufferUsageFlags, CullMode, Extent2D, Extent3D, Format, IndexType, MemoryPropertyFlags,
    MemoryRequirements, Offset2D, PipelineStageFlags2, Rect2D, ShaderStages, VertexInputRate,
};

#[test]
fn extents_and_offsets() {
    let mut e = Extent2D::new(640, 480);
    assert_eq!(e.area(), 307200);
    assert!(!e.is_zero());
    e.set_height(0);
    assert!(e.is_zero());
    assert_eq!((e.width(), e.height()), (640, 0));

    let mut o = Offset2D::new(3, -4);
    o.translate(-3, 4);
    assert!(o.is_origin());
    o.set_x(7);
    o.set_y(8);
    assert_eq!((o.x(), o.y()), (7, 8));

    let mut r = Rect2D::new(Offset2D::new(1, 2), Extent2D::new(10, 20));
    assert_eq!((r.x(), r.y(), r.width(), r.height()), (1, 2, 10, 20));
    assert_eq!(r.area(), 200);
    r.set_width(0);
    assert!(r.is_zero());
    r.set_x(5);
    r.set_y(6);
    r.set_height(9);
    assert_eq!(r.offset(), Offset2D::new(5, 6));
    assert_eq!(r.extent(), Extent2D::new(0, 9));
    r.set_offset(Offset2D::new(0, 0));
    r.set_extent(Extent2D::new(2, 2));
    assert_eq!(r.area(), 4);

    let mut v = Extent3D::new(1, 2, 3);
    v.set_width(4);
    v.set_height(5);
    v.set_depth(6);
    assert_eq!((v.width(), v.height(), v.depth()), (4, 5, 6));
}

#[test]
fn raw_enumerants_round_trip() {
    assert_eq!(IndexType::from_raw(1).as_raw(), 1);
    assert_eq!(IndexType::U32(), IndexType::from_raw(1));
    assert_eq!(BlendFactor::ONE_MINUS_SRC_ALPHA().as_raw(), 7);
    assert_eq!(Format::B8G8R8A8_SRGB(), Format(50));
    let f = CommandBufferUsageFlags::ONE_TIME_SUBMIT() | CommandBufferUsageFlags::SIMULTANEOUS_USE();
    assert_eq!(f.bits(), 5);
    assert_eq!((f & CommandBufferUsageFlags::ONE_TIME_SUBMIT()).as_raw(), 1);
}

#[test]
fn stage_and_access_bits() {
    assert_eq!(PipelineStageFlags2::from(Stage::ColorOutput), PipelineStageFlags2::COLOR_ATTACHMENT_OUTPUT());
    assert_eq!(PipelineStageFlags2::from(Stage::All), PipelineStageFlags2(0x1_0000));
    assert_eq!(PipelineStageFlags2::from(Stage::NoStage), PipelineStageFlags2::NONE());
    assert_eq!(AccessFlags2::from(Access::SampledRead), AccessFlags2::SHADER_READ());
    assert_eq!(AccessFlags2::from(Access::StorageRead), AccessFlags2::SHADER_READ());
    assert_eq!(AccessFlags2::from(Access::HostWrite), AccessFlags2(0x4000));
    let both = PipelineStageFlags2::TRANSFER() | PipelineStageFlags2::HOST();
    assert_eq!(both.0, 0x5000);
}

#[test]
fn memory_property_containment() {
    let f = MemoryPropertyFlags::DEVICE_LOCAL() | MemoryPropertyFlags::HOST_VISIBLE();
    assert!(f.contains(MemoryPropertyFlags::DEVICE_LOCAL()));
    assert!(!f.contains(MemoryPropertyFlags::HOST_COHERENT()));
    assert!(f.contains(MemoryPropertyFlags::empty()));
}

#[test]
fn usage_intent_presets() {
    let u = UsageIntent::depth_write();
    assert_eq!((u.stage(), u.access(), u.layout()), (Stage::EarlyFragmentTests, Access::DepthStencilWrite, ImageLayout::DepthAttachment));
    let p = UsageIntent::present();
    assert_eq!((p.stage(), p.access(), p.layout()), (Stage::Bottom, Access::MemoryRead, ImageLayout::Present));
    let n = UsageIntent::new(Stage::Host, Access::HostRead, ImageLayout::Undefined);
    assert_eq!(n.access(), Access::HostRead);
}

#[test]
fn pipeline_presets() {
    let a = BlendConfig::alpha();
    assert!(a.enable);
    assert_eq!(a.src_color, BlendFactor::SRC_ALPHA());
    assert_eq!(a.dst_alpha, BlendFactor::ONE_MINUS_SRC_ALPHA());
    assert!(!BlendConfig::opaque().enable);
    assert_eq!(BlendConfig::additive_premul().src_alpha, BlendFactor::ZERO());
    assert_eq!(RasterConfig::back_cull().cull, CullMode::Back);
    assert_eq!(RasterConfig::default().cull, CullMode::NoCull);
    let d = DepthConfig::disabled();
    assert!(!d.test && !d.write);
}

#[derive(Clone, Copy)]
struct Vertex {
    pos: [f32; 2],
    color: [u8; 4],
}

#[test]
fn layouts_follow_type_sizes() {
    assert_eq!(vertex_stride::<Vertex>(), 12);
    assert_eq!(push_size::<[u32; 4]>(), 16);
    assert_eq!(data_size(&[0u32; 5]), 20);
    let r = push_range::<u64>(ShaderStages::VERTEX(), 8);
    assert_eq!((r.stages(), r.offset(), r.size()), (ShaderStages(1), 8, 8));
    let b = vertex_binding::<Vertex>(2, VertexInputRate::INSTANCE());
    assert_eq!((b.binding, b.stride), (2, 12));
    let a = vertex_attr(1, Format::R32G32_SFLOAT(), 8);
    assert_eq!((a.location, a.binding, a.offset), (1, 0, 8));
    assert_eq!(shader_stages(ShaderStages::VERTEX(), ShaderStages::FRAGMENT()), ShaderStages::ALL_GRAPHICS());
}

#[test]
fn queue_roles_prefer_dedicated_families() {
    // 0: graphics+compute+transfer, 1: compute only, 2: transfer only, 3: compute only
    let fams = vec![7, 2, 4, 2];
    let present = vec![false, false, true, false];
    let d = QueueDiscovery::find_queue(&fams, Some(&present));
    assert_eq!(d.graphics, Some(0));
    assert_eq!(d.compute, Some(3));
    assert_eq!(d.transfer, vec![2]);
    assert_eq!(d.present, Some(2));
}

#[test]
fn queue_roles_fall_back_to_graphics() {
    let fams = vec![7];
    let d = QueueDiscovery::find_queue(&fams, None);
    assert_eq!(d.graphics, Some(0));
    assert_eq!(d.compute, Some(0));
    assert_eq!(d.transfer, vec![0]);
    assert_eq!(d.present, None);
}

#[test]
fn memory_indices_pick_first_matching_types() {
    let types = vec![MemoryPropertyFlags(1), MemoryPropertyFlags(6), MemoryPropertyFlags(2)];
    let req = MemoryRequirements { size: 64, alignment: 16, memory_type_bits: 0b111 };
    let m = MemoryIndices::find(&types, req);
    assert_eq!((m.staging, m.device_local, m.transcript), (1, 0, 1));
    assert!(PresentMode::Vsync != PresentMode::Mailbox);
}

#[test]
fn descriptor_pools_hold_storage_buffers_per_set() {
    let c = compute_storage_pool_sizes(8);
    assert_eq!(c.len(), 1);
    assert_eq!((c[0].descriptor_type, c[0].count), (DescriptorType::StorageBuffer, 16));
    let g = gfx_vertex_storage_pool_sizes(8);
    assert_eq!((g[0].descriptor_type, g[0].count), (DescriptorType::StorageBuffer, 8));
    assert_eq!((StorageRead::index(), StorageWrite::index()), (0, 1));
}

#[test]
fn renderer_values_map_to_vulkan_values() {
    assert_eq!(image_layout_raw(ImageLayout::Undefined), 0);
    assert_eq!(image_layout_raw(ImageLayout::ShaderReadOnly), 5);
    assert_eq!(image_layout_raw(ImageLayout::Present), 1000001002);
    assert_eq!(image_layout_raw(ImageLayout::DepthReadOnly), 1000241001);
    assert_eq!(cull_mode_bits(CullMode::Back), 2);
    assert_eq!(front_face_raw(FrontFace::Clockwise), 1);
    assert_eq!(shader_stage_bits(ShaderStages(1)), 0x1);
    assert_eq!(shader_stage_bits(ShaderStages(2 | 4)), 0x30);
    assert_eq!(shader_stage_bits(ShaderStages(8)), 0);
    assert_eq!(descriptor_type_raw(DescriptorType::StorageBuffer), 7);
    assert_eq!(descriptor_type_raw(DescriptorType::InputAttachment), 10);
}

#[test]
fn graph_errors_describe_themselves() {
    assert_eq!(GraphError::backend("oom".to_string()).to_string(), "Internal rendering backend error: oom");
    assert_eq!(GraphError::CycleDetected.to_string(), "Graph contains a cycle");
    assert_eq!(GraphError::ResourceNotFound(305).to_string(), "Resource 305 not found");
    assert_eq!(GraphError::ResourceNotFound(0).to_string(), "Resource 0 not found");
    assert_eq!(GraphError::MissingLane(PassDomain::Compute).to_string(), "No lane attached for domain Compute");
}
