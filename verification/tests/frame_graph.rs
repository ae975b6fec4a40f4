use glex::domain::{GraphError, PassDomain, ResourceHandle, ResourceKind, UsageIntent};
use glex::frame::FrameGraph;
use glex::pipeline_config::PipelineId;
use glex::types::Extent3D;

fn pairs(order: &glex::frame::ExecutionOrder) -> Vec<(u32, u32, u32)> {
    order.barriers.iter().map(|b| (b.resource, b.from_pass, b.to_pass)).collect()
}

#[test]
fn read_after_write_places_one_barrier() {
    let mut g = FrameGraph::new();
    let img = g.add_image(42, Extent3D::new(4, 4, 1));
    let p0 = g.add_compute_pass(None).writes(img, UsageIntent::compute_storage_write()).dispatch(1, 1, 1).submit();
    let p1 = g.add_graphics_pass(None).reads(img, UsageIntent::fragment_sampled_read()).draw(3).submit();
    let c = g.compile().unwrap();
    assert_eq!(c.order.ordered_passes, vec![p0, p1]);
    assert_eq!(pairs(&c.order), vec![(img, p0, p1)]);
    let b = &c.order.barriers[0];
    assert_eq!(b.src_domain, PassDomain::Compute);
    assert_eq!(b.dst_domain, PassDomain::Graphics);
    assert_eq!(b.src_usage.stage(), UsageIntent::compute_storage_write().stage());
    assert_eq!(b.dst_usage.layout(), UsageIntent::fragment_sampled_read().layout());
}

#[test]
fn write_after_read_and_write_after_write() {
    let mut g = FrameGraph::new();
    let buf = g.add_buffer(7, 0, 256);
    let p0 = g.add_transfer_pass().writes(buf, UsageIntent::transfer_write()).submit();
    let p1 = g.add_graphics_pass(None).reads(buf, UsageIntent::vertex_buffer_read()).submit();
    let p2 = g.add_transfer_pass().writes(buf, UsageIntent::transfer_write()).submit();
    let c = g.compile().unwrap();
    assert_eq!(c.order.ordered_passes, vec![p0, p1, p2]);
    assert_eq!(pairs(&c.order), vec![(buf, p0, p1), (buf, p0, p2), (buf, p1, p2)]);
}

#[test]
fn reads_alone_need_no_barrier() {
    let mut g = FrameGraph::new();
    let buf = g.add_buffer(7, 0, 256);
    g.add_graphics_pass(None).reads(buf, UsageIntent::vertex_buffer_read()).submit();
    g.add_graphics_pass(None).reads(buf, UsageIntent::vertex_buffer_read()).submit();
    let c = g.compile().unwrap();
    assert!(c.order.barriers.is_empty());
    assert_eq!(c.order.ordered_passes, vec![0, 1]);
}

#[test]
fn a_pass_never_waits_for_itself() {
    let mut g = FrameGraph::new();
    let img = g.add_image(1, Extent3D::new(1, 1, 1));
    g.add_compute_pass(None)
        .reads(img, UsageIntent::compute_storage_read())
        .writes(img, UsageIntent::compute_storage_write())
        .submit();
    let c = g.compile().unwrap();
    assert!(c.order.barriers.is_empty());
}

#[test]
fn one_barrier_per_pair_of_passes() {
    let mut g = FrameGraph::new();
    let a = g.add_buffer(1, 0, 16);
    let b = g.add_buffer(2, 0, 16);
    let p0 = g.add_compute_pass(None)
        .writes(a, UsageIntent::compute_storage_write())
        .writes(b, UsageIntent::compute_storage_write())
        .submit();
    let p1 = g.add_compute_pass(None)
        .reads(a, UsageIntent::compute_storage_read())
        .reads(b, UsageIntent::compute_storage_read())
        .submit();
    let c = g.compile().unwrap();
    assert_eq!(pairs(&c.order), vec![(a, p0, p1)]);
}

#[test]
fn independent_passes_run_in_id_order() {
    let mut g = FrameGraph::new();
    let x = g.add_buffer(1, 0, 16);
    let y = g.add_buffer(2, 0, 16);
    let p0 = g.add_compute_pass(None).writes(x, UsageIntent::compute_storage_write()).submit();
    let p1 = g.add_compute_pass(None).writes(y, UsageIntent::compute_storage_write()).submit();
    let p2 = g.add_compute_pass(None).reads(x, UsageIntent::compute_storage_read()).submit();
    let c = g.compile().unwrap();
    assert_eq!(c.order.ordered_passes, vec![p0, p1, p2]);
}

#[test]
fn empty_graph_compiles_to_nothing() {
    let g = FrameGraph::new();
    let c = g.compile().unwrap();
    assert!(c.order.ordered_passes.is_empty());
    assert!(c.order.barriers.is_empty());
    assert!(c.passes.is_empty());
}

#[test]
fn lowering_keeps_commands_and_settings() {
    let mut g = FrameGraph::default();
    let vb = g.add_buffer(9, 64, 128);
    let id = g
        .add_graphics_pass(Some(PipelineId(3)))
        .reads(vb, UsageIntent::vertex_buffer_read())
        .bind_vertex_buffer(vb, 8)
        .set_scissor(1, 2, 30, 40)
        .set_viewport(0, 0, 1.5f32.to_bits(), 2.0f32.to_bits())
        .draw(6)
        .submit();
    let c = g.compile().unwrap();
    assert_eq!(c.passes.len(), 1);
    let p = &c.passes[0];
    assert_eq!(p.id, id);
    assert_eq!(p.pipeline, Some(PipelineId(3)));
    assert_eq!(p.domain, PassDomain::Graphics);
    assert_eq!(p.commands.len(), 2);
    assert_eq!(p.scissor, Some((1, 2, 30, 40)));
    assert_eq!(p.viewport, Some((0, 0, 1.5f32.to_bits(), 2.0f32.to_bits())));
    assert_eq!(c.resources.len(), 1);
}

#[test]
fn resources_get_sequential_ids() {
    let mut g = FrameGraph::new();
    let a = g.add_buffer(10, 0, 64);
    let b = g.add_image(11, Extent3D::new(2, 3, 1));
    assert_eq!((a, b), (0, 1));
    assert_eq!(g.next_resource_id(), 2);
    assert_eq!(g.resource(1).kind, ResourceKind::Image);
    match g.resource(0).handle {
        ResourceHandle::Buffer { raw, offset, size } => assert_eq!((raw, offset, size), (10, 0, 64)),
        _ => panic!("expected a buffer"),
    }
    assert_eq!(g.resources().len(), 2);
}

#[test]
fn dropped_builder_still_uses_an_id() {
    let mut g = FrameGraph::new();
    let _ = g.add_transfer_pass();
    let p = g.add_transfer_pass().submit();
    assert_eq!(p, 1);
    assert_eq!(g.next_pass_id(), 2);
    assert_eq!(g.passes().len(), 1);
}

#[test]
fn undeclared_bindings_are_reported() {
    let mut g = FrameGraph::new();
    let vb = g.add_buffer(1, 0, 16);
    let ok = g.add_graphics_pass(None).reads(vb, UsageIntent::vertex_buffer_read()).bind_vertex_buffer(vb, 0);
    assert!(ok.validate_resource_declarations());
    drop(ok);
    let bad = g.add_graphics_pass(None).bind_index_buffer(vb, 0);
    assert!(!bad.validate_resource_declarations());
    drop(bad);
    let copy = g.add_transfer_pass().reads(vb, UsageIntent::transfer_read()).copy_buffer(vb, vb, 16, 0);
    assert!(!copy.validate_resource_declarations());
}

#[test]
fn graph_error_carries_backend_message() {
    match GraphError::backend(String::from("device lost")) {
        GraphError::BackendFailure(m) => assert_eq!(m, "device lost"),
        _ => panic!("wrong variant"),
    }
}

#[test]
fn passes_can_be_changed_in_place() {
    let mut g = FrameGraph::new();
    g.add_transfer_pass().submit();
    g.add_compute_pass(None).submit();
    g.passes_mut()[1].pipeline = Some(PipelineId(4));
    assert_eq!(g.passes()[1].pipeline, Some(PipelineId(4)));
    assert_eq!(g.passes()[0].domain, PassDomain::Transfer);
    assert_eq!(g.passes().len(), 2);
}
