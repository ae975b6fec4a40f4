use glex::barrier::resolve_barrier;
use glex::domain::{Access, GraphError, ImageLayout, PassDomain, ResourceDecl, ResourceHandle, ResourceKind, Stage, UsageIntent};
use glex::executor_plan::{
    check_lanes, collect_barriers, first_graphics_pass, last_graphics_pass, merge_stage, plan_pass, plan_waits,
    present_sync_submits, resolve_buffer, resolve_image, BarrierSide, DomainFamilies, DomainSemaphores, PresentSync,
};
use glex::frame::{BarrierEdge, CompiledPass};
use glex::types::{AccessFlags2, Extent3D, PipelineStageFlags2, QUEUE_FAMILY_IGNORED};

fn edge(resource: u32, from: u32, to: u32, sd: PassDomain, dd: PassDomain) -> BarrierEdge {
    BarrierEdge {
        resource,
        from_pass: from,
        to_pass: to,
        src_usage: UsageIntent::compute_storage_write(),
        dst_usage: UsageIntent::fragment_sampled_read(),
        src_domain: sd,
        dst_domain: dd,
    }
}

fn pass(id: u32, domain: PassDomain) -> CompiledPass {
    CompiledPass { id, pipeline: None, descriptor_set: None, domain, commands: Vec::new(), viewport: None, scissor: None }
}

const FAMS: DomainFamilies = DomainFamilies { graphics: 0, compute: 1, transfer: 2 };

#[test]
fn same_family_barrier_has_no_ownership_transfer() {
    let e = edge(0, 0, 1, PassDomain::Graphics, PassDomain::Graphics);
    let d = resolve_barrier(&e, |d| FAMS.family_for(d));
    assert_eq!(d.src_queue_family, QUEUE_FAMILY_IGNORED);
    assert_eq!(d.dst_queue_family, QUEUE_FAMILY_IGNORED);
    let e = edge(0, 0, 1, PassDomain::Compute, PassDomain::Graphics);
    let d = resolve_barrier(&e, |d| FAMS.family_for(d));
    assert_eq!((d.src_queue_family, d.dst_queue_family), (1, 0));
}

fn resources() -> Vec<ResourceDecl> {
    vec![
        ResourceDecl { id: 0, kind: ResourceKind::Image, handle: ResourceHandle::Image { raw: 100, extent: Extent3D::new(8, 8, 1) } },
        ResourceDecl { id: 1, kind: ResourceKind::Buffer, handle: ResourceHandle::Buffer { raw: 200, offset: 16, size: 64 } },
    ]
}

#[test]
fn acquire_side_of_a_cross_queue_image_barrier_drops_source_stage() {
    let bs = vec![edge(0, 0, 1, PassDomain::Compute, PassDomain::Graphics)];
    let (imgs, bufs) = collect_barriers(BarrierSide::Acquire, &bs, 1, &resources(), &FAMS);
    assert!(bufs.is_empty());
    assert_eq!(imgs.len(), 1);
    let b = imgs[0];
    assert_eq!(b.image, 100);
    assert_eq!(b.src_stage, Stage::NoStage);
    assert_eq!(b.src_access, Access::NoAccess);
    assert_eq!(b.dst_stage, Stage::Fragment);
    assert_eq!(b.old_layout, ImageLayout::General);
    assert_eq!(b.new_layout, ImageLayout::ShaderReadOnly);
    assert_eq!((b.src_queue_family, b.dst_queue_family), (1, 0));
}

#[test]
fn release_side_only_for_cross_queue_barriers() {
    let bs = vec![
        edge(1, 0, 1, PassDomain::Compute, PassDomain::Graphics),
        edge(1, 0, 2, PassDomain::Compute, PassDomain::Compute),
    ];
    let (imgs, bufs) = collect_barriers(BarrierSide::Release, &bs, 0, &resources(), &FAMS);
    assert!(imgs.is_empty());
    assert_eq!(bufs.len(), 1);
    let b = bufs[0];
    assert_eq!(b.buffer, 200);
    assert_eq!(b.src_stage, PipelineStageFlags2::from(Stage::Compute));
    assert_eq!(b.src_access, AccessFlags2::from(Access::StorageWrite));
    assert_eq!(b.dst_stage, PipelineStageFlags2(0));
    assert_eq!(b.dst_access, AccessFlags2(0));
}

#[test]
fn same_queue_acquire_keeps_both_sides() {
    let bs = vec![edge(1, 0, 1, PassDomain::Graphics, PassDomain::Graphics)];
    let (_, bufs) = collect_barriers(BarrierSide::Acquire, &bs, 1, &resources(), &FAMS);
    assert_eq!(bufs.len(), 1);
    assert_eq!(bufs[0].src_stage, PipelineStageFlags2(0x800));
    assert_eq!(bufs[0].dst_stage, PipelineStageFlags2(0x80));
    assert_eq!(bufs[0].src_queue_family, QUEUE_FAMILY_IGNORED);
}

#[test]
fn resolving_buffers_and_images() {
    let rs = resources();
    assert_eq!(resolve_buffer(&rs, 1), (200, 16));
    let (raw, extent) = resolve_image(&rs, 0);
    assert_eq!(raw, 100);
    assert_eq!(extent.width(), 8);
}

#[test]
fn present_semaphores_join_first_and_last_graphics_pass() {
    let ps = Some(PresentSync { wait_acquire: 5, signal_render_finished: 6 });
    let (w, s) = present_sync_submits(&ps, true, false);
    assert_eq!(w.len(), 1);
    assert_eq!((w[0].semaphore, w[0].value, w[0].stage), (5, 0, Stage::ColorOutput));
    assert!(s.is_empty());
    let (w, s) = present_sync_submits(&ps, false, true);
    assert!(w.is_empty());
    assert_eq!((s[0].semaphore, s[0].stage), (6, Stage::All));
    let (w, s) = present_sync_submits(&None, true, true);
    assert!(w.is_empty() && s.is_empty());
}

#[test]
fn merge_keeps_the_later_stage() {
    assert_eq!(merge_stage(Stage::Vertex, Stage::Fragment), Stage::Fragment);
    assert_eq!(merge_stage(Stage::Compute, Stage::Compute), Stage::Compute);
}

#[test]
fn missing_lane_is_reported_for_first_pass_without_one() {
    let ps = vec![pass(0, PassDomain::Graphics), pass(1, PassDomain::Transfer), pass(2, PassDomain::Compute)];
    assert!(matches!(check_lanes(&ps, false, false), Err(GraphError::MissingLane(PassDomain::Transfer))));
    assert!(matches!(check_lanes(&ps, false, true), Err(GraphError::MissingLane(PassDomain::Compute))));
    assert!(check_lanes(&ps, true, true).is_ok());
}

#[test]
fn first_and_last_graphics_passes() {
    let ps = vec![pass(0, PassDomain::Compute), pass(1, PassDomain::Graphics), pass(2, PassDomain::Graphics)];
    let order = vec![0, 2, 1];
    assert_eq!(first_graphics_pass(&order, &ps), Some(2));
    assert_eq!(last_graphics_pass(&order, &ps), Some(1));
    assert_eq!(first_graphics_pass(&vec![0], &ps), None);
}

#[test]
fn waits_merge_per_semaphore_and_keep_largest_value() {
    let sems = DomainSemaphores { graphics: 10, compute: 11, transfer: 12 };
    let bs = vec![
        edge(0, 0, 3, PassDomain::Compute, PassDomain::Graphics),
        edge(1, 1, 3, PassDomain::Compute, PassDomain::Graphics),
        edge(1, 2, 3, PassDomain::Graphics, PassDomain::Graphics),
    ];
    let signals = vec![(0, 4, PassDomain::Compute), (1, 9, PassDomain::Compute), (2, 7, PassDomain::Graphics)];
    let waits = plan_waits(3, PassDomain::Graphics, 10, 2, Stage::ColorOutput, &bs, &signals, &sems);
    assert_eq!(waits, vec![(10, 2, Stage::ColorOutput), (11, 9, Stage::Fragment)]);
    let waits = plan_waits(3, PassDomain::Graphics, 10, 0, Stage::ColorOutput, &bs, &Vec::new(), &sems);
    assert!(waits.is_empty());
}

#[test]
fn plan_of_a_graphics_pass_after_compute() {
    let sems = DomainSemaphores { graphics: 10, compute: 11, transfer: 12 };
    let bs = vec![edge(0, 0, 1, PassDomain::Compute, PassDomain::Graphics)];
    let signals = vec![(0, 4, PassDomain::Compute)];
    let ps = Some(PresentSync { wait_acquire: 5, signal_render_finished: 6 });
    let p = pass(1, PassDomain::Graphics);
    let plan = plan_pass(&p, Some(1), Some(1), 10, 3, &bs, &resources(), &FAMS, &sems, &signals, &ps);
    assert_eq!(plan.pass_id, 1);
    assert!(plan.is_first_graphics && plan.is_last_graphics);
    assert_eq!(plan.waits, vec![(10, 3, Stage::Bottom), (11, 4, Stage::Fragment)]);
    assert_eq!(plan.acquire_images.len(), 1);
    assert_eq!(plan.acquire_images[0].image, 100);
    assert!(plan.acquire_buffers.is_empty());
    assert!(plan.release_images.is_empty() && plan.release_buffers.is_empty());
    assert_eq!(plan.binary_waits.len(), 1);
    assert_eq!(plan.binary_waits[0].semaphore, 5);
    assert_eq!(plan.binary_signals.len(), 1);
    assert_eq!(plan.binary_signals[0].semaphore, 6);

    let c = pass(0, PassDomain::Compute);
    let plan = plan_pass(&c, Some(1), Some(1), 11, 0, &bs, &resources(), &FAMS, &sems, &Vec::new(), &ps);
    assert!(!plan.is_first_graphics);
    assert!(plan.waits.is_empty());
    assert_eq!(plan.release_images.len(), 1);
    assert_eq!((plan.release_images[0].src_queue_family, plan.release_images[0].dst_queue_family), (1, 0));
    assert!(plan.binary_waits.is_empty() && plan.binary_signals.is_empty());
}
