use glex::domain::{DescriptorSetId, GraphError, PassDomain, Stage, UsageIntent};
use glex::executor::Executor;
use glex::executor_plan::{PresentSync, SemaphoreSubmit};
use glex::frame::FrameGraph;
use glex::lane::WorkLane;
use glex::pipeline_config::PipelineId;
use glex::record::{record_pass, record_present_only, PipelineManager, PipelineSlot, RecordOp};
use glex::types::{Extent2D, Extent3D, PushConstantRange, ShaderStages};

const GFX_SEM: u64 = 100;
const COMPUTE_SEM: u64 = 101;

fn executor(with_compute: bool) -> Executor {
    let mut e = Executor::new();
    e.attach_graphics(WorkLane::new(GFX_SEM, 1000, 0));
    if with_compute {
        e.attach_compute(WorkLane::new(COMPUTE_SEM, 1001, 1));
    }
    e
}

fn present() -> Option<PresentSync> {
    Some(PresentSync { wait_acquire: 5, signal_render_finished: 6 })
}

fn sem(s: &SemaphoreSubmit) -> (u64, u64, Stage) {
    (s.semaphore, s.value, s.stage)
}

fn compute_then_draw() -> FrameGraph {
    let mut g = FrameGraph::new();
    let img = g.add_image(42, Extent3D::new(4, 4, 1));
    g.add_compute_pass(None).writes(img, UsageIntent::compute_storage_write()).dispatch(1, 1, 1).submit();
    g.add_graphics_pass(None).reads(img, UsageIntent::fragment_sampled_read()).draw(3).submit();
    g
}

#[test]
fn lane_submissions_count_up_from_zero() {
    let mut l = WorkLane::new(9, 10, 2);
    assert_eq!((l.timeline_handle(), l.queue_handle(), l.family(), l.last_signal_value()), (9, 10, 2, 0));
    let s = l.submit(&vec![(3, 4, Stage::Compute)]);
    assert_eq!(s.value, 1);
    assert_eq!(s.waits.iter().map(sem).collect::<Vec<_>>(), vec![(3, 4, Stage::Compute)]);
    assert_eq!(s.signals.iter().map(sem).collect::<Vec<_>>(), vec![(9, 1, Stage::All)]);
    let bw = vec![SemaphoreSubmit { semaphore: 5, value: 0, stage: Stage::ColorOutput }];
    let bs = vec![SemaphoreSubmit { semaphore: 6, value: 0, stage: Stage::All }];
    let s = l.submit_with_binary(&vec![(3, 7, Stage::Transfer)], &bw, &bs);
    assert_eq!(s.value, 2);
    assert_eq!(
        s.waits.iter().map(sem).collect::<Vec<_>>(),
        vec![(3, 7, Stage::Transfer), (5, 0, Stage::ColorOutput)]
    );
    assert_eq!(s.signals.iter().map(sem).collect::<Vec<_>>(), vec![(9, 2, Stage::All), (6, 0, Stage::All)]);
    let s = l.submit_semaphore_only(&bw, &bs);
    assert_eq!(s.value, 3);
    assert_eq!(s.waits.iter().map(sem).collect::<Vec<_>>(), vec![(5, 0, Stage::ColorOutput)]);
    assert_eq!(l.last_signal_value(), 3);
}

#[test]
fn a_graphics_pass_waits_for_the_compute_pass_it_reads() {
    let mut e = executor(true);
    let fp = e.execute(compute_then_draw(), present()).ok().unwrap();
    assert_eq!(fp.compiled.order.ordered_passes, vec![0, 1]);
    assert_eq!(fp.passes.len(), 2);
    assert!(fp.present_only.is_none());

    let c = &fp.passes[0];
    assert_eq!(fp.compiled.passes[c.pass_index].id, 0);
    assert_eq!(c.plan.domain, PassDomain::Compute);
    assert_eq!(c.submission.value, 1);
    assert!(c.submission.waits.is_empty());
    assert_eq!(c.submission.signals.iter().map(sem).collect::<Vec<_>>(), vec![(COMPUTE_SEM, 1, Stage::All)]);
    assert_eq!(c.plan.release_images.len(), 1);

    let g = &fp.passes[1];
    assert_eq!(g.plan.domain, PassDomain::Graphics);
    assert!(g.plan.is_first_graphics && g.plan.is_last_graphics);
    assert_eq!(g.submission.value, 1);
    assert_eq!(
        g.submission.waits.iter().map(sem).collect::<Vec<_>>(),
        vec![(COMPUTE_SEM, 1, Stage::Fragment), (5, 0, Stage::ColorOutput)]
    );
    assert_eq!(
        g.submission.signals.iter().map(sem).collect::<Vec<_>>(),
        vec![(GFX_SEM, 1, Stage::All), (6, 0, Stage::All)]
    );
    assert_eq!(fp.final_graphics_value, 1);
    assert_eq!(e.graphics_lane().last_signal_value(), 1);
    assert_eq!(e.compute_lane().last_signal_value(), 1);
}

#[test]
fn the_next_frame_waits_for_the_previous_one_on_each_lane() {
    let mut e = executor(true);
    e.execute(compute_then_draw(), present()).ok().unwrap();
    let fp = e.execute(compute_then_draw(), present()).ok().unwrap();
    let c = &fp.passes[0];
    assert_eq!(c.submission.value, 2);
    assert_eq!(c.submission.waits.iter().map(sem).collect::<Vec<_>>(), vec![(COMPUTE_SEM, 1, Stage::Compute)]);
    let g = &fp.passes[1];
    assert_eq!(g.submission.value, 2);
    assert_eq!(
        g.submission.waits.iter().map(sem).collect::<Vec<_>>(),
        vec![(GFX_SEM, 1, Stage::ColorOutput), (COMPUTE_SEM, 2, Stage::Fragment), (5, 0, Stage::ColorOutput)]
    );
    assert_eq!(fp.final_graphics_value, 2);
}

#[test]
fn a_pass_without_a_lane_is_refused_and_nothing_changes() {
    let mut e = executor(false);
    let r = e.execute(compute_then_draw(), present());
    assert!(matches!(r, Err(GraphError::MissingLane(PassDomain::Compute))));
    assert_eq!(e.graphics_lane().last_signal_value(), 0);
}

#[test]
fn a_frame_without_graphics_still_presents() {
    let mut e = executor(true);
    let mut g = FrameGraph::new();
    let buf = g.add_buffer(7, 0, 64);
    g.add_compute_pass(None).writes(buf, UsageIntent::compute_storage_write()).dispatch(2, 1, 1).submit();
    let fp = e.execute(g, present()).ok().unwrap();
    let s = fp.present_only.as_ref().unwrap();
    assert_eq!(s.value, 1);
    assert_eq!(s.waits.iter().map(sem).collect::<Vec<_>>(), vec![(5, 0, Stage::ColorOutput)]);
    assert_eq!(s.signals.iter().map(sem).collect::<Vec<_>>(), vec![(GFX_SEM, 1, Stage::All), (6, 0, Stage::Bottom)]);
    assert_eq!(fp.final_graphics_value, 1);
    assert_eq!(
        record_present_only(),
        vec![
            RecordOp::SwapchainToColorAttachment,
            RecordOp::BeginRendering { clear: true },
            RecordOp::EndRendering,
            RecordOp::ColorAttachmentToPresent,
        ]
    );
}

#[test]
fn a_frame_without_graphics_or_presentation_ends_at_zero() {
    let mut e = executor(true);
    let mut g = FrameGraph::new();
    let buf = g.add_buffer(7, 0, 64);
    g.add_compute_pass(None).writes(buf, UsageIntent::compute_storage_write()).dispatch(2, 1, 1).submit();
    let fp = e.execute(g, None).ok().unwrap();
    assert!(fp.present_only.is_none());
    assert_eq!(fp.final_graphics_value, 0);
}

#[test]
fn descriptor_sets_get_ids_in_order() {
    let mut e = Executor::new();
    assert_eq!(e.register_descriptor_set(77), DescriptorSetId(0));
    assert_eq!(e.register_descriptor_set(78), DescriptorSetId(1));
    assert_eq!(e.descriptor_sets(), &vec![77, 78]);
    e.clear_descriptor_sets();
    assert!(e.descriptor_sets().is_empty());
    assert!(!e.has_compute() && !e.has_transfer());
}

#[test]
fn a_graphics_pass_records_its_commands_inside_rendering() {
    let mut pipelines = PipelineManager::new();
    let p = pipelines.push(PipelineSlot { handle: 70, layout: 80 });
    let q = pipelines.push(PipelineSlot { handle: 71, layout: 81 });
    assert_eq!((p, q), (PipelineId(0), PipelineId(1)));
    assert_eq!((pipelines.handle(q), pipelines.layout(q), pipelines.len()), (71, 81, 2));

    let mut e = executor(false);
    let set = e.register_descriptor_set(55);
    let mut g = FrameGraph::new();
    let vb = g.add_buffer(900, 16, 256);
    let range = PushConstantRange { stages: ShaderStages(1), offset: 0, size: 4 };
    g.add_graphics_pass(Some(p))
        .reads(vb, UsageIntent::vertex_buffer_read())
        .bind_vertex_buffer(vb, 8)
        .bind_descriptor_set(set)
        .push_constants(range, &[1, 2, 3, 4, 5])
        .bind_pipeline(q)
        .draw(3)
        .submit();
    let fp = e.execute(g, present()).ok().unwrap();
    let s = &fp.passes[0];
    let pass = &fp.compiled.passes[s.pass_index];
    let ops = record_pass(pass, &s.plan, Extent2D::new(640, 480), &fp.compiled.resources, e.descriptor_sets(), &pipelines);
    let layout0 = 80;
    assert_eq!(ops[0], RecordOp::SwapchainToColorAttachment);
    assert_eq!(ops[1], RecordOp::BeginRendering { clear: true });
    assert_eq!(ops[2], RecordOp::SetFullViewport);
    assert_eq!(ops[3], RecordOp::SetScissor { offset_x: 0, offset_y: 0, width: 640, height: 480 });
    assert!(matches!(ops[4], RecordOp::BindPipeline { pipeline: 70, .. }));
    assert_eq!(ops[5], RecordOp::BindVertexBuffer { buffer: 900, offset: 24 });
    assert!(matches!(ops[6], RecordOp::BindDescriptorSet { layout: 80, set: 55, .. }));
    assert!(matches!(ops[7], RecordOp::PushConstants { layout, range_size: 4, command: 2, .. } if layout == layout0));
    assert!(matches!(ops[8], RecordOp::BindPipeline { pipeline: 71, .. }));
    assert_eq!(ops[9], RecordOp::Draw { vertex_count: 3 });
    assert_eq!(ops[10], RecordOp::EndRendering);
    assert_eq!(ops[11], RecordOp::ColorAttachmentToPresent);
    assert_eq!(ops.len(), 12);
}

#[test]
fn compute_and_transfer_passes_record_barriers_around_their_commands() {
    let mut pipelines = PipelineManager::new();
    let p = pipelines.push(PipelineSlot { handle: 70, layout: 80 });
    let mut e = executor(true);
    e.attach_transfer(WorkLane::new(102, 1002, 2));
    let mut g = FrameGraph::new();
    let a = g.add_buffer(500, 0, 64);
    let b = g.add_buffer(600, 32, 64);
    g.add_transfer_pass()
        .reads(a, UsageIntent::transfer_read())
        .writes(b, UsageIntent::transfer_write())
        .copy_buffer(a, b, 16, 4)
        .submit();
    g.add_compute_pass(Some(p)).reads(b, UsageIntent::compute_storage_read()).dispatch(8, 4, 1).submit();
    let fp = e.execute(g, None).ok().unwrap();
    let t = &fp.passes[0];
    let ops = record_pass(
        &fp.compiled.passes[t.pass_index],
        &t.plan,
        Extent2D::new(1, 1),
        &fp.compiled.resources,
        e.descriptor_sets(),
        &pipelines,
    );
    assert_eq!(
        ops,
        vec![
            RecordOp::CopyBuffer { src: 500, dst: 600, src_offset: 0, dst_offset: 36, size: 16 },
            RecordOp::ReleaseBarriers,
        ]
    );
    let c = &fp.passes[1];
    assert_eq!(c.submission.waits.iter().map(sem).collect::<Vec<_>>(), vec![(102, 1, Stage::Compute)]);
    let ops = record_pass(
        &fp.compiled.passes[c.pass_index],
        &c.plan,
        Extent2D::new(1, 1),
        &fp.compiled.resources,
        e.descriptor_sets(),
        &pipelines,
    );
    assert_eq!(ops.len(), 3);
    assert_eq!(ops[0], RecordOp::AcquireBarriers);
    assert!(matches!(ops[1], RecordOp::BindPipeline { pipeline: 70, .. }));
    assert_eq!(ops[2], RecordOp::Dispatch { x: 8, y: 4, z: 1 });
}

#[test]
fn execution_needs_a_graphics_lane_only_to_draw_or_present() {
    let g = compute_then_draw();
    assert!(executor(true).can_execute(&g, &present()));
    let mut no_lanes = Executor::new();
    // Without a compute lane the graph is refused, so nothing is required.
    assert!(no_lanes.can_execute(&g, &present()));
    no_lanes.attach_compute(WorkLane::new(COMPUTE_SEM, 1001, 1));
    assert!(!no_lanes.can_execute(&g, &None));
    let mut compute_only = FrameGraph::new();
    let buf = compute_only.add_buffer(7, 0, 64);
    compute_only.add_compute_pass(None).writes(buf, UsageIntent::compute_storage_write()).dispatch(1, 1, 1).submit();
    assert!(no_lanes.can_execute(&compute_only, &None));
    assert!(!no_lanes.can_execute(&compute_only, &present()));
}

#[test]
fn a_lane_taken_out_for_direct_submits_keeps_counting() {
    let mut e = executor(true);
    let s = e.graphics_lane_mut().submit(&vec![]);
    assert_eq!(s.value, 1);
    assert_eq!(e.graphics_lane().last_signal_value(), 1);
    let s = e.compute_lane_mut().submit(&vec![]);
    assert_eq!(s.value, 1);
    assert_eq!(e.graphics_lane().last_signal_value(), 1);
    e.attach_transfer(WorkLane::new(102, 1002, 2));
    e.transfer_lane_mut().submit(&vec![]);
    e.transfer_lane_mut().submit(&vec![]);
    assert_eq!(e.transfer_lane().last_signal_value(), 2);
    assert_eq!(e.compute_lane().last_signal_value(), 1);
}
