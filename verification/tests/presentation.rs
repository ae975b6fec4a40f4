use glex::device_select::{
    pick_physical_device, unique_queue_families, PresentMode, QueueDiscovery, DEVICE_TYPE_DISCRETE_GPU,
    DEVICE_TYPE_INTEGRATED_GPU,
};
use glex::presentation::{
    acquire_result, choose_present_mode, choose_surface_format, classify_acquire, present_mode_raw, resolve_extent,
    AcquireResult,
    select_composite_alpha, select_image_count, Presentation, ResizeStep, SurfaceCapabilities, SurfaceFormat,
    COMPOSITE_ALPHA_OPAQUE, COMPOSITE_ALPHA_POST_MULTIPLIED, COMPOSITE_ALPHA_PRE_MULTIPLIED, ERROR_OUT_OF_DATE,
    PRESENT_MODE_FIFO, PRESENT_MODE_IMMEDIATE, PRESENT_MODE_MAILBOX,
};

fn caps() -> SurfaceCapabilities {
    SurfaceCapabilities {
        current_extent: (u32::MAX, u32::MAX),
        min_image_extent: (16, 16),
        max_image_extent: (4096, 2048),
        min_image_count: 2,
        max_image_count: 0,
        supported_composite_alpha: COMPOSITE_ALPHA_OPAQUE | COMPOSITE_ALPHA_POST_MULTIPLIED,
    }
}

#[test]
fn present_mode_falls_back_to_mailbox_then_fifo() {
    assert_eq!(choose_present_mode(PRESENT_MODE_IMMEDIATE, &vec![PRESENT_MODE_IMMEDIATE, PRESENT_MODE_FIFO]), PRESENT_MODE_IMMEDIATE);
    assert_eq!(choose_present_mode(PRESENT_MODE_IMMEDIATE, &vec![PRESENT_MODE_MAILBOX, PRESENT_MODE_FIFO]), PRESENT_MODE_MAILBOX);
    assert_eq!(choose_present_mode(PRESENT_MODE_MAILBOX, &vec![PRESENT_MODE_FIFO]), PRESENT_MODE_FIFO);
    assert_eq!(present_mode_raw(PresentMode::Vsync), PRESENT_MODE_FIFO);
    assert_eq!(present_mode_raw(PresentMode::Mailbox), PRESENT_MODE_MAILBOX);
}

#[test]
fn composite_alpha_prefers_premultiplied() {
    let mut c = caps();
    assert_eq!(select_composite_alpha(&c), COMPOSITE_ALPHA_POST_MULTIPLIED);
    c.supported_composite_alpha |= COMPOSITE_ALPHA_PRE_MULTIPLIED;
    assert_eq!(select_composite_alpha(&c), COMPOSITE_ALPHA_PRE_MULTIPLIED);
    c.supported_composite_alpha = COMPOSITE_ALPHA_OPAQUE;
    assert_eq!(select_composite_alpha(&c), COMPOSITE_ALPHA_OPAQUE);
}

#[test]
fn extent_is_the_surface_s_or_the_window_s_clamped() {
    let mut c = caps();
    assert_eq!(resolve_extent(&c, 800, 600), (800, 600));
    assert_eq!(resolve_extent(&c, 8, 9000), (16, 2048));
    c.current_extent = (1024, 768);
    assert_eq!(resolve_extent(&c, 800, 600), (1024, 768));
}

#[test]
fn image_count_is_one_over_the_minimum_within_the_maximum() {
    let mut c = caps();
    assert_eq!(select_image_count(&c), 3);
    c.max_image_count = 2;
    assert_eq!(select_image_count(&c), 2);
    c.max_image_count = 8;
    assert_eq!(select_image_count(&c), 3);
}

#[test]
fn surface_format_prefers_bgra_srgb() {
    let other = SurfaceFormat { format: 44, color_space: 0 };
    let srgb = SurfaceFormat { format: 50, color_space: 0 };
    assert_eq!(choose_surface_format(&vec![other, srgb]), Some(srgb));
    assert_eq!(choose_surface_format(&vec![other, SurfaceFormat { format: 50, color_space: 7 }]), Some(other));
    assert_eq!(choose_surface_format(&vec![]), None);
}

#[test]
fn acquire_results_are_classified() {
    assert_eq!(classify_acquire(Ok((2, true))), Ok(Some((2, true))));
    assert_eq!(classify_acquire(Err(ERROR_OUT_OF_DATE)), Ok(None));
    assert_eq!(classify_acquire(Err(-4)), Err(-4));
}

#[test]
fn acquire_semaphores_are_used_in_turn() {
    let mut p: Presentation<u32, u32> = Presentation::new((800, 600), 3);
    let slots: Vec<usize> = (0..5).map(|_| p.next_acquire_slot()).collect();
    assert_eq!(slots, vec![0, 1, 2, 0, 1]);
}

#[test]
fn a_size_change_turns_the_frame_into_a_recreation() {
    let mut p: Presentation<u32, u32> = Presentation::new((800, 600), 2);
    assert_eq!(p.check_resize(false, (800, 600)), ResizeStep::Proceed);
    assert_eq!(p.check_resize(true, (800, 600)), ResizeStep::Recreate { rebuild_layout: true });
    assert!(!p.needs_recreate());
    assert_eq!(p.check_resize(false, (640, 480)), ResizeStep::Recreate { rebuild_layout: true });
    assert_eq!(p.take_pending_resize(), Some((640, 480)));
    assert!(!p.needs_recreate());
    p.recreated((640, 480), 11, 5, 21);
    assert_eq!(p.extent(), (640, 480));
    assert_eq!(p.check_resize(false, (640, 480)), ResizeStep::Proceed);
}

#[test]
fn acquire_and_present_problems_schedule_a_recreation() {
    let mut p: Presentation<u32, u32> = Presentation::new((800, 600), 2);
    assert!(p.on_acquire(Some(false), (800, 600)));
    assert!(!p.needs_recreate());
    assert!(p.on_acquire(Some(true), (810, 600)));
    assert_eq!(p.take_pending_resize(), Some((810, 600)));
    assert!(!p.on_acquire(None, (820, 600)));
    assert_eq!(p.take_pending_resize(), Some((820, 600)));
    p.on_present(false, (830, 600));
    assert!(!p.needs_recreate());
    p.on_present(true, (830, 600));
    assert_eq!(p.take_pending_resize(), Some((830, 600)));
}

#[test]
fn present_mode_change_recreates_at_the_current_size() {
    let mut p: Presentation<u32, u32> = Presentation::new((800, 600), 2);
    p.set_present_mode(PresentMode::Mailbox);
    assert_eq!(p.present_mode(), PresentMode::Mailbox);
    p.schedule_present_mode_change();
    assert_eq!(p.take_pending_resize(), Some((800, 600)));
    p.schedule_resize(100, 100);
    p.schedule_present_mode_change();
    assert_eq!(p.take_pending_resize(), Some((100, 100)));
}

#[test]
fn old_swapchains_go_once_the_timeline_passes_them() {
    let mut p: Presentation<u32, u32> = Presentation::new((800, 600), 2);
    p.recreated((700, 600), 1, 10, 101);
    p.recreated((600, 600), 2, 20, 102);
    p.recreated((500, 600), 3, 15, 103);
    assert!(p.gc_retired(9).is_empty());
    assert_eq!(p.gc_retired(15), vec![1, 3]);
    assert_eq!(p.gc_retired(100), vec![2]);
    assert!(p.gc_retired(u64::MAX).is_empty());
}

#[test]
fn old_semaphores_go_after_four_frames() {
    let mut p: Presentation<u32, u32> = Presentation::new((800, 600), 2);
    p.recreated((700, 600), 1, 10, 101);
    assert!(p.tick_condemned().is_empty());
    p.recreated((600, 600), 2, 20, 102);
    assert!(p.tick_condemned().is_empty());
    assert!(p.tick_condemned().is_empty());
    assert_eq!(p.tick_condemned(), vec![101]);
    assert_eq!(p.tick_condemned(), vec![102]);
    assert!(p.tick_condemned().is_empty());
}

#[test]
fn discrete_gpus_are_preferred_over_integrated_ones() {
    assert_eq!(pick_physical_device(&vec![4, DEVICE_TYPE_INTEGRATED_GPU, DEVICE_TYPE_DISCRETE_GPU]), Some(2));
    assert_eq!(pick_physical_device(&vec![4, DEVICE_TYPE_INTEGRATED_GPU, DEVICE_TYPE_INTEGRATED_GPU]), Some(1));
    assert_eq!(pick_physical_device(&vec![3, 4]), None);
}

#[test]
fn each_chosen_queue_family_gets_queues_once() {
    let d = QueueDiscovery { graphics: Some(0), compute: Some(1), transfer: vec![2, 1], present: Some(0) };
    let mut f = unique_queue_families(&d);
    f.sort();
    assert_eq!(f, vec![0, 1, 2]);
}

#[test]
fn an_acquired_image_comes_with_its_render_semaphore() {
    let render = vec![70, 71, 72];
    assert_eq!(
        acquire_result(Ok((1, false)), 9, &render),
        Ok(Some(AcquireResult { image_index: 1, acquire_semaphore: 9, render_semaphore: 71, suboptimal: false }))
    );
    assert_eq!(
        acquire_result(Ok((2, true)), 9, &render),
        Ok(Some(AcquireResult { image_index: 2, acquire_semaphore: 9, render_semaphore: 72, suboptimal: true }))
    );
    assert_eq!(acquire_result(Err(ERROR_OUT_OF_DATE), 9, &render), Ok(None));
    assert_eq!(acquire_result(Err(-4), 9, &render), Err(-4));
}
