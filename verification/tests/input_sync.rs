use glex::frame_sync::{FrameSync, NULL_SEMAPHORE};
use glex::input::{scancode_to_keycode, KeyCode};

#[test]
fn scancodes_map_to_keys() {
    assert_eq!(scancode_to_keycode(1), KeyCode::Escape);
    assert_eq!(scancode_to_keycode(30), KeyCode::A);
    assert_eq!(scancode_to_keycode(17), KeyCode::W);
    assert_eq!(scancode_to_keycode(57), KeyCode::Space);
    assert_eq!(scancode_to_keycode(28), KeyCode::Enter);
    assert_eq!(scancode_to_keycode(103), KeyCode::Unknown);
    assert_eq!(scancode_to_keycode(0), KeyCode::Unknown);
    assert_eq!(scancode_to_keycode(u32::MAX), KeyCode::Unknown);
}

#[test]
fn frame_slots_cycle() {
    let mut fs: FrameSync<2> = FrameSync::new();
    assert_eq!((fs.frame(), fs.current_slot()), (0, 0));
    fs.end_frame();
    assert_eq!((fs.frame(), fs.current_slot()), (1, 1));
    fs.end_frame();
    assert_eq!((fs.frame(), fs.current_slot()), (2, 0));
    fs.end_frame();
    assert_eq!((fs.frame(), fs.current_slot()), (3, 1));
}

#[test]
fn slot_reuse_waits_for_its_last_signal() {
    let mut fs: FrameSync<2> = FrameSync::new();
    assert_eq!(fs.pending_wait(), None);
    assert!(fs.begin_frame(0));
    fs.record_signal(1);
    fs.end_frame();
    fs.record_signal(2);
    fs.end_frame();
    // Slot 0 again: its frame signalled 1.
    assert_eq!(fs.pending_wait(), Some(1));
    assert!(!fs.begin_frame(0));
    assert!(fs.begin_frame(1));
    assert!(fs.begin_frame(5));
}

#[test]
fn drain_waits_for_the_largest_signal() {
    let mut fs: FrameSync<3> = FrameSync::new();
    assert_eq!(fs.drain(), None);
    fs.record_signal(7);
    fs.end_frame();
    fs.record_signal(9);
    fs.end_frame();
    fs.record_signal(8);
    // No timeline yet.
    assert_eq!(fs.drain(), None);
    fs.set_graphics_timeline(42);
    assert_ne!(42, NULL_SEMAPHORE);
    assert_eq!(fs.drain(), Some((42, 9)));
}
