use glex::input::KeyCode;
use glex::window::{
    ButtonAction, ControlFlow, ElementState, KeyEvent, Modifiers, MouseButton, PointerZone, WindowAction, WindowEvent,
    WindowInput, WindowState,
};

const NONE: Modifiers = Modifiers { ctrl: false, alt: false, shift: false, logo: false };

fn window() -> WindowState {
    WindowState::new(800, 600, 120, 80)
}

fn emitted(e: WindowEvent) -> Vec<WindowAction> {
    vec![WindowAction::Emit(e)]
}

#[test]
fn close_requests_exit() {
    let mut w = window();
    let (flow, actions) = w.handle_event(WindowInput::Close);
    assert_eq!(flow, ControlFlow::Exit);
    assert_eq!(actions, emitted(WindowEvent::CloseRequested));
}

#[test]
fn resizes_are_clamped_and_deduplicated() {
    let mut w = window();
    let (_, a) = w.handle_event(WindowInput::Resize { width: 0, height: 500 });
    assert!(a.is_empty());
    let (_, a) = w.handle_event(WindowInput::Resize { width: 800, height: 600 });
    assert!(a.is_empty());
    let (flow, a) = w.handle_event(WindowInput::Resize { width: 50, height: 700 });
    assert_eq!(flow, ControlFlow::Continue);
    assert_eq!(a, emitted(WindowEvent::Resized { width: 120, height: 700 }));
    assert_eq!(w.extent(), (120, 700));
    let (_, a) = w.handle_event(WindowInput::Resize { width: 100, height: 700 });
    assert!(a.is_empty());
    w.sync_extent(640, 480);
    assert_eq!(w.extent(), (640, 480));
}

#[test]
fn configure_is_acknowledged_and_left_pending() {
    let mut w = window();
    let (_, a) = w.handle_event(WindowInput::Configure { serial: 9, maximized: true, fullscreen: false });
    assert_eq!(a, vec![WindowAction::AckConfigure(9)]);
    assert!(w.is_maximized() && !w.is_fullscreen());
    assert!(w.take_pending_configure());
    assert!(!w.take_pending_configure());
    w.set_pending_configure();
    assert!(w.take_pending_configure());
    assert_eq!((w.min_surface_width(), w.min_surface_height()), (120, 80));
}

#[test]
fn pointer_moves_reach_the_application_only_over_the_content() {
    let mut w = window();
    let (_, a) = w.handle_event(WindowInput::PointerEnter { zone: PointerZone::Client });
    assert_eq!(
        a,
        vec![
            WindowAction::Emit(WindowEvent::CursorEntered),
            WindowAction::UpdateHover,
            WindowAction::Emit(WindowEvent::CursorMoved { in_content: true }),
        ]
    );
    let (_, a) = w.handle_event(WindowInput::PointerMotion { zone: PointerZone::TitleBar });
    assert_eq!(a, vec![WindowAction::UpdateHover]);
    let (_, a) = w.handle_event(WindowInput::PointerLeave);
    assert_eq!(a, vec![WindowAction::ResetDecoration, WindowAction::Emit(WindowEvent::CursorLeft)]);
}

#[test]
fn in_fullscreen_the_decorations_are_bypassed() {
    let mut w = window();
    w.handle_event(WindowInput::Configure { serial: 1, maximized: false, fullscreen: true });
    let (_, a) = w.handle_event(WindowInput::PointerMotion { zone: PointerZone::TitleBar });
    assert_eq!(a, emitted(WindowEvent::CursorMoved { in_content: false }));
    let (_, a) = w.handle_event(WindowInput::PointerButton {
        button: 0x110,
        pressed: true,
        serial: 3,
        zone: PointerZone::TitleBar,
    });
    assert_eq!(a, emitted(WindowEvent::MouseInput { button: MouseButton::Left, state: ElementState::Pressed }));
}

#[test]
fn left_button_drives_the_decorations() {
    let mut w = window();
    let press = |w: &mut WindowState, zone| {
        w.handle_event(WindowInput::PointerButton { button: 0x110, pressed: true, serial: 4, zone }).1
    };
    assert_eq!(press(&mut w, PointerZone::TitleBar), vec![WindowAction::InteractiveMove(4)]);
    assert_eq!(press(&mut w, PointerZone::Resize(Some(8))), vec![WindowAction::InteractiveResize { serial: 4, edge: 8 }]);
    assert!(press(&mut w, PointerZone::Resize(None)).is_empty());
    assert_eq!(press(&mut w, PointerZone::DecorationButton), vec![WindowAction::PressDecoration]);
    assert_eq!(
        press(&mut w, PointerZone::Client),
        vec![
            WindowAction::Emit(WindowEvent::MouseInput { button: MouseButton::Left, state: ElementState::Pressed }),
            WindowAction::Emit(WindowEvent::CursorMoved { in_content: true }),
        ]
    );
    let (_, a) = w.handle_event(WindowInput::PointerButton {
        button: 0x110,
        pressed: false,
        serial: 5,
        zone: PointerZone::DecorationButton,
    });
    assert_eq!(a, vec![WindowAction::ReleaseDecoration]);
    let (flow, a) = w.handle_decoration_release(Some(ButtonAction::Close), PointerZone::DecorationButton);
    assert_eq!((flow, a), (ControlFlow::Exit, emitted(WindowEvent::CloseRequested)));
    let (_, a) = w.handle_decoration_release(Some(ButtonAction::Minimize), PointerZone::DecorationButton);
    assert_eq!(a, vec![WindowAction::Minimize]);
    let (_, a) = w.handle_decoration_release(Some(ButtonAction::Maximize), PointerZone::DecorationButton);
    assert_eq!(a, vec![WindowAction::ToggleMaximize]);
    let (flow, a) = w.handle_decoration_release(None, PointerZone::Client);
    assert_eq!(flow, ControlFlow::Continue);
    assert_eq!(a, emitted(WindowEvent::MouseInput { button: MouseButton::Left, state: ElementState::Released }));
    assert!(w.handle_decoration_release(None, PointerZone::TitleBar).1.is_empty());
}

#[test]
fn other_buttons_reach_only_the_content() {
    let mut w = window();
    let (_, a) = w.handle_event(WindowInput::PointerButton { button: 0x111, pressed: true, serial: 1, zone: PointerZone::Client });
    assert_eq!(a, emitted(WindowEvent::MouseInput { button: MouseButton::Right, state: ElementState::Pressed }));
    let (_, a) = w.handle_event(WindowInput::PointerButton { button: 0x113, pressed: false, serial: 1, zone: PointerZone::Client });
    assert_eq!(a, emitted(WindowEvent::MouseInput { button: MouseButton::Other(0x113), state: ElementState::Released }));
    let (_, a) = w.handle_event(WindowInput::PointerButton { button: 0x112, pressed: true, serial: 1, zone: PointerZone::TitleBar });
    assert!(a.is_empty());
}

#[test]
fn shortcut_keys_act_on_the_window() {
    let mut w = window();
    let ctrl = Modifiers { ctrl: true, ..NONE };
    let alt = Modifiers { alt: true, ..NONE };
    let (flow, a) = w.handle_event(WindowInput::Key { keycode: 1, pressed: true, modifiers: NONE });
    assert_eq!((flow, a), (ControlFlow::Exit, emitted(WindowEvent::CloseRequested)));
    let (flow, _) = w.handle_event(WindowInput::Key { keycode: 16, pressed: true, modifiers: ctrl });
    assert_eq!(flow, ControlFlow::Exit);
    let (_, a) = w.handle_event(WindowInput::Key { keycode: 87, pressed: true, modifiers: NONE });
    assert_eq!(a, vec![WindowAction::ToggleFullscreen]);
    let (_, a) = w.handle_event(WindowInput::Key { keycode: 28, pressed: true, modifiers: alt });
    assert_eq!(a, vec![WindowAction::ToggleMaximize]);
    let (flow, a) = w.handle_event(WindowInput::Key { keycode: 1, pressed: false, modifiers: NONE });
    assert_eq!(flow, ControlFlow::Continue);
    assert_eq!(
        a,
        emitted(WindowEvent::KeyboardInput(KeyEvent {
            key: KeyCode::Escape,
            state: ElementState::Released,
            repeat: false,
            modifiers: NONE,
        }))
    );
    let (_, a) = w.handle_event(WindowInput::Key { keycode: 16, pressed: true, modifiers: NONE });
    assert_eq!(
        a,
        emitted(WindowEvent::KeyboardInput(KeyEvent {
            key: KeyCode::Q,
            state: ElementState::Pressed,
            repeat: false,
            modifiers: NONE,
        }))
    );
}

#[test]
fn focus_and_scroll_reach_the_application() {
    let mut w = window();
    assert_eq!(w.handle_event(WindowInput::FocusGained).1, emitted(WindowEvent::Focused(true)));
    assert_eq!(w.handle_event(WindowInput::FocusLost).1, emitted(WindowEvent::Focused(false)));
    assert_eq!(w.handle_event(WindowInput::Scroll { axis: 0 }).1, emitted(WindowEvent::MouseWheel { vertical: true }));
    assert_eq!(w.handle_event(WindowInput::Scroll { axis: 1 }).1, emitted(WindowEvent::MouseWheel { vertical: false }));
}
