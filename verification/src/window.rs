//! Window events: what each event of the windowing system does to a
//! client-side-decorated window, which events reach the application, and
//! what the window asks of the compositor. The caller polls the events, hit
//! tests the pointer against the decorations, performs the actions and
//! turns pointer positions into coordinates.
use vstd::prelude::*;

use crate::input::{key_of, scancode_to_keycode, KeyCode};

verus! {

/// Whether the event loop goes on after the events of one pump.
#[derive(Debug, Clone, Copy, PartialEq, Eq, Structural)]
pub enum ControlFlow {
    Continue,
    Exit,
}

#[derive(Debug, Clone, Copy, PartialEq, Eq, Structural)]
pub enum MouseButton {
    Left,
    Right,
    Middle,
    Other(u16),
}

#[derive(Debug, Clone, Copy, PartialEq, Eq, Structural)]
pub enum ElementState {
    Pressed,
    Released,
}

#[derive(Debug, Clone, Copy, PartialEq, Eq, Structural)]
pub struct Modifiers {
    pub ctrl: bool,
    pub alt: bool,
    pub shift: bool,
    pub logo: bool,
}

#[derive(Debug, Clone, Copy, PartialEq, Eq, Structural)]
pub struct KeyEvent {
    pub key: KeyCode,
    pub state: ElementState,
    pub repeat: bool,
    pub modifiers: Modifiers,
}

/// Where the pointer is over the window, as the decoration hit test finds it.
#[derive(Debug, Clone, Copy, PartialEq, Eq, Structural)]
pub enum PointerZone {
    /// The application's content.
    Client,
    TitleBar,
    /// The close, maximize or minimize button.
    DecorationButton,
    /// A border that resizes the window, with the compositor's edge code
    /// when it has one.
    Resize(Option<u32>),
    /// Anywhere else on the decorations.
    Other,
}

/// What releasing the pointer over a pressed decoration button asks for.
#[derive(Debug, Clone, Copy, PartialEq, Eq, Structural)]
pub enum ButtonAction {
    Close,
    Minimize,
    Maximize,
}

/// An event of the windowing system, with the pointer's zone already found.
#[derive(Debug, Clone, Copy, PartialEq, Eq, Structural)]
pub enum WindowInput {
    Close,
    Resize { width: u32, height: u32 },
    /// The compositor configured the window, which is now maximized and
    /// fullscreen as given.
    Configure { serial: u32, maximized: bool, fullscreen: bool },
    PointerEnter { zone: PointerZone },
    PointerMotion { zone: PointerZone },
    PointerLeave,
    FocusGained,
    FocusLost,
    Scroll { axis: u32 },
    PointerButton { button: u32, pressed: bool, serial: u32, zone: PointerZone },
    Key { keycode: u32, pressed: bool, modifiers: Modifiers },
}

/// An event for the application.
#[derive(Debug, Clone, Copy, PartialEq, Eq, Structural)]
pub enum WindowEvent {
    CloseRequested,
    Resized { width: u32, height: u32 },
    CursorEntered,
    CursorLeft,
    /// The pointer moved: to its position in the content area, or, when
    /// `in_content` is false, in the whole surface.
    CursorMoved { in_content: bool },
    Focused(bool),
    MouseInput { button: MouseButton, state: ElementState },
    KeyboardInput(KeyEvent),
    /// The wheel scrolled by the event's value, vertically or horizontally.
    MouseWheel { vertical: bool },
}

/// What the window does in answer to an event, in order.
#[derive(Debug, Clone, Copy, PartialEq, Eq, Structural)]
pub enum WindowAction {
    Emit(WindowEvent),
    /// The decorations show the pointer's zone as hovered, and the cursor
    /// takes the zone's shape.
    UpdateHover,
    /// No decoration is hovered or pressed any more.
    ResetDecoration,
    /// The decoration button under the pointer is pressed.
    PressDecoration,
    /// The decoration button under the pointer is released; what that asks
    /// for goes to `handle_decoration_release`.
    ReleaseDecoration,
    AckConfigure(u32),
    InteractiveMove(u32),
    InteractiveResize { serial: u32, edge: u32 },
    Minimize,
    ToggleMaximize,
    ToggleFullscreen,
}

/// The state of a window that its events read and change.
pub struct WindowState {
    /// The last extent the application was told of.
    pub last_extent: (u32, u32),
    /// A configure arrived that the renderer has not acted on yet.
    pub pending_configure: bool,
    pub is_maximized: bool,
    pub is_fullscreen: bool,
    /// The smallest surface the decorations fit in.
    pub min_width: u32,
    pub min_height: u32,
}

pub open spec fn button_of(button: u32) -> MouseButton {
    if button == 0x110 {
        MouseButton::Left
    } else if button == 0x111 {
        MouseButton::Right
    } else if button == 0x112 {
        MouseButton::Middle
    } else {
        MouseButton::Other(button as u16)
    }
}

pub open spec fn state_of(pressed: bool) -> ElementState {
    if pressed {
        ElementState::Pressed
    } else {
        ElementState::Released
    }
}

pub open spec fn emit(e: WindowEvent) -> Seq<WindowAction> {
    seq![WindowAction::Emit(e)]
}

/// The pointer moved into `zone`: outside fullscreen the decorations follow
/// it, and only moves over the content reach the application.
pub open spec fn pointer_moved(fullscreen: bool, zone: PointerZone) -> Seq<WindowAction> {
    if fullscreen {
        emit(WindowEvent::CursorMoved { in_content: false })
    } else if zone == PointerZone::Client {
        seq![WindowAction::UpdateHover, WindowAction::Emit(WindowEvent::CursorMoved { in_content: true })]
    } else {
        seq![WindowAction::UpdateHover]
    }
}

/// A pointer button outside fullscreen: the left button drives the
/// decorations and the content; the others only reach the content.
pub open spec fn button_actions(button: u32, pressed: bool, serial: u32, zone: PointerZone) -> Seq<WindowAction> {
    if button == 0x110 {
        if pressed {
            match zone {
                PointerZone::TitleBar => seq![WindowAction::InteractiveMove(serial)],
                PointerZone::Resize(Some(edge)) => seq![WindowAction::InteractiveResize { serial, edge }],
                PointerZone::DecorationButton => seq![WindowAction::PressDecoration],
                PointerZone::Client => seq![
                    WindowAction::Emit(WindowEvent::MouseInput { button: MouseButton::Left, state: ElementState::Pressed }),
                    WindowAction::Emit(WindowEvent::CursorMoved { in_content: true }),
                ],
                _ => Seq::empty(),
            }
        } else {
            seq![WindowAction::ReleaseDecoration]
        }
    } else if zone == PointerZone::Client {
        emit(WindowEvent::MouseInput { button: button_of(button), state: state_of(pressed) })
    } else {
        Seq::empty()
    }
}

/// A key: Escape and Ctrl+Q close the window, F11 toggles fullscreen and
/// Alt+Enter toggles maximize when pressed; every other key reaches the
/// application.
pub open spec fn key_actions(keycode: u32, pressed: bool, m: Modifiers) -> (ControlFlow, Seq<WindowAction>) {
    let key = key_of(keycode);
    if pressed && (key == KeyCode::Escape || (key == KeyCode::Q && m.ctrl)) {
        (ControlFlow::Exit, emit(WindowEvent::CloseRequested))
    } else if pressed && key == KeyCode::F11 {
        (ControlFlow::Continue, seq![WindowAction::ToggleFullscreen])
    } else if pressed && key == KeyCode::Enter && m.alt {
        (ControlFlow::Continue, seq![WindowAction::ToggleMaximize])
    } else {
        (
            ControlFlow::Continue,
            emit(WindowEvent::KeyboardInput(KeyEvent { key, state: state_of(pressed), repeat: false, modifiers: m })),
        )
    }
}

/// A resize to `w` by `h`, kept at least the decorations' minimum: empty
/// sizes and the size already announced change nothing.
pub open spec fn resized_extent(s: WindowState, w: u32, h: u32) -> Option<(u32, u32)> {
    let w2 = if w >= s.min_width {
        w
    } else {
        s.min_width
    };
    let h2 = if h >= s.min_height {
        h
    } else {
        s.min_height
    };
    if w == 0 || h == 0 || (w2, h2) == s.last_extent {
        None
    } else {
        Some((w2, h2))
    }
}

pub open spec fn is_decoration_action(a: WindowAction) -> bool {
    match a {
        WindowAction::UpdateHover | WindowAction::PressDecoration | WindowAction::ReleaseDecoration
        | WindowAction::InteractiveMove(_) | WindowAction::InteractiveResize { .. } => true,
        _ => false,
    }
}

/// Some action hovers, presses or releases a decoration, or moves or
/// resizes the window interactively.
pub open spec fn decorations_involved(actions: Seq<WindowAction>) -> bool {
    exists|i: int| 0 <= i < actions.len() && is_decoration_action(#[trigger] actions[i])
}

/// What event `input` does to window state `s`: the new state, whether the
/// loop exits, and the actions, in order.
pub open spec fn event_outcome(s: WindowState, input: WindowInput) -> (WindowState, ControlFlow, Seq<WindowAction>) {
    match input {
        WindowInput::Close => (s, ControlFlow::Exit, emit(WindowEvent::CloseRequested)),
        WindowInput::Resize { width, height } => match resized_extent(s, width, height) {
            Some((w, h)) => (
                WindowState { last_extent: (w, h), ..s },
                ControlFlow::Continue,
                emit(WindowEvent::Resized { width: w, height: h }),
            ),
            None => (s, ControlFlow::Continue, Seq::empty()),
        },
        WindowInput::Configure { serial, maximized, fullscreen } => (
            WindowState { is_maximized: maximized, is_fullscreen: fullscreen, pending_configure: true, ..s },
            ControlFlow::Continue,
            seq![WindowAction::AckConfigure(serial)],
        ),
        WindowInput::PointerEnter { zone } => (
            s,
            ControlFlow::Continue,
            emit(WindowEvent::CursorEntered) + pointer_moved(s.is_fullscreen, zone),
        ),
        WindowInput::PointerMotion { zone } => (s, ControlFlow::Continue, pointer_moved(s.is_fullscreen, zone)),
        WindowInput::PointerLeave => (
            s,
            ControlFlow::Continue,
            seq![WindowAction::ResetDecoration, WindowAction::Emit(WindowEvent::CursorLeft)],
        ),
        WindowInput::FocusGained => (s, ControlFlow::Continue, emit(WindowEvent::Focused(true))),
        WindowInput::FocusLost => (s, ControlFlow::Continue, emit(WindowEvent::Focused(false))),
        WindowInput::Scroll { axis } => (s, ControlFlow::Continue, emit(WindowEvent::MouseWheel { vertical: axis == 0 })),
        WindowInput::PointerButton { button, pressed, serial, zone } => (
            s,
            ControlFlow::Continue,
            if s.is_fullscreen {
                emit(WindowEvent::MouseInput { button: button_of(button), state: state_of(pressed) })
            } else {
                button_actions(button, pressed, serial, zone)
            },
        ),
        WindowInput::Key { keycode, pressed, modifiers } => (
            s,
            key_actions(keycode, pressed, modifiers).0,
            key_actions(keycode, pressed, modifiers).1,
        ),
    }
}

/// What releasing a decoration button asks for, over zone `zone`.
pub open spec fn release_outcome(outcome: Option<ButtonAction>, zone: PointerZone) -> (ControlFlow, Seq<WindowAction>) {
    match outcome {
        Some(ButtonAction::Close) => (ControlFlow::Exit, emit(WindowEvent::CloseRequested)),
        Some(ButtonAction::Minimize) => (ControlFlow::Continue, seq![WindowAction::Minimize]),
        Some(ButtonAction::Maximize) => (ControlFlow::Continue, seq![WindowAction::ToggleMaximize]),
        None => (ControlFlow::Continue, if zone == PointerZone::Client {
            emit(WindowEvent::MouseInput { button: MouseButton::Left, state: ElementState::Released })
        } else {
            Seq::empty()
        }),
    }
}

/// The window closes exactly when the application is told that closing was
/// requested.
pub proof fn lemma_exit_iff_close_requested(s: WindowState, input: WindowInput)
    ensures
        event_outcome(s, input).1 == ControlFlow::Exit <==> event_outcome(s, input).2.contains(
            WindowAction::Emit(WindowEvent::CloseRequested),
        ),
{
    let a = event_outcome(s, input).2;
    let close = WindowAction::Emit(WindowEvent::CloseRequested);
    if event_outcome(s, input).1 == ControlFlow::Exit {
        assert(a[0] == close);
    } else {
        assert forall|i: int| 0 <= i < a.len() implies a[i] != close by {
            assert(i == 0 || i == 1 || i == 2);
        }
    }
}

/// A release closes the window exactly when it tells the application so.
pub proof fn lemma_release_exit_iff_close_requested(outcome: Option<ButtonAction>, zone: PointerZone)
    ensures
        release_outcome(outcome, zone).0 == ControlFlow::Exit <==> release_outcome(outcome, zone).1.contains(
            WindowAction::Emit(WindowEvent::CloseRequested),
        ),
{
    let a = release_outcome(outcome, zone).1;
    let close = WindowAction::Emit(WindowEvent::CloseRequested);
    if release_outcome(outcome, zone).0 == ControlFlow::Exit {
        assert(a[0] == close);
    } else {
        assert forall|i: int| 0 <= i < a.len() implies a[i] != close by {
            assert(i == 0);
        }
    }
}

/// A size the application is told of is never empty, never under the
/// decorations' minimum, and never the size it already knew; it becomes the
/// window's known extent.
pub proof fn lemma_resized_is_new_and_fits(s: WindowState, input: WindowInput, w: u32, h: u32)
    requires
        event_outcome(s, input).2.contains(WindowAction::Emit(WindowEvent::Resized { width: w, height: h })),
    ensures
        w > 0 && h > 0,
        w >= s.min_width && h >= s.min_height,
        (w, h) != s.last_extent,
        event_outcome(s, input).0.last_extent == (w, h),
{
    let a = event_outcome(s, input).2;
    let i = choose|i: int| 0 <= i < a.len() && a[i] == WindowAction::Emit(WindowEvent::Resized { width: w, height: h });
    assert(i == 0 || i == 1 || i == 2);
}

/// In fullscreen the decorations take no part: no hover, press or release
/// of a decoration, and no interactive move or resize.
pub proof fn lemma_fullscreen_skips_decorations(s: WindowState, input: WindowInput)
    requires
        s.is_fullscreen,
    ensures
        !decorations_involved(event_outcome(s, input).2),
{
    let a = event_outcome(s, input).2;
    assert forall|i: int| 0 <= i < a.len() implies !is_decoration_action(#[trigger] a[i]) by {
        assert(i == 0 || i == 1 || i == 2);
    }
}

impl WindowState {
    pub fn new(width: u32, height: u32, min_width: u32, min_height: u32) -> (s: Self)
        ensures
            s.last_extent == (width, height),
            !s.pending_configure,
            !s.is_maximized,
            !s.is_fullscreen,
            s.min_width == min_width,
            s.min_height == min_height,
    {
        WindowState {
            last_extent: (width, height),
            pending_configure: false,
            is_maximized: false,
            is_fullscreen: false,
            min_width,
            min_height,
        }
    }

    /// Whether a configure is pending; it no longer is afterwards.
    pub fn take_pending_configure(&mut self) -> (was: bool)
        ensures
            was == old(self).pending_configure,
            !final(self).pending_configure,
            final(self).last_extent == old(self).last_extent,
            final(self).is_maximized == old(self).is_maximized,
            final(self).is_fullscreen == old(self).is_fullscreen,
            final(self).min_width == old(self).min_width,
            final(self).min_height == old(self).min_height,
    {
        let was = self.pending_configure;
        self.pending_configure = false;
        was
    }

    pub fn set_pending_configure(&mut self)
        ensures
            *final(self) == (WindowState { pending_configure: true, ..*old(self) }),
    {
        self.pending_configure = true;
    }

    /// Takes `extent` as the size the application knows.
    pub fn sync_extent(&mut self, width: u32, height: u32)
        ensures
            *final(self) == (WindowState { last_extent: (width, height), ..*old(self) }),
    {
        self.last_extent = (width, height);
    }

    pub fn is_maximized(&self) -> (b: bool)
        ensures
            b == self.is_maximized,
    {
        self.is_maximized
    }

    pub fn is_fullscreen(&self) -> (b: bool)
        ensures
            b == self.is_fullscreen,
    {
        self.is_fullscreen
    }

    pub fn min_surface_width(&self) -> (w: u32)
        ensures
            w == self.min_width,
    {
        self.min_width
    }

    pub fn min_surface_height(&self) -> (h: u32)
        ensures
            h == self.min_height,
    {
        self.min_height
    }

    /// The extent the application was last told of.
    pub fn extent(&self) -> (e: (u32, u32))
        ensures
            e == self.last_extent,
    {
        self.last_extent
    }

    /// Handles one event: changes the state, and returns whether the loop
    /// must exit and what to do, in order.
    pub fn handle_event(&mut self, input: WindowInput) -> (r: (ControlFlow, Vec<WindowAction>))
        ensures
            (*final(self), r.0, r.1@) == event_outcome(*old(self), input),
            r.0 == ControlFlow::Exit <==> r.1@.contains(WindowAction::Emit(WindowEvent::CloseRequested)),
            forall|w: u32, h: u32|
                #![trigger r.1@.contains(WindowAction::Emit(WindowEvent::Resized { width: w, height: h }))]
                r.1@.contains(WindowAction::Emit(WindowEvent::Resized { width: w, height: h })) ==> w > 0 && h > 0
                    && w >= old(self).min_width && h >= old(self).min_height && (w, h) != old(self).last_extent
                    && final(self).last_extent == (w, h),
            old(self).is_fullscreen ==> !decorations_involved(r.1@),
    {
        let mut actions: Vec<WindowAction> = Vec::new();
        let mut flow = ControlFlow::Continue;
        match input {
            WindowInput::Close => {
                flow = ControlFlow::Exit;
                actions.push(WindowAction::Emit(WindowEvent::CloseRequested));
            },
            WindowInput::Resize { width, height } => {
                if width != 0 && height != 0 {
                    let w = if width >= self.min_width {
                        width
                    } else {
                        self.min_width
                    };
                    let h = if height >= self.min_height {
                        height
                    } else {
                        self.min_height
                    };
                    if w != self.last_extent.0 || h != self.last_extent.1 {
                        self.last_extent = (w, h);
                        actions.push(WindowAction::Emit(WindowEvent::Resized { width: w, height: h }));
                    }
                }
            },
            WindowInput::Configure { serial, maximized, fullscreen } => {
                self.is_maximized = maximized;
                self.is_fullscreen = fullscreen;
                actions.push(WindowAction::AckConfigure(serial));
                self.pending_configure = true;
            },
            WindowInput::PointerEnter { zone } => {
                actions.push(WindowAction::Emit(WindowEvent::CursorEntered));
                self.pointer_move(&mut actions, zone);
            },
            WindowInput::PointerMotion { zone } => {
                self.pointer_move(&mut actions, zone);
            },
            WindowInput::PointerLeave => {
                actions.push(WindowAction::ResetDecoration);
                actions.push(WindowAction::Emit(WindowEvent::CursorLeft));
            },
            WindowInput::FocusGained => {
                actions.push(WindowAction::Emit(WindowEvent::Focused(true)));
            },
            WindowInput::FocusLost => {
                actions.push(WindowAction::Emit(WindowEvent::Focused(false)));
            },
            WindowInput::Scroll { axis } => {
                actions.push(WindowAction::Emit(WindowEvent::MouseWheel { vertical: axis == 0 }));
            },
            WindowInput::PointerButton { button, pressed, serial, zone } => {
                if self.is_fullscreen {
                    actions.push(
                        WindowAction::Emit(WindowEvent::MouseInput { button: map_button(button), state: element_state(pressed) }),
                    );
                } else {
                    pointer_button(&mut actions, button, pressed, serial, zone);
                }
            },
            WindowInput::Key { keycode, pressed, modifiers } => {
                flow = key_input(&mut actions, keycode, pressed, modifiers);
            },
        }
        proof {
            match input {
                WindowInput::Close => {
                    assert(actions@ =~= emit(WindowEvent::CloseRequested));
                },
                WindowInput::Resize { width, height } => {
                    if resized_extent(*old(self), width, height) is Some {
                        assert(actions@ =~= emit(WindowEvent::Resized { width: self.last_extent.0, height: self.last_extent.1 }));
                    }
                },
                WindowInput::Configure { serial, .. } => {
                    assert(actions@ =~= seq![WindowAction::AckConfigure(serial)]);
                },
                WindowInput::PointerLeave => {
                    assert(actions@ =~= seq![
                        WindowAction::ResetDecoration,
                        WindowAction::Emit(WindowEvent::CursorLeft),
                    ]);
                },
                WindowInput::FocusGained => {
                    assert(actions@ =~= emit(WindowEvent::Focused(true)));
                },
                WindowInput::FocusLost => {
                    assert(actions@ =~= emit(WindowEvent::Focused(false)));
                },
                WindowInput::Scroll { axis } => {
                    assert(actions@ =~= emit(WindowEvent::MouseWheel { vertical: axis == 0 }));
                },
                WindowInput::PointerButton { button, pressed, .. } => {
                    if old(self).is_fullscreen {
                        assert(actions@ =~= emit(
                            WindowEvent::MouseInput { button: button_of(button), state: state_of(pressed) },
                        ));
                    }
                },
                _ => {},
            }
            lemma_exit_iff_close_requested(*old(self), input);
            assert forall|w: u32, h: u32|
                #![trigger actions@.contains(WindowAction::Emit(WindowEvent::Resized { width: w, height: h }))]
                actions@.contains(WindowAction::Emit(WindowEvent::Resized { width: w, height: h })) implies w > 0 && h > 0
                    && w >= old(self).min_width && h >= old(self).min_height && (w, h) != old(self).last_extent
                    && self.last_extent == (w, h) by {
                lemma_resized_is_new_and_fits(*old(self), input, w, h);
            }
            if old(self).is_fullscreen {
                lemma_fullscreen_skips_decorations(*old(self), input);
            }
        }
        (flow, actions)
    }

    fn pointer_move(&self, actions: &mut Vec<WindowAction>, zone: PointerZone)
        ensures
            final(actions)@ == old(actions)@ + pointer_moved(self.is_fullscreen, zone),
    {
        if self.is_fullscreen {
            actions.push(WindowAction::Emit(WindowEvent::CursorMoved { in_content: false }));
        } else {
            actions.push(WindowAction::UpdateHover);
            if zone == PointerZone::Client {
                actions.push(WindowAction::Emit(WindowEvent::CursorMoved { in_content: true }));
            }
        }
        proof {
            assert(final(actions)@ =~= old(actions)@ + pointer_moved(self.is_fullscreen, zone));
        }
    }

    /// What releasing a decoration button asked for, given the pointer's
    /// zone: the window closes, minimizes or toggles maximize; without a
    /// button action, a release over the content reaches the application.
    pub fn handle_decoration_release(&self, outcome: Option<ButtonAction>, zone: PointerZone) -> (r: (
        ControlFlow,
        Vec<WindowAction>,
    ))
        ensures
            (r.0, r.1@) == release_outcome(outcome, zone),
            r.0 == ControlFlow::Exit <==> r.1@.contains(WindowAction::Emit(WindowEvent::CloseRequested)),
    {
        let mut actions: Vec<WindowAction> = Vec::new();
        let mut flow = ControlFlow::Continue;
        match outcome {
            Some(ButtonAction::Close) => {
                flow = ControlFlow::Exit;
                actions.push(WindowAction::Emit(WindowEvent::CloseRequested));
            },
            Some(ButtonAction::Minimize) => {
                actions.push(WindowAction::Minimize);
            },
            Some(ButtonAction::Maximize) => {
                actions.push(WindowAction::ToggleMaximize);
            },
            None => {
                if zone == PointerZone::Client {
                    actions.push(
                        WindowAction::Emit(WindowEvent::MouseInput { button: MouseButton::Left, state: ElementState::Released }),
                    );
                }
            },
        }
        proof {
            match outcome {
                Some(ButtonAction::Close) => {
                    assert(actions@ =~= emit(WindowEvent::CloseRequested));
                },
                Some(ButtonAction::Minimize) => {
                    assert(actions@ =~= seq![WindowAction::Minimize]);
                },
                Some(ButtonAction::Maximize) => {
                    assert(actions@ =~= seq![WindowAction::ToggleMaximize]);
                },
                None => {
                    if zone == PointerZone::Client {
                        assert(actions@ =~= emit(
                            WindowEvent::MouseInput { button: MouseButton::Left, state: ElementState::Released },
                        ));
                    } else {
                        assert(actions@ =~= Seq::<WindowAction>::empty());
                    }
                },
            }
            lemma_release_exit_iff_close_requested(outcome, zone);
        }
        (flow, actions)
    }
}

fn map_button(button: u32) -> (b: MouseButton)
    ensures
        b == button_of(button),
{
    if button == 0x110 {
        MouseButton::Left
    } else if button == 0x111 {
        MouseButton::Right
    } else if button == 0x112 {
        MouseButton::Middle
    } else {
        MouseButton::Other(button as u16)
    }
}

fn element_state(pressed: bool) -> (s: ElementState)
    ensures
        s == state_of(pressed),
{
    if pressed {
        ElementState::Pressed
    } else {
        ElementState::Released
    }
}

fn pointer_button(actions: &mut Vec<WindowAction>, button: u32, pressed: bool, serial: u32, zone: PointerZone)
    requires
        old(actions)@.len() == 0,
    ensures
        final(actions)@ == button_actions(button, pressed, serial, zone),
{
    if button == 0x110 {
        if pressed {
            match zone {
                PointerZone::TitleBar => {
                    actions.push(WindowAction::InteractiveMove(serial));
                },
                PointerZone::Resize(Some(edge)) => {
                    actions.push(WindowAction::InteractiveResize { serial, edge });
                },
                PointerZone::DecorationButton => {
                    actions.push(WindowAction::PressDecoration);
                },
                PointerZone::Client => {
                    actions.push(
                        WindowAction::Emit(WindowEvent::MouseInput { button: MouseButton::Left, state: ElementState::Pressed }),
                    );
                    actions.push(WindowAction::Emit(WindowEvent::CursorMoved { in_content: true }));
                },
                _ => {},
            }
        } else {
            actions.push(WindowAction::ReleaseDecoration);
        }
    } else if zone == PointerZone::Client {
        actions.push(WindowAction::Emit(WindowEvent::MouseInput { button: map_button(button), state: element_state(pressed) }));
    }
    proof {
        assert(final(actions)@ =~= button_actions(button, pressed, serial, zone));
    }
}

fn key_input(actions: &mut Vec<WindowAction>, keycode: u32, pressed: bool, m: Modifiers) -> (flow: ControlFlow)
    requires
        old(actions)@.len() == 0,
    ensures
        (flow, final(actions)@) == key_actions(keycode, pressed, m),
{
    let key = scancode_to_keycode(keycode);
    let state = element_state(pressed);
    let mut flow = ControlFlow::Continue;
    if pressed && (key == KeyCode::Escape || (key == KeyCode::Q && m.ctrl)) {
        flow = ControlFlow::Exit;
        actions.push(WindowAction::Emit(WindowEvent::CloseRequested));
    } else if pressed && key == KeyCode::F11 {
        actions.push(WindowAction::ToggleFullscreen);
    } else if pressed && key == KeyCode::Enter && m.alt {
        actions.push(WindowAction::ToggleMaximize);
    } else {
        actions.push(
            WindowAction::Emit(WindowEvent::KeyboardInput(KeyEvent { key, state, repeat: false, modifiers: m })),
        );
    }
    proof {
        assert((flow, final(actions)@) =~= key_actions(keycode, pressed, m));
    }
    flow
}


/// The evdev button codes name the buttons: `BTN_LEFT` (0x110) is the left
/// button, `BTN_RIGHT` (0x111) the right one and `BTN_MIDDLE` (0x112) the
/// middle one, each for that code alone; every other code is passed on as
/// `Other` with that code.
pub proof fn lemma_button_codes(code: u32)
    ensures
        (button_of(code) == MouseButton::Left) <==> code == 0x110,
        (button_of(code) == MouseButton::Right) <==> code == 0x111,
        (button_of(code) == MouseButton::Middle) <==> code == 0x112,
        (button_of(code) is Other) <==> (code != 0x110 && code != 0x111 && code != 0x112),
        button_of(code) matches MouseButton::Other(c) ==> c == code as u16,
{
}

} // verus!
