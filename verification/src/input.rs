//! Keyboard input: the keys the renderer recognises, from evdev scancodes.
use vstd::prelude::*;

verus! {

/// A key on the keyboard.
#[derive(Debug, Clone, Copy, PartialEq, Eq, Hash, Structural)]
pub enum KeyCode {
    Escape,
    Backspace,
    Tab,
    Enter,
    Space,
    Insert,
    Delete,
    Home,
    End,
    PageUp,
    PageDown,
    Left,
    Right,
    Up,
    Down,
    A,
    B,
    C,
    D,
    E,
    F,
    G,
    H,
    I,
    J,
    K,
    L,
    M,
    N,
    O,
    P,
    Q,
    R,
    S,
    T,
    U,
    V,
    W,
    X,
    Y,
    Z,
    Key0,
    Key1,
    Key2,
    Key3,
    Key4,
    Key5,
    Key6,
    Key7,
    Key8,
    Key9,
    F1,
    F2,
    F3,
    F4,
    F5,
    F6,
    F7,
    F8,
    F9,
    F10,
    F11,
    F12,
    LShift,
    RShift,
    LCtrl,
    RCtrl,
    LAlt,
    RAlt,
    LSuper,
    RSuper,
    Unknown,
}

/// The key that an evdev scancode stands for; unlisted scancodes are `Unknown`.
pub open spec fn key_of(sc: u32) -> KeyCode {
    match sc {
        1 => KeyCode::Escape,
        14 => KeyCode::Backspace,
        15 => KeyCode::Tab,
        28 => KeyCode::Enter,
        57 => KeyCode::Space,
        82 => KeyCode::Insert,
        83 => KeyCode::Delete,
        71 => KeyCode::Home,
        79 => KeyCode::End,
        73 => KeyCode::PageUp,
        81 => KeyCode::PageDown,
        75 => KeyCode::Left,
        77 => KeyCode::Right,
        72 => KeyCode::Up,
        80 => KeyCode::Down,
        30 => KeyCode::A,
        48 => KeyCode::B,
        46 => KeyCode::C,
        32 => KeyCode::D,
        18 => KeyCode::E,
        33 => KeyCode::F,
        34 => KeyCode::G,
        35 => KeyCode::H,
        23 => KeyCode::I,
        36 => KeyCode::J,
        37 => KeyCode::K,
        38 => KeyCode::L,
        50 => KeyCode::M,
        49 => KeyCode::N,
        24 => KeyCode::O,
        25 => KeyCode::P,
        16 => KeyCode::Q,
        19 => KeyCode::R,
        31 => KeyCode::S,
        20 => KeyCode::T,
        22 => KeyCode::U,
        47 => KeyCode::V,
        17 => KeyCode::W,
        45 => KeyCode::X,
        21 => KeyCode::Y,
        44 => KeyCode::Z,
        11 => KeyCode::Key0,
        2 => KeyCode::Key1,
        3 => KeyCode::Key2,
        4 => KeyCode::Key3,
        5 => KeyCode::Key4,
        6 => KeyCode::Key5,
        7 => KeyCode::Key6,
        8 => KeyCode::Key7,
        9 => KeyCode::Key8,
        10 => KeyCode::Key9,
        59 => KeyCode::F1,
        60 => KeyCode::F2,
        61 => KeyCode::F3,
        62 => KeyCode::F4,
        63 => KeyCode::F5,
        64 => KeyCode::F6,
        65 => KeyCode::F7,
        66 => KeyCode::F8,
        67 => KeyCode::F9,
        68 => KeyCode::F10,
        87 => KeyCode::F11,
        88 => KeyCode::F12,
        42 => KeyCode::LShift,
        54 => KeyCode::RShift,
        29 => KeyCode::LCtrl,
        97 => KeyCode::RCtrl,
        56 => KeyCode::LAlt,
        100 => KeyCode::RAlt,
        125 => KeyCode::LSuper,
        126 => KeyCode::RSuper,
        _ => KeyCode::Unknown,
    }
}

/// Translates an evdev scancode into a key.
pub fn scancode_to_keycode(sc: u32) -> (k: KeyCode)
    ensures
        k == key_of(sc),
{
    match sc {
        1 => KeyCode::Escape,
        14 => KeyCode::Backspace,
        15 => KeyCode::Tab,
        28 => KeyCode::Enter,
        57 => KeyCode::Space,
        82 => KeyCode::Insert,
        83 => KeyCode::Delete,
        71 => KeyCode::Home,
        79 => KeyCode::End,
        73 => KeyCode::PageUp,
        81 => KeyCode::PageDown,
        75 => KeyCode::Left,
        77 => KeyCode::Right,
        72 => KeyCode::Up,
        80 => KeyCode::Down,
        30 => KeyCode::A,
        48 => KeyCode::B,
        46 => KeyCode::C,
        32 => KeyCode::D,
        18 => KeyCode::E,
        33 => KeyCode::F,
        34 => KeyCode::G,
        35 => KeyCode::H,
        23 => KeyCode::I,
        36 => KeyCode::J,
        37 => KeyCode::K,
        38 => KeyCode::L,
        50 => KeyCode::M,
        49 => KeyCode::N,
        24 => KeyCode::O,
        25 => KeyCode::P,
        16 => KeyCode::Q,
        19 => KeyCode::R,
        31 => KeyCode::S,
        20 => KeyCode::T,
        22 => KeyCode::U,
        47 => KeyCode::V,
        17 => KeyCode::W,
        45 => KeyCode::X,
        21 => KeyCode::Y,
        44 => KeyCode::Z,
        11 => KeyCode::Key0,
        2 => KeyCode::Key1,
        3 => KeyCode::Key2,
        4 => KeyCode::Key3,
        5 => KeyCode::Key4,
        6 => KeyCode::Key5,
        7 => KeyCode::Key6,
        8 => KeyCode::Key7,
        9 => KeyCode::Key8,
        10 => KeyCode::Key9,
        59 => KeyCode::F1,
        60 => KeyCode::F2,
        61 => KeyCode::F3,
        62 => KeyCode::F4,
        63 => KeyCode::F5,
        64 => KeyCode::F6,
        65 => KeyCode::F7,
        66 => KeyCode::F8,
        67 => KeyCode::F9,
        68 => KeyCode::F10,
        87 => KeyCode::F11,
        88 => KeyCode::F12,
        42 => KeyCode::LShift,
        54 => KeyCode::RShift,
        29 => KeyCode::LCtrl,
        97 => KeyCode::RCtrl,
        56 => KeyCode::LAlt,
        100 => KeyCode::RAlt,
        125 => KeyCode::LSuper,
        126 => KeyCode::RSuper,
        _ => KeyCode::Unknown,
    }
}


/// The evdev scancode of a known key; `Unknown` has none and gives 0.
pub open spec fn scancode_of(k: KeyCode) -> u32 {
    match k {
        KeyCode::Escape => 1,
        KeyCode::Backspace => 14,
        KeyCode::Tab => 15,
        KeyCode::Enter => 28,
        KeyCode::Space => 57,
        KeyCode::Insert => 82,
        KeyCode::Delete => 83,
        KeyCode::Home => 71,
        KeyCode::End => 79,
        KeyCode::PageUp => 73,
        KeyCode::PageDown => 81,
        KeyCode::Left => 75,
        KeyCode::Right => 77,
        KeyCode::Up => 72,
        KeyCode::Down => 80,
        KeyCode::A => 30,
        KeyCode::B => 48,
        KeyCode::C => 46,
        KeyCode::D => 32,
        KeyCode::E => 18,
        KeyCode::F => 33,
        KeyCode::G => 34,
        KeyCode::H => 35,
        KeyCode::I => 23,
        KeyCode::J => 36,
        KeyCode::K => 37,
        KeyCode::L => 38,
        KeyCode::M => 50,
        KeyCode::N => 49,
        KeyCode::O => 24,
        KeyCode::P => 25,
        KeyCode::Q => 16,
        KeyCode::R => 19,
        KeyCode::S => 31,
        KeyCode::T => 20,
        KeyCode::U => 22,
        KeyCode::V => 47,
        KeyCode::W => 17,
        KeyCode::X => 45,
        KeyCode::Y => 21,
        KeyCode::Z => 44,
        KeyCode::Key0 => 11,
        KeyCode::Key1 => 2,
        KeyCode::Key2 => 3,
        KeyCode::Key3 => 4,
        KeyCode::Key4 => 5,
        KeyCode::Key5 => 6,
        KeyCode::Key6 => 7,
        KeyCode::Key7 => 8,
        KeyCode::Key8 => 9,
        KeyCode::Key9 => 10,
        KeyCode::F1 => 59,
        KeyCode::F2 => 60,
        KeyCode::F3 => 61,
        KeyCode::F4 => 62,
        KeyCode::F5 => 63,
        KeyCode::F6 => 64,
        KeyCode::F7 => 65,
        KeyCode::F8 => 66,
        KeyCode::F9 => 67,
        KeyCode::F10 => 68,
        KeyCode::F11 => 87,
        KeyCode::F12 => 88,
        KeyCode::LShift => 42,
        KeyCode::RShift => 54,
        KeyCode::LCtrl => 29,
        KeyCode::RCtrl => 97,
        KeyCode::LAlt => 56,
        KeyCode::RAlt => 100,
        KeyCode::LSuper => 125,
        KeyCode::RSuper => 126,
        KeyCode::Unknown => 0,
    }
}

/// The scancode table is a one-to-one correspondence between the scancodes
/// it lists and the known keys: each known key comes from its own evdev
/// scancode, and a scancode that gives a known key is that key's scancode,
/// so no two scancodes give the same key.
pub proof fn lemma_scancodes_one_to_one()
    ensures
        forall|k: KeyCode| k != KeyCode::Unknown ==> #[trigger] key_of(scancode_of(k)) == k,
        forall|sc: u32| #[trigger] key_of(sc) != KeyCode::Unknown ==> scancode_of(key_of(sc)) == sc,
        forall|a: u32, b: u32|
            #[trigger] key_of(a) == #[trigger] key_of(b) && key_of(a) != KeyCode::Unknown ==> a == b,
{
    assert forall|k: KeyCode| k != KeyCode::Unknown implies #[trigger] key_of(scancode_of(k)) == k by {
        match k {
            _ => {},
        }
    }
    assert forall|sc: u32| #[trigger] key_of(sc) != KeyCode::Unknown implies scancode_of(key_of(sc)) == sc by {
    }
}

} // verus!
