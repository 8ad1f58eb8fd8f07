use vstd::prelude::*;

verus! {

/// A key on the keyboard, named as the configuration language names it.
/// This is the crate's own model of a key: the device layers translate
/// between these values and the codes the input and output devices use.
#[derive(Debug, Clone, Copy, PartialEq, Eq, Hash, Structural)]
pub enum KeyCode {
    A,
    B,
    C,
    D,
    E,
    F,
    G,
    H,
    I,
    J,
    K,
    L,
    M,
    N,
    O,
    P,
    Q,
    R,
    S,
    T,
    U,
    V,
    W,
    X,
    Y,
    Z,
    _0,
    _1,
    _2,
    _3,
    _4,
    _5,
    _6,
    _7,
    _8,
    _9,
    Esc,
    LeftControl,
    RightControl,
    LeftShift,
    RightShift,
    LeftAlt,
    RightAlt,
    Space,
    Tab,
    Enter,
    BackSpace,
    CapsLock,
    F1,
    F2,
    F3,
    F4,
    F5,
    F6,
    F7,
    F8,
    F9,
    F10,
    F11,
    F12,
    F13,
    F14,
    F15,
    F16,
    F17,
    F18,
    F19,
    F20,
    F21,
    F22,
    F23,
    F24,
    Insert,
    Delete,
    Home,
    End,
    PageUp,
    PageDown,
    Up,
    Down,
    Left,
    Right,
    NumLock,
    ScrollLock,
    LeftMeta,
    RightMeta,
}

impl KeyCode {
    /// A distinct numeric code for each key; the basis of the event hash.
    pub open spec fn spec_code(self) -> u16 {
        match self {
            KeyCode::A => 0,
            KeyCode::B => 1,
            KeyCode::C => 2,
            KeyCode::D => 3,
            KeyCode::E => 4,
            KeyCode::F => 5,
            KeyCode::G => 6,
            KeyCode::H => 7,
            KeyCode::I => 8,
            KeyCode::J => 9,
            KeyCode::K => 10,
            KeyCode::L => 11,
            KeyCode::M => 12,
            KeyCode::N => 13,
            KeyCode::O => 14,
            KeyCode::P => 15,
            KeyCode::Q => 16,
            KeyCode::R => 17,
            KeyCode::S => 18,
            KeyCode::T => 19,
            KeyCode::U => 20,
            KeyCode::V => 21,
            KeyCode::W => 22,
            KeyCode::X => 23,
            KeyCode::Y => 24,
            KeyCode::Z => 25,
            KeyCode::_0 => 26,
            KeyCode::_1 => 27,
            KeyCode::_2 => 28,
            KeyCode::_3 => 29,
            KeyCode::_4 => 30,
            KeyCode::_5 => 31,
            KeyCode::_6 => 32,
            KeyCode::_7 => 33,
            KeyCode::_8 => 34,
            KeyCode::_9 => 35,
            KeyCode::Esc => 36,
            KeyCode::LeftControl => 37,
            KeyCode::RightControl => 38,
            KeyCode::LeftShift => 39,
            KeyCode::RightShift => 40,
            KeyCode::LeftAlt => 41,
            KeyCode::RightAlt => 42,
            KeyCode::Space => 43,
            KeyCode::Tab => 44,
            KeyCode::Enter => 45,
            KeyCode::BackSpace => 46,
            KeyCode::CapsLock => 47,
            KeyCode::F1 => 48,
            KeyCode::F2 => 49,
            KeyCode::F3 => 50,
            KeyCode::F4 => 51,
            KeyCode::F5 => 52,
            KeyCode::F6 => 53,
            KeyCode::F7 => 54,
            KeyCode::F8 => 55,
            KeyCode::F9 => 56,
            KeyCode::F10 => 57,
            KeyCode::F11 => 58,
            KeyCode::F12 => 59,
            KeyCode::F13 => 60,
            KeyCode::F14 => 61,
            KeyCode::F15 => 62,
            KeyCode::F16 => 63,
            KeyCode::F17 => 64,
            KeyCode::F18 => 65,
            KeyCode::F19 => 66,
            KeyCode::F20 => 67,
            KeyCode::F21 => 68,
            KeyCode::F22 => 69,
            KeyCode::F23 => 70,
            KeyCode::F24 => 71,
            KeyCode::Insert => 72,
            KeyCode::Delete => 73,
            KeyCode::Home => 74,
            KeyCode::End => 75,
            KeyCode::PageUp => 76,
            KeyCode::PageDown => 77,
            KeyCode::Up => 78,
            KeyCode::Down => 79,
            KeyCode::Left => 80,
            KeyCode::Right => 81,
            KeyCode::NumLock => 82,
            KeyCode::ScrollLock => 83,
            KeyCode::LeftMeta => 84,
            KeyCode::RightMeta => 85,
        }
    }

    pub fn code(self) -> (c: u16)
        ensures
            c == self.spec_code(),
    {
        match self {
            KeyCode::A => 0,
            KeyCode::B => 1,
            KeyCode::C => 2,
            KeyCode::D => 3,
            KeyCode::E => 4,
            KeyCode::F => 5,
            KeyCode::G => 6,
            KeyCode::H => 7,
            KeyCode::I => 8,
            KeyCode::J => 9,
            KeyCode::K => 10,
            KeyCode::L => 11,
            KeyCode::M => 12,
            KeyCode::N => 13,
            KeyCode::O => 14,
            KeyCode::P => 15,
            KeyCode::Q => 16,
            KeyCode::R => 17,
            KeyCode::S => 18,
            KeyCode::T => 19,
            KeyCode::U => 20,
            KeyCode::V => 21,
            KeyCode::W => 22,
            KeyCode::X => 23,
            KeyCode::Y => 24,
            KeyCode::Z => 25,
            KeyCode::_0 => 26,
            KeyCode::_1 => 27,
            KeyCode::_2 => 28,
            KeyCode::_3 => 29,
            KeyCode::_4 => 30,
            KeyCode::_5 => 31,
            KeyCode::_6 => 32,
            KeyCode::_7 => 33,
            KeyCode::_8 => 34,
            KeyCode::_9 => 35,
            KeyCode::Esc => 36,
            KeyCode::LeftControl => 37,
            KeyCode::RightControl => 38,
            KeyCode::LeftShift => 39,
            KeyCode::RightShift => 40,
            KeyCode::LeftAlt => 41,
            KeyCode::RightAlt => 42,
            KeyCode::Space => 43,
            KeyCode::Tab => 44,
            KeyCode::Enter => 45,
            KeyCode::BackSpace => 46,
            KeyCode::CapsLock => 47,
            KeyCode::F1 => 48,
            KeyCode::F2 => 49,
            KeyCode::F3 => 50,
            KeyCode::F4 => 51,
            KeyCode::F5 => 52,
            KeyCode::F6 => 53,
            KeyCode::F7 => 54,
            KeyCode::F8 => 55,
            KeyCode::F9 => 56,
            KeyCode::F10 => 57,
            KeyCode::F11 => 58,
            KeyCode::F12 => 59,
            KeyCode::F13 => 60,
            KeyCode::F14 => 61,
            KeyCode::F15 => 62,
            KeyCode::F16 => 63,
            KeyCode::F17 => 64,
            KeyCode::F18 => 65,
            KeyCode::F19 => 66,
            KeyCode::F20 => 67,
            KeyCode::F21 => 68,
            KeyCode::F22 => 69,
            KeyCode::F23 => 70,
            KeyCode::F24 => 71,
            KeyCode::Insert => 72,
            KeyCode::Delete => 73,
            KeyCode::Home => 74,
            KeyCode::End => 75,
            KeyCode::PageUp => 76,
            KeyCode::PageDown => 77,
            KeyCode::Up => 78,
            KeyCode::Down => 79,
            KeyCode::Left => 80,
            KeyCode::Right => 81,
            KeyCode::NumLock => 82,
            KeyCode::ScrollLock => 83,
            KeyCode::LeftMeta => 84,
            KeyCode::RightMeta => 85,
        }
    }
}

} // verus!
