use vstd::prelude::*;

use crate::keys::KeyCode;

verus! {

/// The key that a single-character name (a letter or a digit) denotes.
pub open spec fn spec_single_byte_key(b: u8) -> Option<KeyCode> {
    match b {
        97 => Some(KeyCode::A),
        98 => Some(KeyCode::B),
        99 => Some(KeyCode::C),
        100 => Some(KeyCode::D),
        101 => Some(KeyCode::E),
        102 => Some(KeyCode::F),
        103 => Some(KeyCode::G),
        104 => Some(KeyCode::H),
        105 => Some(KeyCode::I),
        106 => Some(KeyCode::J),
        107 => Some(KeyCode::K),
        108 => Some(KeyCode::L),
        109 => Some(KeyCode::M),
        110 => Some(KeyCode::N),
        111 => Some(KeyCode::O),
        112 => Some(KeyCode::P),
        113 => Some(KeyCode::Q),
        114 => Some(KeyCode::R),
        115 => Some(KeyCode::S),
        116 => Some(KeyCode::T),
        117 => Some(KeyCode::U),
        118 => Some(KeyCode::V),
        119 => Some(KeyCode::W),
        120 => Some(KeyCode::X),
        121 => Some(KeyCode::Y),
        122 => Some(KeyCode::Z),
        48 => Some(KeyCode::_0),
        49 => Some(KeyCode::_1),
        50 => Some(KeyCode::_2),
        51 => Some(KeyCode::_3),
        52 => Some(KeyCode::_4),
        53 => Some(KeyCode::_5),
        54 => Some(KeyCode::_6),
        55 => Some(KeyCode::_7),
        56 => Some(KeyCode::_8),
        57 => Some(KeyCode::_9),
        _ => None,
    }
}

fn single_byte_key(b: u8) -> (r: Option<KeyCode>)
    ensures
        r == spec_single_byte_key(b),
{
    match b {
        97 => Some(KeyCode::A),
        98 => Some(KeyCode::B),
        99 => Some(KeyCode::C),
        100 => Some(KeyCode::D),
        101 => Some(KeyCode::E),
        102 => Some(KeyCode::F),
        103 => Some(KeyCode::G),
        104 => Some(KeyCode::H),
        105 => Some(KeyCode::I),
        106 => Some(KeyCode::J),
        107 => Some(KeyCode::K),
        108 => Some(KeyCode::L),
        109 => Some(KeyCode::M),
        110 => Some(KeyCode::N),
        111 => Some(KeyCode::O),
        112 => Some(KeyCode::P),
        113 => Some(KeyCode::Q),
        114 => Some(KeyCode::R),
        115 => Some(KeyCode::S),
        116 => Some(KeyCode::T),
        117 => Some(KeyCode::U),
        118 => Some(KeyCode::V),
        119 => Some(KeyCode::W),
        120 => Some(KeyCode::X),
        121 => Some(KeyCode::Y),
        122 => Some(KeyCode::Z),
        48 => Some(KeyCode::_0),
        49 => Some(KeyCode::_1),
        50 => Some(KeyCode::_2),
        51 => Some(KeyCode::_3),
        52 => Some(KeyCode::_4),
        53 => Some(KeyCode::_5),
        54 => Some(KeyCode::_6),
        55 => Some(KeyCode::_7),
        56 => Some(KeyCode::_8),
        57 => Some(KeyCode::_9),
        _ => None,
    }
}

/// The function key with this number, for numbers 1 through 24.
pub open spec fn spec_fkey_of(n: int) -> Option<KeyCode> {
    if n == 1 {
        Some(KeyCode::F1)
    } else if n == 2 {
        Some(KeyCode::F2)
    } else if n == 3 {
        Some(KeyCode::F3)
    } else if n == 4 {
        Some(KeyCode::F4)
    } else if n == 5 {
        Some(KeyCode::F5)
    } else if n == 6 {
        Some(KeyCode::F6)
    } else if n == 7 {
        Some(KeyCode::F7)
    } else if n == 8 {
        Some(KeyCode::F8)
    } else if n == 9 {
        Some(KeyCode::F9)
    } else if n == 10 {
        Some(KeyCode::F10)
    } else if n == 11 {
        Some(KeyCode::F11)
    } else if n == 12 {
        Some(KeyCode::F12)
    } else if n == 13 {
        Some(KeyCode::F13)
    } else if n == 14 {
        Some(KeyCode::F14)
    } else if n == 15 {
        Some(KeyCode::F15)
    } else if n == 16 {
        Some(KeyCode::F16)
    } else if n == 17 {
        Some(KeyCode::F17)
    } else if n == 18 {
        Some(KeyCode::F18)
    } else if n == 19 {
        Some(KeyCode::F19)
    } else if n == 20 {
        Some(KeyCode::F20)
    } else if n == 21 {
        Some(KeyCode::F21)
    } else if n == 22 {
        Some(KeyCode::F22)
    } else if n == 23 {
        Some(KeyCode::F23)
    } else if n == 24 {
        Some(KeyCode::F24)
    } else {
        None
    }
}

fn fkey_of(n: u8) -> (r: Option<KeyCode>)
    ensures
        r == spec_fkey_of(n as int),
{
    if n == 1 {
        Some(KeyCode::F1)
    } else if n == 2 {
        Some(KeyCode::F2)
    } else if n == 3 {
        Some(KeyCode::F3)
    } else if n == 4 {
        Some(KeyCode::F4)
    } else if n == 5 {
        Some(KeyCode::F5)
    } else if n == 6 {
        Some(KeyCode::F6)
    } else if n == 7 {
        Some(KeyCode::F7)
    } else if n == 8 {
        Some(KeyCode::F8)
    } else if n == 9 {
        Some(KeyCode::F9)
    } else if n == 10 {
        Some(KeyCode::F10)
    } else if n == 11 {
        Some(KeyCode::F11)
    } else if n == 12 {
        Some(KeyCode::F12)
    } else if n == 13 {
        Some(KeyCode::F13)
    } else if n == 14 {
        Some(KeyCode::F14)
    } else if n == 15 {
        Some(KeyCode::F15)
    } else if n == 16 {
        Some(KeyCode::F16)
    } else if n == 17 {
        Some(KeyCode::F17)
    } else if n == 18 {
        Some(KeyCode::F18)
    } else if n == 19 {
        Some(KeyCode::F19)
    } else if n == 20 {
        Some(KeyCode::F20)
    } else if n == 21 {
        Some(KeyCode::F21)
    } else if n == 22 {
        Some(KeyCode::F22)
    } else if n == 23 {
        Some(KeyCode::F23)
    } else if n == 24 {
        Some(KeyCode::F24)
    } else {
        None
    }
}

pub open spec fn spec_is_digit(b: u8) -> bool {
    48 <= b <= 57
}

/// A function-key name: the letter f followed by a decimal number
/// 1 through 24 written without a leading zero.
pub open spec fn spec_fkey_name(t: Seq<u8>) -> Option<KeyCode> {
    if t.len() == 2 && t[0] == 102 && spec_is_digit(t[1]) && t[1] != 48 {
        spec_fkey_of(t[1] - 48)
    } else if t.len() == 3 && t[0] == 102 && spec_is_digit(t[1]) && t[1] != 48 && spec_is_digit(t[2]) {
        spec_fkey_of((t[1] - 48) * 10 + (t[2] - 48))
    } else {
        None
    }
}

/// The key that a multi-character name denotes.
pub open spec fn spec_named_key(t: Seq<u8>) -> Option<KeyCode> {
    if t.len() == 3 && t[0] == 101 && t[1] == 115 && t[2] == 99 {
        Some(KeyCode::Esc)
    } else if t.len() == 6 && t[0] == 101 && t[1] == 115 && t[2] == 99 && t[3] == 97 && t[4] == 112 && t[5] == 101 {
        Some(KeyCode::Esc)
    } else if t.len() == 8 && t[0] == 108 && t[1] == 101 && t[2] == 102 && t[3] == 116 && t[4] == 99 && t[5] == 116 && t[6] == 114 && t[7] == 108 {
        Some(KeyCode::LeftControl)
    } else if t.len() == 5 && t[0] == 108 && t[1] == 99 && t[2] == 116 && t[3] == 114 && t[4] == 108 {
        Some(KeyCode::LeftControl)
    } else if t.len() == 9 && t[0] == 114 && t[1] == 105 && t[2] == 103 && t[3] == 104 && t[4] == 116 && t[5] == 99 && t[6] == 116 && t[7] == 114 && t[8] == 108 {
        Some(KeyCode::RightControl)
    } else if t.len() == 5 && t[0] == 114 && t[1] == 99 && t[2] == 116 && t[3] == 114 && t[4] == 108 {
        Some(KeyCode::RightControl)
    } else if t.len() == 9 && t[0] == 108 && t[1] == 101 && t[2] == 102 && t[3] == 116 && t[4] == 115 && t[5] == 104 && t[6] == 105 && t[7] == 102 && t[8] == 116 {
        Some(KeyCode::LeftShift)
    } else if t.len() == 6 && t[0] == 108 && t[1] == 115 && t[2] == 104 && t[3] == 105 && t[4] == 102 && t[5] == 116 {
        Some(KeyCode::LeftShift)
    } else if t.len() == 10 && t[0] == 114 && t[1] == 105 && t[2] == 103 && t[3] == 104 && t[4] == 116 && t[5] == 115 && t[6] == 104 && t[7] == 105 && t[8] == 102 && t[9] == 116 {
        Some(KeyCode::RightShift)
    } else if t.len() == 6 && t[0] == 114 && t[1] == 115 && t[2] == 104 && t[3] == 105 && t[4] == 102 && t[5] == 116 {
        Some(KeyCode::RightShift)
    } else if t.len() == 7 && t[0] == 108 && t[1] == 101 && t[2] == 102 && t[3] == 116 && t[4] == 97 && t[5] == 108 && t[6] == 116 {
        Some(KeyCode::LeftAlt)
    } else if t.len() == 4 && t[0] == 108 && t[1] == 97 && t[2] == 108 && t[3] == 116 {
        Some(KeyCode::LeftAlt)
    } else if t.len() == 8 && t[0] == 114 && t[1] == 105 && t[2] == 103 && t[3] == 104 && t[4] == 116 && t[5] == 97 && t[6] == 108 && t[7] == 116 {
        Some(KeyCode::RightAlt)
    } else if t.len() == 4 && t[0] == 114 && t[1] == 97 && t[2] == 108 && t[3] == 116 {
        Some(KeyCode::RightAlt)
    } else if t.len() == 5 && t[0] == 115 && t[1] == 112 && t[2] == 97 && t[3] == 99 && t[4] == 101 {
        Some(KeyCode::Space)
    } else if t.len() == 3 && t[0] == 116 && t[1] == 97 && t[2] == 98 {
        Some(KeyCode::Tab)
    } else if t.len() == 5 && t[0] == 101 && t[1] == 110 && t[2] == 116 && t[3] == 101 && t[4] == 114 {
        Some(KeyCode::Enter)
    } else if t.len() == 6 && t[0] == 114 && t[1] == 101 && t[2] == 116 && t[3] == 117 && t[4] == 114 && t[5] == 110 {
        Some(KeyCode::Enter)
    } else if t.len() == 9 && t[0] == 98 && t[1] == 97 && t[2] == 99 && t[3] == 107 && t[4] == 115 && t[5] == 112 && t[6] == 97 && t[7] == 99 && t[8] == 101 {
        Some(KeyCode::BackSpace)
    } else if t.len() == 8 && t[0] == 99 && t[1] == 97 && t[2] == 112 && t[3] == 115 && t[4] == 108 && t[5] == 111 && t[6] == 99 && t[7] == 107 {
        Some(KeyCode::CapsLock)
    } else if t.len() == 6 && t[0] == 105 && t[1] == 110 && t[2] == 115 && t[3] == 101 && t[4] == 114 && t[5] == 116 {
        Some(KeyCode::Insert)
    } else if t.len() == 6 && t[0] == 100 && t[1] == 101 && t[2] == 108 && t[3] == 101 && t[4] == 116 && t[5] == 101 {
        Some(KeyCode::Delete)
    } else if t.len() == 4 && t[0] == 104 && t[1] == 111 && t[2] == 109 && t[3] == 101 {
        Some(KeyCode::Home)
    } else if t.len() == 3 && t[0] == 101 && t[1] == 110 && t[2] == 100 {
        Some(KeyCode::End)
    } else if t.len() == 6 && t[0] == 112 && t[1] == 97 && t[2] == 103 && t[3] == 101 && t[4] == 117 && t[5] == 112 {
        Some(KeyCode::PageUp)
    } else if t.len() == 8 && t[0] == 112 && t[1] == 97 && t[2] == 103 && t[3] == 101 && t[4] == 100 && t[5] == 111 && t[6] == 119 && t[7] == 110 {
        Some(KeyCode::PageDown)
    } else if t.len() == 2 && t[0] == 117 && t[1] == 112 {
        Some(KeyCode::Up)
    } else if t.len() == 4 && t[0] == 100 && t[1] == 111 && t[2] == 119 && t[3] == 110 {
        Some(KeyCode::Down)
    } else if t.len() == 4 && t[0] == 108 && t[1] == 101 && t[2] == 102 && t[3] == 116 {
        Some(KeyCode::Left)
    } else if t.len() == 5 && t[0] == 114 && t[1] == 105 && t[2] == 103 && t[3] == 104 && t[4] == 116 {
        Some(KeyCode::Right)
    } else if t.len() == 7 && t[0] == 110 && t[1] == 117 && t[2] == 109 && t[3] == 108 && t[4] == 111 && t[5] == 99 && t[6] == 107 {
        Some(KeyCode::NumLock)
    } else if t.len() == 10 && t[0] == 115 && t[1] == 99 && t[2] == 114 && t[3] == 111 && t[4] == 108 && t[5] == 108 && t[6] == 108 && t[7] == 111 && t[8] == 99 && t[9] == 107 {
        Some(KeyCode::ScrollLock)
    } else if t.len() == 8 && t[0] == 108 && t[1] == 101 && t[2] == 102 && t[3] == 116 && t[4] == 109 && t[5] == 101 && t[6] == 116 && t[7] == 97 {
        Some(KeyCode::LeftMeta)
    } else if t.len() == 5 && t[0] == 108 && t[1] == 109 && t[2] == 101 && t[3] == 116 && t[4] == 97 {
        Some(KeyCode::LeftMeta)
    } else if t.len() == 7 && t[0] == 108 && t[1] == 101 && t[2] == 102 && t[3] == 116 && t[4] == 119 && t[5] == 105 && t[6] == 110 {
        Some(KeyCode::LeftMeta)
    } else if t.len() == 4 && t[0] == 108 && t[1] == 119 && t[2] == 105 && t[3] == 110 {
        Some(KeyCode::LeftMeta)
    } else if t.len() == 9 && t[0] == 114 && t[1] == 105 && t[2] == 103 && t[3] == 104 && t[4] == 116 && t[5] == 109 && t[6] == 101 && t[7] == 116 && t[8] == 97 {
        Some(KeyCode::RightMeta)
    } else if t.len() == 5 && t[0] == 114 && t[1] == 109 && t[2] == 101 && t[3] == 116 && t[4] == 97 {
        Some(KeyCode::RightMeta)
    } else if t.len() == 8 && t[0] == 114 && t[1] == 105 && t[2] == 103 && t[3] == 104 && t[4] == 116 && t[5] == 119 && t[6] == 105 && t[7] == 110 {
        Some(KeyCode::RightMeta)
    } else if t.len() == 4 && t[0] == 114 && t[1] == 119 && t[2] == 105 && t[3] == 110 {
        Some(KeyCode::RightMeta)
    } else {
        None
    }
}

/// The key a (lower-case) name denotes: a single letter or digit, a
/// function key, or one of the named keys; None for anything else.
pub open spec fn spec_key_name(t: Seq<u8>) -> Option<KeyCode> {
    if t.len() == 1 {
        spec_single_byte_key(t[0])
    } else if t.len() >= 2 && t[0] == 102 {
        spec_fkey_name(t)
    } else {
        spec_named_key(t)
    }
}

pub fn key_name_bytes(t: &[u8]) -> (r: Option<KeyCode>)
    ensures
        r == spec_key_name(t@),
{
    let n = t.len();
    if n == 1 {
        return single_byte_key(t[0]);
    }
    if n >= 2 && t[0] == 102 {
        if n == 2 && t[1] >= 49 && t[1] <= 57 {
            return fkey_of(t[1] - 48);
        }
        if n == 3 && t[1] >= 49 && t[1] <= 57 && t[2] >= 48 && t[2] <= 57 {
            return fkey_of((t[1] - 48) * 10 + (t[2] - 48));
        }
        return None;
    }
    if t.len() == 3 && t[0] == 101 && t[1] == 115 && t[2] == 99 {
        return Some(KeyCode::Esc);
    }
    if t.len() == 6 && t[0] == 101 && t[1] == 115 && t[2] == 99 && t[3] == 97 && t[4] == 112 && t[5] == 101 {
        return Some(KeyCode::Esc);
    }
    if t.len() == 8 && t[0] == 108 && t[1] == 101 && t[2] == 102 && t[3] == 116 && t[4] == 99 && t[5] == 116 && t[6] == 114 && t[7] == 108 {
        return Some(KeyCode::LeftControl);
    }
    if t.len() == 5 && t[0] == 108 && t[1] == 99 && t[2] == 116 && t[3] == 114 && t[4] == 108 {
        return Some(KeyCode::LeftControl);
    }
    if t.len() == 9 && t[0] == 114 && t[1] == 105 && t[2] == 103 && t[3] == 104 && t[4] == 116 && t[5] == 99 && t[6] == 116 && t[7] == 114 && t[8] == 108 {
        return Some(KeyCode::RightControl);
    }
    if t.len() == 5 && t[0] == 114 && t[1] == 99 && t[2] == 116 && t[3] == 114 && t[4] == 108 {
        return Some(KeyCode::RightControl);
    }
    if t.len() == 9 && t[0] == 108 && t[1] == 101 && t[2] == 102 && t[3] == 116 && t[4] == 115 && t[5] == 104 && t[6] == 105 && t[7] == 102 && t[8] == 116 {
        return Some(KeyCode::LeftShift);
    }
    if t.len() == 6 && t[0] == 108 && t[1] == 115 && t[2] == 104 && t[3] == 105 && t[4] == 102 && t[5] == 116 {
        return Some(KeyCode::LeftShift);
    }
    if t.len() == 10 && t[0] == 114 && t[1] == 105 && t[2] == 103 && t[3] == 104 && t[4] == 116 && t[5] == 115 && t[6] == 104 && t[7] == 105 && t[8] == 102 && t[9] == 116 {
        return Some(KeyCode::RightShift);
    }
    if t.len() == 6 && t[0] == 114 && t[1] == 115 && t[2] == 104 && t[3] == 105 && t[4] == 102 && t[5] == 116 {
        return Some(KeyCode::RightShift);
    }
    if t.len() == 7 && t[0] == 108 && t[1] == 101 && t[2] == 102 && t[3] == 116 && t[4] == 97 && t[5] == 108 && t[6] == 116 {
        return Some(KeyCode::LeftAlt);
    }
    if t.len() == 4 && t[0] == 108 && t[1] == 97 && t[2] == 108 && t[3] == 116 {
        return Some(KeyCode::LeftAlt);
    }
    if t.len() == 8 && t[0] == 114 && t[1] == 105 && t[2] == 103 && t[3] == 104 && t[4] == 116 && t[5] == 97 && t[6] == 108 && t[7] == 116 {
        return Some(KeyCode::RightAlt);
    }
    if t.len() == 4 && t[0] == 114 && t[1] == 97 && t[2] == 108 && t[3] == 116 {
        return Some(KeyCode::RightAlt);
    }
    if t.len() == 5 && t[0] == 115 && t[1] == 112 && t[2] == 97 && t[3] == 99 && t[4] == 101 {
        return Some(KeyCode::Space);
    }
    if t.len() == 3 && t[0] == 116 && t[1] == 97 && t[2] == 98 {
        return Some(KeyCode::Tab);
    }
    if t.len() == 5 && t[0] == 101 && t[1] == 110 && t[2] == 116 && t[3] == 101 && t[4] == 114 {
        return Some(KeyCode::Enter);
    }
    if t.len() == 6 && t[0] == 114 && t[1] == 101 && t[2] == 116 && t[3] == 117 && t[4] == 114 && t[5] == 110 {
        return Some(KeyCode::Enter);
    }
    if t.len() == 9 && t[0] == 98 && t[1] == 97 && t[2] == 99 && t[3] == 107 && t[4] == 115 && t[5] == 112 && t[6] == 97 && t[7] == 99 && t[8] == 101 {
        return Some(KeyCode::BackSpace);
    }
    if t.len() == 8 && t[0] == 99 && t[1] == 97 && t[2] == 112 && t[3] == 115 && t[4] == 108 && t[5] == 111 && t[6] == 99 && t[7] == 107 {
        return Some(KeyCode::CapsLock);
    }
    if t.len() == 6 && t[0] == 105 && t[1] == 110 && t[2] == 115 && t[3] == 101 && t[4] == 114 && t[5] == 116 {
        return Some(KeyCode::Insert);
    }
    if t.len() == 6 && t[0] == 100 && t[1] == 101 && t[2] == 108 && t[3] == 101 && t[4] == 116 && t[5] == 101 {
        return Some(KeyCode::Delete);
    }
    if t.len() == 4 && t[0] == 104 && t[1] == 111 && t[2] == 109 && t[3] == 101 {
        return Some(KeyCode::Home);
    }
    if t.len() == 3 && t[0] == 101 && t[1] == 110 && t[2] == 100 {
        return Some(KeyCode::End);
    }
    if t.len() == 6 && t[0] == 112 && t[1] == 97 && t[2] == 103 && t[3] == 101 && t[4] == 117 && t[5] == 112 {
        return Some(KeyCode::PageUp);
    }
    if t.len() == 8 && t[0] == 112 && t[1] == 97 && t[2] == 103 && t[3] == 101 && t[4] == 100 && t[5] == 111 && t[6] == 119 && t[7] == 110 {
        return Some(KeyCode::PageDown);
    }
    if t.len() == 2 && t[0] == 117 && t[1] == 112 {
        return Some(KeyCode::Up);
    }
    if t.len() == 4 && t[0] == 100 && t[1] == 111 && t[2] == 119 && t[3] == 110 {
        return Some(KeyCode::Down);
    }
    if t.len() == 4 && t[0] == 108 && t[1] == 101 && t[2] == 102 && t[3] == 116 {
        return Some(KeyCode::Left);
    }
    if t.len() == 5 && t[0] == 114 && t[1] == 105 && t[2] == 103 && t[3] == 104 && t[4] == 116 {
        return Some(KeyCode::Right);
    }
    if t.len() == 7 && t[0] == 110 && t[1] == 117 && t[2] == 109 && t[3] == 108 && t[4] == 111 && t[5] == 99 && t[6] == 107 {
        return Some(KeyCode::NumLock);
    }
    if t.len() == 10 && t[0] == 115 && t[1] == 99 && t[2] == 114 && t[3] == 111 && t[4] == 108 && t[5] == 108 && t[6] == 108 && t[7] == 111 && t[8] == 99 && t[9] == 107 {
        return Some(KeyCode::ScrollLock);
    }
    if t.len() == 8 && t[0] == 108 && t[1] == 101 && t[2] == 102 && t[3] == 116 && t[4] == 109 && t[5] == 101 && t[6] == 116 && t[7] == 97 {
        return Some(KeyCode::LeftMeta);
    }
    if t.len() == 5 && t[0] == 108 && t[1] == 109 && t[2] == 101 && t[3] == 116 && t[4] == 97 {
        return Some(KeyCode::LeftMeta);
    }
    if t.len() == 7 && t[0] == 108 && t[1] == 101 && t[2] == 102 && t[3] == 116 && t[4] == 119 && t[5] == 105 && t[6] == 110 {
        return Some(KeyCode::LeftMeta);
    }
    if t.len() == 4 && t[0] == 108 && t[1] == 119 && t[2] == 105 && t[3] == 110 {
        return Some(KeyCode::LeftMeta);
    }
    if t.len() == 9 && t[0] == 114 && t[1] == 105 && t[2] == 103 && t[3] == 104 && t[4] == 116 && t[5] == 109 && t[6] == 101 && t[7] == 116 && t[8] == 97 {
        return Some(KeyCode::RightMeta);
    }
    if t.len() == 5 && t[0] == 114 && t[1] == 109 && t[2] == 101 && t[3] == 116 && t[4] == 97 {
        return Some(KeyCode::RightMeta);
    }
    if t.len() == 8 && t[0] == 114 && t[1] == 105 && t[2] == 103 && t[3] == 104 && t[4] == 116 && t[5] == 119 && t[6] == 105 && t[7] == 110 {
        return Some(KeyCode::RightMeta);
    }
    if t.len() == 4 && t[0] == 114 && t[1] == 119 && t[2] == 105 && t[3] == 110 {
        return Some(KeyCode::RightMeta);
    }
    None
}

} // verus!
