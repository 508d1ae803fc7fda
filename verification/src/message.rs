//! Input messages of the compositor, and the mapping from physical key
//! codes to printable characters.

use crate::hash::char_str;
use vstd::prelude::*;

verus! {

/// Unique identifier for a drawable layer.
pub type LayerId = u64;

#[derive(Debug, Clone, Copy, PartialEq, Eq, Structural)]
pub enum PointerKind {
    Move,
    Down,
    Up,
}

/// A keyboard event (simple char-based).
#[derive(Debug, Clone, Copy)]
pub struct KeyboardEvent {
    pub key: char,
    pub pressed: bool,
}

/// A key event with physical key code and optional text.
#[derive(Debug, Clone)]
pub struct KeyEvent {
    pub key_code: u32,
    pub pressed: bool,
    pub text: Option<String>,
}

/// Space for 0x2C, the letters a–z for 0x04–0x1D, the digits 0–9 for
/// 0x1E–0x27, nothing for other codes.
pub open spec fn spec_key_char(code: u32) -> Option<char> {
    if code == 0x2C {
        Some(' ')
    } else if 0x04 <= code <= 0x1D {
        Some(((code - 0x04) + 97) as char)
    } else if 0x1E <= code <= 0x27 {
        Some(((code - 0x1E) + 48) as char)
    } else {
        None
    }
}

/// Best-effort mapping from a physical key code to a printable character.
pub fn key_code_to_char(code: u32) -> (r: Option<char>)
    ensures
        r == spec_key_char(code),
{
    if code == 0x2C {
        Some(' ')
    } else if 0x04 <= code && code <= 0x1D {
        let b: u8 = (code - 0x04 + 97) as u8;
        Some(b as char)
    } else if 0x1E <= code && code <= 0x27 {
        let b: u8 = (code - 0x1E + 48) as u8;
        Some(b as char)
    } else {
        None
    }
}

/// A mouse button press or release: only the left button counts, as a
/// press (`Down`) or a release (`Up`).
pub fn pointer_kind(pressed: bool, left_button: bool) -> (r: Option<PointerKind>)
    ensures
        !left_button ==> r is None,
        left_button && pressed ==> r == Some(PointerKind::Down),
        left_button && !pressed ==> r == Some(PointerKind::Up),
{
    if !left_button {
        None
    } else if pressed {
        Some(PointerKind::Down)
    } else {
        Some(PointerKind::Up)
    }
}

/// The two messages a physical key gives: its character (NUL when it has
/// none) with its state, and its code with its state and the character as
/// text.
pub fn key_messages(code: u32, pressed: bool) -> (r: (KeyboardEvent, KeyEvent))
    ensures
        r.0.key == (match spec_key_char(code) {
            Some(c) => c,
            None => '\0',
        }),
        r.0.pressed == pressed,
        r.1.key_code == code,
        r.1.pressed == pressed,
        r.1.text matches Some(t) ==> (spec_key_char(code) matches Some(c) && t@ == seq![c]),
        r.1.text is None <==> spec_key_char(code) is None,
{
    let key_char = key_code_to_char(code);
    let key = match key_char {
        Some(c) => c,
        None => '\0',
    };
    let text = match key_char {
        Some(c) => Some(char_str(c)),
        None => None,
    };
    (KeyboardEvent { key, pressed }, KeyEvent { key_code: code, pressed, text })
}

} // verus!
