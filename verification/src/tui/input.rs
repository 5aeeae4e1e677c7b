//! Keys as a terminal sends them.
//!
//! Most keys are one byte. An escape byte may begin a longer sequence; where it
//! breaks off, or is none that is known, it counts as the escape key.

use vstd::prelude::*;

verus! {

/// A key, or what the mouse did.
#[derive(Debug, Clone, Copy, PartialEq, Eq, Structural)]
pub enum Key {
    Char(char),
    Enter,
    Escape,
    Backspace,
    Tab,
    Up,
    Down,
    Left,
    Right,
    PageUp,
    PageDown,
    Home,
    End,
    Delete,
    Ctrl(char),
    AltEnter,
    MouseClick { row: u16, col: u16 },
    ScrollUp,
    ScrollDown,
}

/// Where the reading of a sequence stands: after the escape byte, after the
/// bracket, in a number, behind a number's semicolon, or in a report of the mouse,
/// of whose three numbers `index` have been ended.
#[derive(Debug, Clone, Copy, PartialEq, Eq, Structural)]
pub enum KeyState {
    Escape,
    Bracket,
    Number { value: u16 },
    Modifiers,
    Mouse { button: u16, col: u16, row: u16, index: u8 },
    MouseRest,
}

/// What the bytes so far make: a key, or a sequence that goes on.
#[derive(Debug, Clone, Copy, PartialEq, Eq, Structural)]
pub enum KeyStep {
    Key(Key),
    More(KeyState),
}

/// A number with one more digit, which stays at the highest number once it
/// reaches it.
pub open spec fn with_digit(n: u16, digit: u8) -> u16 {
    let m = if n * 10 > u16::MAX {
        u16::MAX as int
    } else {
        n * 10
    };
    if m + (digit - 48) > u16::MAX {
        u16::MAX
    } else {
        (m + (digit - 48)) as u16
    }
}

fn add_digit(n: u16, digit: u8) -> (r: u16)
    requires
        48 <= digit <= 57,
    ensures
        r == with_digit(n, digit),
{
    let m: u32 = if n as u32 * 10 > 65535 {
        65535
    } else {
        n as u32 * 10
    };
    let s: u32 = m + (digit - 48) as u32;
    if s > 65535 {
        65535
    } else {
        s as u16
    }
}

/// What the first byte makes.
pub open spec fn first_byte(b: u8) -> KeyStep {
    if b == 13 {
        KeyStep::Key(Key::Enter)
    } else if b == 27 {
        KeyStep::More(KeyState::Escape)
    } else if b == 127 {
        KeyStep::Key(Key::Backspace)
    } else if b == 9 {
        KeyStep::Key(Key::Tab)
    } else if 1 <= b <= 26 {
        KeyStep::Key(Key::Ctrl((97 + b - 1) as u8 as char))
    } else if 32 <= b < 127 {
        KeyStep::Key(Key::Char(b as char))
    } else {
        KeyStep::Key(Key::Char('?'))
    }
}

/// What the first byte makes.
pub fn parse_byte(b: u8) -> (r: KeyStep)
    ensures
        r == first_byte(b),
{
    if b == 13 {
        KeyStep::Key(Key::Enter)
    } else if b == 27 {
        KeyStep::More(KeyState::Escape)
    } else if b == 127 {
        KeyStep::Key(Key::Backspace)
    } else if b == 9 {
        KeyStep::Key(Key::Tab)
    } else if 1 <= b && b <= 26 {
        KeyStep::Key(Key::Ctrl((97 + b - 1) as char))
    } else if 32 <= b && b < 127 {
        KeyStep::Key(Key::Char(b as char))
    } else {
        KeyStep::Key(Key::Char('?'))
    }
}

/// The key of a number that a tilde ends.
pub open spec fn numbered_key(n: u16) -> Key {
    if n == 3 {
        Key::Delete
    } else if n == 5 {
        Key::PageUp
    } else if n == 6 {
        Key::PageDown
    } else {
        Key::Escape
    }
}

/// What the mouse did.
pub open spec fn mouse_key(button: u16, col: u16, row: u16) -> Key {
    if button == 0 {
        Key::MouseClick { row, col }
    } else if button == 64 {
        Key::ScrollUp
    } else if button == 65 {
        Key::ScrollDown
    } else {
        Key::Escape
    }
}

/// What one more byte makes of a sequence. If no byte comes, the sequence has
/// broken off.
pub open spec fn next_byte(s: KeyState, byte: Option<u8>) -> KeyStep {
    match byte {
        None => KeyStep::Key(Key::Escape),
        Some(b) => match s {
            KeyState::Escape => if b == 13 {
                KeyStep::Key(Key::AltEnter)
            } else if b == 91 {
                KeyStep::More(KeyState::Bracket)
            } else {
                KeyStep::Key(Key::Escape)
            },
            KeyState::Bracket => if b == 65 {
                KeyStep::Key(Key::Up)
            } else if b == 66 {
                KeyStep::Key(Key::Down)
            } else if b == 67 {
                KeyStep::Key(Key::Right)
            } else if b == 68 {
                KeyStep::Key(Key::Left)
            } else if b == 72 {
                KeyStep::Key(Key::Home)
            } else if b == 70 {
                KeyStep::Key(Key::End)
            } else if 48 <= b <= 57 {
                KeyStep::More(KeyState::Number { value: (b - 48) as u16 })
            } else if b == 60 {
                KeyStep::More(KeyState::Mouse { button: 0, col: 0, row: 0, index: 0 })
            } else {
                KeyStep::Key(Key::Escape)
            },
            KeyState::Number { value } => if 48 <= b <= 57 {
                KeyStep::More(KeyState::Number { value: with_digit(value, b) })
            } else if b == 126 {
                KeyStep::Key(numbered_key(value))
            } else if b == 59 {
                KeyStep::More(KeyState::Modifiers)
            } else {
                KeyStep::Key(Key::Escape)
            },
            KeyState::Modifiers => if 48 <= b <= 57 {
                KeyStep::More(KeyState::Modifiers)
            } else {
                KeyStep::Key(Key::Escape)
            },
            KeyState::Mouse { button, col, row, index } => if 48 <= b <= 57 {
                KeyStep::More(
                    if index == 0 {
                        KeyState::Mouse { button: with_digit(button, b), col, row, index }
                    } else if index == 1 {
                        KeyState::Mouse { button, col: with_digit(col, b), row, index }
                    } else {
                        KeyState::Mouse { button, col, row: with_digit(row, b), index }
                    },
                )
            } else if b == 59 {
                KeyStep::More(
                    if index >= 2 {
                        KeyState::MouseRest
                    } else {
                        KeyState::Mouse { button, col, row, index: (index + 1) as u8 }
                    },
                )
            } else if b == 77 && index == 2 {
                KeyStep::Key(mouse_key(button, col, row))
            } else {
                KeyStep::Key(Key::Escape)
            },
            KeyState::MouseRest => if b == 77 || b == 109 {
                KeyStep::Key(Key::Escape)
            } else {
                KeyStep::More(KeyState::MouseRest)
            },
        },
    }
}

/// What one more byte makes of a sequence. If no byte comes, the sequence has
/// broken off.
pub fn parse_escape(s: KeyState, byte: Option<u8>) -> (r: KeyStep)
    ensures
        r == next_byte(s, byte),
{
    let b: u8 = match byte {
        Some(b) => b,
        None => {
            return KeyStep::Key(Key::Escape);
        },
    };
    match s {
        KeyState::Escape => {
            if b == 13 {
                KeyStep::Key(Key::AltEnter)
            } else if b == 91 {
                KeyStep::More(KeyState::Bracket)
            } else {
                KeyStep::Key(Key::Escape)
            }
        },
        KeyState::Bracket => {
            if b == 65 {
                KeyStep::Key(Key::Up)
            } else if b == 66 {
                KeyStep::Key(Key::Down)
            } else if b == 67 {
                KeyStep::Key(Key::Right)
            } else if b == 68 {
                KeyStep::Key(Key::Left)
            } else if b == 72 {
                KeyStep::Key(Key::Home)
            } else if b == 70 {
                KeyStep::Key(Key::End)
            } else if 48 <= b && b <= 57 {
                KeyStep::More(KeyState::Number { value: (b - 48) as u16 })
            } else if b == 60 {
                KeyStep::More(KeyState::Mouse { button: 0, col: 0, row: 0, index: 0 })
            } else {
                KeyStep::Key(Key::Escape)
            }
        },
        KeyState::Number { value } => parse_csi_number(value, b),
        KeyState::Modifiers => {
            if 48 <= b && b <= 57 {
                KeyStep::More(KeyState::Modifiers)
            } else {
                KeyStep::Key(Key::Escape)
            }
        },
        KeyState::Mouse { button, col, row, index } => parse_sgr_mouse(button, col, row, index, b),
        KeyState::MouseRest => {
            if b == 77 || b == 109 {
                KeyStep::Key(Key::Escape)
            } else {
                KeyStep::More(KeyState::MouseRest)
            }
        },
    }
}

fn parse_csi_number(value: u16, b: u8) -> (r: KeyStep)
    ensures
        r == next_byte(KeyState::Number { value }, Some(b)),
{
    if 48 <= b && b <= 57 {
        KeyStep::More(KeyState::Number { value: add_digit(value, b) })
    } else if b == 126 {
        KeyStep::Key(
            if value == 3 {
                Key::Delete
            } else if value == 5 {
                Key::PageUp
            } else if value == 6 {
                Key::PageDown
            } else {
                Key::Escape
            },
        )
    } else if b == 59 {
        KeyStep::More(KeyState::Modifiers)
    } else {
        KeyStep::Key(Key::Escape)
    }
}

fn parse_sgr_mouse(button: u16, col: u16, row: u16, index: u8, b: u8) -> (r: KeyStep)
    ensures
        r == next_byte(KeyState::Mouse { button, col, row, index }, Some(b)),
{
    if 48 <= b && b <= 57 {
        KeyStep::More(
            if index == 0 {
                KeyState::Mouse { button: add_digit(button, b), col, row, index }
            } else if index == 1 {
                KeyState::Mouse { button, col: add_digit(col, b), row, index }
            } else {
                KeyState::Mouse { button, col, row: add_digit(row, b), index }
            },
        )
    } else if b == 59 {
        KeyStep::More(
            if index >= 2 {
                KeyState::MouseRest
            } else {
                KeyState::Mouse { button, col, row, index: index + 1 }
            },
        )
    } else if b == 77 && index == 2 {
        KeyStep::Key(
            if button == 0 {
                Key::MouseClick { row, col }
            } else if button == 64 {
                Key::ScrollUp
            } else if button == 65 {
                Key::ScrollDown
            } else {
                Key::Escape
            },
        )
    } else {
        KeyStep::Key(Key::Escape)
    }
}

/// A sequence that breaks off is the escape key, wherever it does.
pub proof fn law_broken_sequence_is_escape(s: KeyState)
    ensures
        next_byte(s, None) == KeyStep::Key(Key::Escape),
{
}

/// Every printable ASCII byte is the key of its character.
pub proof fn law_printable_bytes(b: u8)
    requires
        32 <= b < 127,
    ensures
        first_byte(b) == KeyStep::Key(Key::Char(b as char)),
{
}

} // verus!
