//! The events of a game and the keys behind them, with the reading of raw
//! keystrokes: a keystroke is one byte, or the escape byte and two more.

use vstd::prelude::*;

verus! {

/// A key of the keyboard, as far as the game tells keys apart.
#[derive(Debug, Clone, Copy, PartialEq, Eq)]
pub enum Key {
    Up,
    Down,
    Left,
    Right,
    CtrlC,
    Char(char),
}

/// What a game reacts to: a key, or a tick of the clock.
#[derive(Debug, Clone, Copy, PartialEq, Eq)]
pub enum GameUpdate {
    KeyPress(Key),
    Tick,
}

/// What the bytes of a keystroke say so far.
#[derive(Debug, Clone, Copy, PartialEq, Eq)]
pub enum Keystroke {
    /// The keystroke is this key.
    Key(Key),
    /// The escape byte came: the two bytes after it decide.
    Escape,
    /// The bytes are text, but no key is known by them.
    Unknown,
    /// The bytes are not text.
    Invalid,
}

/// What the first byte of a keystroke says: `w`, `a`, `s` and `d` are the
/// arrows, byte 3 is control-C, byte 27 starts an escape sequence, every
/// other byte below 128 is the character it encodes, and the bytes from 128
/// on are no text.
pub open spec fn first_byte_says(byte: u8) -> Keystroke {
    if byte == 0x77 {
        Keystroke::Key(Key::Up)
    } else if byte == 0x61 {
        Keystroke::Key(Key::Left)
    } else if byte == 0x73 {
        Keystroke::Key(Key::Down)
    } else if byte == 0x64 {
        Keystroke::Key(Key::Right)
    } else if byte == 0x03 {
        Keystroke::Key(Key::CtrlC)
    } else if byte == 0x1b {
        Keystroke::Escape
    } else if byte < 0x80 {
        Keystroke::Key(Key::Char(byte as char))
    } else {
        Keystroke::Invalid
    }
}

/// Whether two bytes are text: two characters of one byte each, or one
/// character of two bytes.
pub open spec fn two_bytes_are_text(first: u8, second: u8) -> bool {
    ||| first < 0x80 && second < 0x80
    ||| 0xc2 <= first <= 0xdf && 0x80 <= second <= 0xbf
}

/// What the two bytes after the escape byte say: `[A`, `[B`, `[C` and `[D`
/// are the arrows up, down, right and left; other text is no key.
pub open spec fn escape_code_says(first: u8, second: u8) -> Keystroke {
    if first == 0x5b && second == 0x41 {
        Keystroke::Key(Key::Up)
    } else if first == 0x5b && second == 0x42 {
        Keystroke::Key(Key::Down)
    } else if first == 0x5b && second == 0x43 {
        Keystroke::Key(Key::Right)
    } else if first == 0x5b && second == 0x44 {
        Keystroke::Key(Key::Left)
    } else if two_bytes_are_text(first, second) {
        Keystroke::Unknown
    } else {
        Keystroke::Invalid
    }
}

/// Says what the first byte of a keystroke stands for.
pub fn decode_first_byte(byte: u8) -> (said: Keystroke)
    ensures
        said == first_byte_says(byte),
{
    match byte {
        0x77 => Keystroke::Key(Key::Up),
        0x61 => Keystroke::Key(Key::Left),
        0x73 => Keystroke::Key(Key::Down),
        0x64 => Keystroke::Key(Key::Right),
        0x03 => Keystroke::Key(Key::CtrlC),
        0x1b => Keystroke::Escape,
        _ => if byte < 0x80 {
            Keystroke::Key(Key::Char(byte as char))
        } else {
            Keystroke::Invalid
        },
    }
}

/// Says what the two bytes after the escape byte stand for.
pub fn decode_escape_code(first: u8, second: u8) -> (said: Keystroke)
    ensures
        said == escape_code_says(first, second),
{
    if first == 0x5b && second >= 0x41 && second <= 0x44 {
        match second {
            0x41 => Keystroke::Key(Key::Up),
            0x42 => Keystroke::Key(Key::Down),
            0x43 => Keystroke::Key(Key::Right),
            _ => Keystroke::Key(Key::Left),
        }
    } else if (first < 0x80 && second < 0x80) || (0xc2 <= first && first <= 0xdf && 0x80 <= second
        && second <= 0xbf) {
        Keystroke::Unknown
    } else {
        Keystroke::Invalid
    }
}

} // verus!
