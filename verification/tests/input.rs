use tetris_engine::input::{decode_escape_code, decode_first_byte};
use tetris_engine::{Key, Keystroke};

#[test]
fn letters_stand_for_the_arrows() {
    assert_eq!(decode_first_byte(b'w'), Keystroke::Key(Key::Up));
    assert_eq!(decode_first_byte(b'a'), Keystroke::Key(Key::Left));
    assert_eq!(decode_first_byte(b's'), Keystroke::Key(Key::Down));
    assert_eq!(decode_first_byte(b'd'), Keystroke::Key(Key::Right));
}

#[test]
fn byte_three_is_control_c() {
    assert_eq!(decode_first_byte(3), Keystroke::Key(Key::CtrlC));
}

#[test]
fn the_escape_byte_asks_for_more() {
    assert_eq!(decode_first_byte(0x1b), Keystroke::Escape);
}

#[test]
fn other_ascii_bytes_are_characters() {
    assert_eq!(decode_first_byte(b'z'), Keystroke::Key(Key::Char('z')));
    assert_eq!(decode_first_byte(b'W'), Keystroke::Key(Key::Char('W')));
    assert_eq!(decode_first_byte(b' '), Keystroke::Key(Key::Char(' ')));
    assert_eq!(decode_first_byte(0), Keystroke::Key(Key::Char('\0')));
    assert_eq!(decode_first_byte(0x7f), Keystroke::Key(Key::Char('\u{7f}')));
}

#[test]
fn bytes_from_128_on_are_no_text() {
    assert_eq!(decode_first_byte(0x80), Keystroke::Invalid);
    assert_eq!(decode_first_byte(0xc3), Keystroke::Invalid);
    assert_eq!(decode_first_byte(0xff), Keystroke::Invalid);
}

#[test]
fn first_byte_agrees_with_utf8_on_every_byte() {
    for byte in 0..=255u8 {
        let is_text = std::str::from_utf8(&[byte]).is_ok();
        assert_eq!(decode_first_byte(byte) != Keystroke::Invalid, is_text, "byte {}", byte);
    }
}

#[test]
fn escape_codes_of_the_arrows() {
    assert_eq!(decode_escape_code(b'[', b'A'), Keystroke::Key(Key::Up));
    assert_eq!(decode_escape_code(b'[', b'B'), Keystroke::Key(Key::Down));
    assert_eq!(decode_escape_code(b'[', b'C'), Keystroke::Key(Key::Right));
    assert_eq!(decode_escape_code(b'[', b'D'), Keystroke::Key(Key::Left));
}

#[test]
fn other_text_after_escape_is_no_key() {
    assert_eq!(decode_escape_code(b'[', b'E'), Keystroke::Unknown);
    assert_eq!(decode_escape_code(b'[', b'@'), Keystroke::Unknown);
    assert_eq!(decode_escape_code(b'O', b'A'), Keystroke::Unknown);
    assert_eq!(decode_escape_code(0, 2), Keystroke::Unknown);
    assert_eq!(decode_escape_code(0xc3, 0xa9), Keystroke::Unknown);
}

#[test]
fn bytes_after_escape_that_are_no_text() {
    assert_eq!(decode_escape_code(b'[', 0x80), Keystroke::Invalid);
    assert_eq!(decode_escape_code(0x80, b'A'), Keystroke::Invalid);
    assert_eq!(decode_escape_code(0xc3, b'A'), Keystroke::Invalid);
    assert_eq!(decode_escape_code(0xc1, 0x80), Keystroke::Invalid);
    assert_eq!(decode_escape_code(0xe2, 0x82), Keystroke::Invalid);
}

#[test]
fn escape_code_agrees_with_utf8_on_every_pair() {
    for first in 0..=255u8 {
        for second in 0..=255u8 {
            let is_text = std::str::from_utf8(&[first, second]).is_ok();
            let said = decode_escape_code(first, second);
            assert_eq!(said != Keystroke::Invalid, is_text, "bytes {} {}", first, second);
        }
    }
}
