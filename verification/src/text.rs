//! The pieces of text that a frame is made of: numbers in decimal and the
//! terminal sequence that moves the cursor to the start of a line.

use vstd::prelude::*;
use vstd::string::StringExecFns;

verus! {

/// The character of a decimal digit.
pub open spec fn digit_char(digit: int) -> char {
    ('0' as int + digit) as char
}

/// A natural number in decimal: no sign, and no leading zero but for zero itself.
pub open spec fn decimal_text(n: nat) -> Seq<char>
    decreases n,
{
    if n < 10 {
        seq![digit_char(n as int)]
    } else {
        decimal_text(n / 10).push(digit_char(n as int % 10))
    }
}

/// An integer in decimal, with a minus sign in front where it is negative.
pub open spec fn integer_text(n: int) -> Seq<char> {
    if n < 0 {
        seq!['-'] + decimal_text((-n) as nat)
    } else {
        decimal_text(n as nat)
    }
}

/// The terminal sequence that puts the cursor at the start of the line after
/// line `line_num`: the escape character, `[`, the number of that line
/// counted from one, and `;0H`.
pub open spec fn new_line_text(line_num: int) -> Seq<char> {
    seq!['\u{1b}', '['] + integer_text(line_num + 1) + seq![';', '0', 'H']
}

/// The text of one decimal digit.
fn digit_str(digit: u8) -> (text: &'static str)
    requires
        digit < 10,
    ensures
        text@ == seq![digit_char(digit as int)],
{
    proof {
        reveal_strlit("0");
        reveal_strlit("1");
        reveal_strlit("2");
        reveal_strlit("3");
        reveal_strlit("4");
        reveal_strlit("5");
        reveal_strlit("6");
        reveal_strlit("7");
        reveal_strlit("8");
        reveal_strlit("9");
    }
    match digit {
        0 => "0",
        1 => "1",
        2 => "2",
        3 => "3",
        4 => "4",
        5 => "5",
        6 => "6",
        7 => "7",
        8 => "8",
        _ => "9",
    }
}

/// Writes a natural number in decimal.
fn decimal(n: u64) -> (text: String)
    ensures
        text@ == decimal_text(n as nat),
    decreases n,
{
    let last = digit_str((n % 10) as u8);
    if n < 10 {
        last.to_owned()
    } else {
        let mut text = decimal(n / 10);
        text.append(last);
        text
    }
}

/// Returns the terminal sequence that puts the cursor at the start of the
/// line after line `line_num`.
pub fn term_new_line(line_num: i32) -> (text: String)
    ensures
        text@ == new_line_text(line_num as int),
{
    proof {
        reveal_strlit("\u{1b}[");
        reveal_strlit("\u{1b}[-");
        reveal_strlit(";0H");
    }
    let line = line_num as i64 + 1;
    let mut text = if line < 0 {
        let mut text = "\u{1b}[-".to_owned();
        text.append(decimal((-line) as u64).as_str());
        text
    } else {
        let mut text = "\u{1b}[".to_owned();
        text.append(decimal(line as u64).as_str());
        text
    };
    text.append(";0H");
    text
}

} // verus!
