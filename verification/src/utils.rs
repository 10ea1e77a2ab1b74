//! Colours and board coordinates.

use vstd::prelude::*;

verus! {

/// The seven colours a piece or a locked cell can have.
#[derive(Debug, PartialEq, Eq, Copy, Clone, Structural)]
pub enum Color {
    Red,
    Orange,
    Yellow,
    Green,
    Blue,
    Purple,
    Brown,
}

/// A board coordinate: `x` grows to the right, `y` grows downward, and the
/// origin is the top-left cell.
#[derive(Debug, Clone, Copy, PartialEq, Eq, Structural)]
pub struct Point {
    pub x: i32,
    pub y: i32,
}

/// The text drawn for a cell of the given colour.
pub open spec fn color_glyph(color: Color) -> Seq<char> {
    match color {
        Color::Red => seq!['\u{f0}', '\u{178}', '\u{178}', '\u{a5}'],
        Color::Orange => seq!['\u{f0}', '\u{178}', '\u{178}', '\u{a7}'],
        Color::Yellow => seq!['\u{f0}', '\u{178}', '\u{178}', '\u{a8}'],
        Color::Green => seq!['\u{f0}', '\u{178}', '\u{178}', '\u{a9}'],
        Color::Blue => seq!['\u{f0}', '\u{178}', '\u{178}', '\u{a6}'],
        Color::Purple => seq!['\u{f0}', '\u{178}', '\u{178}', '\u{aa}'],
        Color::Brown => seq!['\u{f0}', '\u{178}', '\u{178}', '\u{ab}'],
    }
}

/// Returns the text drawn for a cell of the given colour. Every colour has one.
pub fn color_to_str(color: &Color) -> (text: Option<String>)
    ensures
        text is Some,
        text->0@ == color_glyph(*color),
{
    proof {
        reveal_strlit("\u{f0}\u{178}\u{178}\u{a5}");
        reveal_strlit("\u{f0}\u{178}\u{178}\u{a7}");
        reveal_strlit("\u{f0}\u{178}\u{178}\u{a8}");
        reveal_strlit("\u{f0}\u{178}\u{178}\u{a9}");
        reveal_strlit("\u{f0}\u{178}\u{178}\u{a6}");
        reveal_strlit("\u{f0}\u{178}\u{178}\u{aa}");
        reveal_strlit("\u{f0}\u{178}\u{178}\u{ab}");
    }
    match *color {
        Color::Red => Some("\u{f0}\u{178}\u{178}\u{a5}".to_owned()),
        Color::Orange => Some("\u{f0}\u{178}\u{178}\u{a7}".to_owned()),
        Color::Yellow => Some("\u{f0}\u{178}\u{178}\u{a8}".to_owned()),
        Color::Green => Some("\u{f0}\u{178}\u{178}\u{a9}".to_owned()),
        Color::Blue => Some("\u{f0}\u{178}\u{178}\u{a6}".to_owned()),
        Color::Purple => Some("\u{f0}\u{178}\u{178}\u{aa}".to_owned()),
        Color::Brown => Some("\u{f0}\u{178}\u{178}\u{ab}".to_owned()),
    }
}

} // verus!
