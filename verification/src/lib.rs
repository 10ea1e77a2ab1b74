//! A falling-block puzzle engine: the piece catalog, the board, the piece bag
//! and the game controller, each with a machine-checked contract.

pub mod bag;
pub mod board;
pub mod catalog;
pub mod game;
pub mod input;
pub mod text;
pub mod utils;

pub use crate::bag::PieceBag;
pub use crate::board::Board;
pub use crate::catalog::{u16_to_array, Piece};
pub use crate::game::{Game, Outcome};
pub use crate::input::{GameUpdate, Key, Keystroke};
pub use crate::text::term_new_line;
pub use crate::utils::{color_to_str, Color, Point};
