//! The piece catalog: nineteen shapes, one for every rotation state of the
//! seven pieces, and the order in which rotation walks through them.
//!
//! A shape is a 16-bit code of four nibbles, one per cell, the first cell in
//! the highest nibble. A nibble holds `x * 4 + y`, so every cell lies in a
//! four by four box.

use crate::utils::Color;
use vstd::prelude::*;

verus! {

/// How many shapes the catalog has.
pub const SHAPE_COUNT: usize = 19;

/// The shapes of the catalog. Shapes that turn into each other stand next to
/// each other: the bar (0, 1), the two skews (2, 3) and (4, 5), the square (6),
/// and three pieces of four states each (7 to 10, 11 to 14, 15 to 18).
pub const PIECES_SET: [u16; SHAPE_COUNT] = [
    0b0000_0100_1000_1100,
    0b0000_0001_0010_0011,
    0b0000_0100_0101_1001,
    0b0100_0001_0101_0010,
    0b0100_1000_0001_0101,
    0b0000_0001_0101_0110,
    0b0000_0100_0001_0101,
    0b0100_0001_0101_1001,
    0b0100_0101_1001_0110,
    0b0001_0101_1001_0110,
    0b0100_0001_0101_0110,
    0b0100_0101_0010_0110,
    0b0001_0101_1001_1010,
    0b0100_1000_0101_0110,
    0b0000_0001_0101_1001,
    0b0100_0101_0110_1010,
    0b0001_0101_1001_0010,
    0b0000_0100_0101_0110,
    0b1000_0001_0101_1001,
];

/// The catalog as a sequence of shape codes.
pub open spec fn catalog() -> Seq<u16> {
    PIECES_SET@
}

/// Whether `shape` is one of the nineteen shapes of the catalog.
pub open spec fn is_catalog_shape(shape: u16) -> bool {
    catalog().contains(shape)
}

/// The `i`-th nibble of a shape code, counted from the lowest.
pub open spec fn nibble(shape: u16, i: int) -> int {
    if i == 0 {
        shape as int % 16
    } else if i == 1 {
        shape as int / 16 % 16
    } else if i == 2 {
        shape as int / 256 % 16
    } else {
        shape as int / 4096 % 16
    }
}

/// The `k`-th cell of a shape, as an (x, y) offset from the piece's origin.
pub open spec fn shape_cell(shape: u16, k: int) -> (int, int) {
    (nibble(shape, 3 - k) / 4, nibble(shape, 3 - k) % 4)
}

/// The four cells of a shape, in the order in which the code holds them.
pub open spec fn shape_cells(shape: u16) -> Seq<(int, int)> {
    Seq::new(4, |k: int| shape_cell(shape, k))
}

/// Whether `cells` holds the four cells of `shape`, each as an (x, y) pair.
pub open spec fn holds_cells(cells: [[u8; 2]; 4], shape: u16) -> bool {
    forall|k: int|
        0 <= k < 4 ==> (#[trigger] cells@[k])@[0] == shape_cells(shape)[k].0 && cells@[k]@[1]
            == shape_cells(shape)[k].1
}

/// Decodes a shape code into its four (x, y) cells.
pub fn u16_to_array(shape: u16) -> (cells: [[u8; 2]; 4])
    ensures
        holds_cells(cells, shape),
{
    let mut v = [[0u8; 2]; 4];
    for i in 0..4usize
        invariant
            forall|k: int|
                4 - i <= k < 4 ==> (#[trigger] v@[k])@[0] == shape_cell(shape, k).0 && v@[k]@[1]
                    == shape_cell(shape, k).1,
    {
        let p = (shape >> (i * 4)) & 0x000f;
        let x = ((p >> 2) & 0x03) as u8;
        let y = (p & 0x03) as u8;
        proof {
            assert(i < 4 ==> (shape >> (i * 4)) & 0x000f == (if i == 0 {
                shape % 16
            } else if i == 1 {
                shape / 16 % 16
            } else if i == 2 {
                shape / 256 % 16
            } else {
                shape / 4096 % 16
            })) by (bit_vector);
            assert(p < 16 ==> (p >> 2) & 0x03 == p / 4 && p & 0x03 == p % 4) by (bit_vector);
        }
        v[3 - i][0] = x;
        v[3 - i][1] = y;
    }
    v
}

/// The place in the catalog of the shape that rotation turns the `i`-th shape into.
pub open spec fn successor_index(i: int) -> int {
    if i < 6 {
        if i % 2 == 0 {
            i + 1
        } else {
            i - 1
        }
    } else if i == 6 {
        6
    } else if (i - 7) % 4 == 3 {
        i - 3
    } else {
        i + 1
    }
}

/// The shape that one rotation turns `shape` into.
pub open spec fn rotation_successor(shape: u16) -> u16 {
    catalog()[successor_index(catalog().index_of(shape))]
}

/// The shape reached from `shape` by `n` rotations.
pub open spec fn rotated(shape: u16, n: nat) -> u16
    decreases n,
{
    if n == 0 {
        shape
    } else {
        rotation_successor(rotated(shape, (n - 1) as nat))
    }
}

/// After how many rotations a shape first comes back to itself: two for the
/// bar and the two skews, one for the square, four for the other pieces.
pub open spec fn cycle_length(shape: u16) -> nat {
    let i = catalog().index_of(shape);
    if i < 6 {
        2
    } else if i == 6 {
        1
    } else {
        4
    }
}

/// No shape stands twice in the catalog: each is found at its own place.
pub proof fn lemma_catalog_index(i: int)
    requires
        0 <= i < SHAPE_COUNT,
    ensures
        is_catalog_shape(catalog()[i]),
        catalog().index_of(catalog()[i]) == i,
{
    let j = catalog().index_of(catalog()[i]);
    assert(0 <= j < catalog().len() && catalog()[j] == catalog()[i]);
}

/// Finds the place of `shape` in the catalog.
pub fn catalog_position(shape: u16) -> (found: Option<usize>)
    ensures
        found is Some <==> is_catalog_shape(shape),
        found is Some ==> found->0 < SHAPE_COUNT && found->0 == catalog().index_of(shape),
{
    let mut i: usize = 0;
    while i < SHAPE_COUNT
        invariant
            i <= SHAPE_COUNT,
            forall|j: int| 0 <= j < i ==> catalog()[j] != shape,
        decreases SHAPE_COUNT - i,
    {
        if PIECES_SET[i] == shape {
            proof {
                lemma_catalog_index(i as int);
            }
            return Some(i);
        }
        i += 1;
    }
    None
}

/// The place in the catalog of the shape that rotation turns the shape at
/// `position` into.
fn successor_position(position: usize) -> (next: usize)
    requires
        position < SHAPE_COUNT,
    ensures
        next == successor_index(position as int),
        next < SHAPE_COUNT,
{
    if position < 6 {
        if position % 2 == 0 {
            position + 1
        } else {
            position - 1
        }
    } else if position == 6 {
        6
    } else if (position - 7) % 4 == 3 {
        position - 3
    } else {
        position + 1
    }
}

/// A piece: one shape of the catalog in one colour. A piece never changes;
/// rotating it gives another piece.
#[derive(Debug, Clone, Copy)]
pub struct Piece {
    color: Color,
    shape: u16,
}

impl Piece {
    #[verifier::type_invariant]
    spec fn shape_is_known(self) -> bool {
        is_catalog_shape(self.shape)
    }

    /// The colour of the piece.
    pub closed spec fn spec_color(&self) -> Color {
        self.color
    }

    /// The shape code of the piece.
    pub closed spec fn spec_shape(&self) -> u16 {
        self.shape
    }

    /// The piece of the given colour and shape.
    pub closed spec fn of(color: Color, shape: u16) -> Piece {
        Piece { color, shape }
    }

    /// Makes a piece, or nothing where `shape` is not in the catalog.
    pub fn new(color: Color, shape: u16) -> (piece: Option<Piece>)
        ensures
            piece is Some <==> is_catalog_shape(shape),
            piece is Some ==> piece->0 == Piece::of(color, shape),
    {
        match catalog_position(shape) {
            Some(_) => Some(Piece { color, shape }),
            None => None,
        }
    }

    /// Makes the piece of a shape of the catalog.
    pub(crate) fn of_catalog(color: Color, shape: u16) -> (piece: Piece)
        requires
            is_catalog_shape(shape),
        ensures
            piece == Piece::of(color, shape),
    {
        Piece { color, shape }
    }

    /// The colour of the piece.
    #[verifier::when_used_as_spec(spec_color)]
    pub fn color(&self) -> (color: Color)
        ensures
            color == self.color(),
    {
        self.color
    }

    /// The shape code of the piece, always one of the catalog.
    #[verifier::when_used_as_spec(spec_shape)]
    pub fn shape(&self) -> (shape: u16)
        ensures
            shape == self.shape(),
            is_catalog_shape(shape),
    {
        proof {
            use_type_invariant(self);
        }
        self.shape
    }

    /// The four cells of the piece, as (x, y) offsets from its origin.
    pub fn get(&self) -> (cells: [[u8; 2]; 4])
        ensures
            holds_cells(cells, self.shape()),
    {
        u16_to_array(self.shape)
    }

    /// The piece turned once: the same colour, the next shape of its cycle.
    /// The piece itself stays as it is.
    pub fn rotate(&mut self) -> (turned: Piece)
        ensures
            *final(self) == *old(self),
            turned.color() == old(self).color(),
            turned.shape() == rotation_successor(old(self).shape()),
    {
        proof {
            use_type_invariant(&*self);
        }
        let next = successor_position(catalog_position(self.shape).unwrap());
        Piece { shape: PIECES_SET[next], color: self.color }
    }
}

/// A piece is its colour and its shape, and nothing more.
pub proof fn lemma_piece_of(color: Color, shape: u16)
    ensures
        Piece::of(color, shape).color() == color,
        Piece::of(color, shape).shape() == shape,
        forall|piece: Piece|
            piece.color() == color && piece.shape() == shape ==> piece == Piece::of(color, shape),
{
}

/// Whatever the code, a shape has four cells, each in the four by four box.
pub proof fn lemma_cells_in_box(shape: u16)
    ensures
        shape_cells(shape).len() == 4,
        forall|k: int|
            0 <= k < 4 ==> 0 <= (#[trigger] shape_cells(shape)[k]).0 <= 3 && 0 <= shape_cells(
                shape,
            )[k].1 <= 3,
{
}

/// A shape of the catalog has four cells, each in the four by four box, and
/// no two of them in the same place.
pub proof fn lemma_catalog_cells_distinct(shape: u16)
    requires
        is_catalog_shape(shape),
    ensures
        shape_cells(shape).len() == 4,
        forall|k: int|
            0 <= k < 4 ==> 0 <= (#[trigger] shape_cells(shape)[k]).0 <= 3 && 0 <= shape_cells(
                shape,
            )[k].1 <= 3,
        forall|j: int, k: int|
            0 <= j < k < 4 ==> #[trigger] shape_cells(shape)[j] != #[trigger] shape_cells(shape)[k],
{
    let i = catalog().index_of(shape);
    assert(0 <= i < SHAPE_COUNT && catalog()[i] == shape);
}

/// One rotation leads from the `i`-th shape of the catalog to the shape at
/// `successor_index(i)`, which is in the catalog too.
pub proof fn lemma_rotation_step(i: int)
    requires
        0 <= i < SHAPE_COUNT,
    ensures
        0 <= successor_index(i) < SHAPE_COUNT,
        rotation_successor(catalog()[i]) == catalog()[successor_index(i)],
        is_catalog_shape(rotation_successor(catalog()[i])),
        cycle_length(rotation_successor(catalog()[i])) == cycle_length(catalog()[i]),
{
    lemma_catalog_index(i);
    lemma_catalog_index(successor_index(i));
}

/// Rotation is total on the catalog and runs in cycles: from any shape, as
/// many rotations as its cycle is long lead back to it, and fewer do not.
/// A cycle is one, two or four shapes long.
pub proof fn lemma_rotation_cycle(shape: u16)
    requires
        is_catalog_shape(shape),
    ensures
        is_catalog_shape(rotation_successor(shape)),
        cycle_length(shape) == 1 || cycle_length(shape) == 2 || cycle_length(shape) == 4,
        rotated(shape, cycle_length(shape)) == shape,
        forall|n: nat| 0 < n < cycle_length(shape) ==> rotated(shape, n) != shape,
{
    let i0 = catalog().index_of(shape);
    let i1 = successor_index(i0);
    let i2 = successor_index(i1);
    let i3 = successor_index(i2);
    assert(0 <= i0 < SHAPE_COUNT && catalog()[i0] == shape);
    lemma_rotation_step(i0);
    lemma_rotation_step(i1);
    lemma_rotation_step(i2);
    lemma_rotation_step(i3);
    reveal_with_fuel(rotated, 5);
}

} // verus!
