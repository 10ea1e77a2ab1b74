//! The board: a grid of ten by twenty cells, each empty or holding the colour
//! of the piece that was locked there.

use crate::catalog::{holds_cells, shape_cell, Piece};
use crate::utils::{Color, Point};
use vstd::prelude::*;

verus! {

/// The number of cells in a row.
pub const BOARD_WIDTH: usize = 10;

/// The number of rows.
pub const BOARD_HEIGHT: usize = 20;

/// A board. Row 0 is the top row, and column 0 is the left column.
pub struct Board {
    cells: [[Option<Color>; BOARD_WIDTH]; BOARD_HEIGHT],
}

/// Whether a grid has the dimensions of a board.
pub open spec fn well_shaped(grid: Seq<Seq<Option<Color>>>) -> bool {
    &&& grid.len() == BOARD_HEIGHT
    &&& forall|y: int| 0 <= y < BOARD_HEIGHT ==> (#[trigger] grid[y]).len() == BOARD_WIDTH
}

/// Whether (x, y) is a cell of the board.
pub open spec fn on_board(x: int, y: int) -> bool {
    0 <= x < BOARD_WIDTH && 0 <= y < BOARD_HEIGHT
}

/// Whether a piece cannot have a cell at (x, y): the place is outside the
/// board, or the cell there is occupied.
pub open spec fn blocked(grid: Seq<Seq<Option<Color>>>, x: int, y: int) -> bool {
    !on_board(x, y) || grid[y][x] is Some
}

/// Whether one of the first `n` cells of `shape`, placed with its origin at
/// (`ox`, `oy`), lies at (x, y).
pub open spec fn covers_within(shape: u16, ox: int, oy: int, x: int, y: int, n: int) -> bool {
    exists|k: int|
        0 <= k < n && x == ox + (#[trigger] shape_cell(shape, k)).0 && y == oy + shape_cell(
            shape,
            k,
        ).1
}

/// Whether one of the four cells of `shape`, placed with its origin at
/// (`ox`, `oy`), lies at (x, y).
pub open spec fn covers(shape: u16, ox: int, oy: int, x: int, y: int) -> bool {
    covers_within(shape, ox, oy, x, y, 4)
}

/// Whether one of the first `n` cells of `shape`, placed with its origin at
/// (`ox`, `oy`), is blocked.
pub open spec fn collides_within(
    grid: Seq<Seq<Option<Color>>>,
    shape: u16,
    ox: int,
    oy: int,
    n: int,
) -> bool {
    exists|k: int|
        0 <= k < n && blocked(
            grid,
            ox + (#[trigger] shape_cell(shape, k)).0,
            oy + shape_cell(shape, k).1,
        )
}

/// Whether `shape` cannot be placed with its origin at (`ox`, `oy`): one of
/// its four cells would lie outside the board or on an occupied cell.
pub open spec fn collides(grid: Seq<Seq<Option<Color>>>, shape: u16, ox: int, oy: int) -> bool {
    collides_within(grid, shape, ox, oy, 4)
}

/// The grid after the first `n` cells of `shape`, placed with its origin at
/// (`ox`, `oy`), were written into it in `color`.
pub open spec fn locked_within(
    grid: Seq<Seq<Option<Color>>>,
    shape: u16,
    color: Color,
    ox: int,
    oy: int,
    n: int,
) -> Seq<Seq<Option<Color>>> {
    Seq::new(
        BOARD_HEIGHT as nat,
        |y: int|
            Seq::new(
                BOARD_WIDTH as nat,
                |x: int|
                    if covers_within(shape, ox, oy, x, y, n) {
                        Some(color)
                    } else {
                        grid[y][x]
                    },
            ),
    )
}

/// The grid after `shape`, placed with its origin at (`ox`, `oy`), was
/// written into it in `color`: the four cells of the piece hold the colour,
/// every other cell is as before.
pub open spec fn locked(
    grid: Seq<Seq<Option<Color>>>,
    shape: u16,
    color: Color,
    ox: int,
    oy: int,
) -> Seq<Seq<Option<Color>>> {
    locked_within(grid, shape, color, ox, oy, 4)
}

/// A row without any occupied cell.
pub open spec fn empty_row() -> Seq<Option<Color>> {
    Seq::new(BOARD_WIDTH as nat, |x: int| None)
}

/// A grid without any occupied cell.
pub open spec fn empty_grid() -> Seq<Seq<Option<Color>>> {
    Seq::new(BOARD_HEIGHT as nat, |y: int| empty_row())
}

/// Whether a row has no empty cell.
pub open spec fn row_full(row: Seq<Option<Color>>) -> bool {
    forall|x: int| 0 <= x < row.len() ==> (#[trigger] row[x]) is Some
}

/// The test that a row passes when it has an empty cell.
pub open spec fn has_gap() -> spec_fn(Seq<Option<Color>>) -> bool {
    |row: Seq<Option<Color>>| !row_full(row)
}

/// The rows of a grid that have an empty cell, in their order.
pub open spec fn kept_rows(grid: Seq<Seq<Option<Color>>>) -> Seq<Seq<Option<Color>>> {
    grid.filter(has_gap())
}

/// How many rows of a grid have no empty cell.
pub open spec fn full_rows(grid: Seq<Seq<Option<Color>>>) -> nat {
    (grid.len() - kept_rows(grid).len()) as nat
}

/// The grid after its full rows were taken out: the other rows stand at the
/// bottom in their order, and above them as many empty rows as were taken out.
pub open spec fn cleared(grid: Seq<Seq<Option<Color>>>) -> Seq<Seq<Option<Color>>> {
    Seq::new(full_rows(grid), |y: int| empty_row()) + kept_rows(grid)
}

/// The first `n + 1` cells of a shape cover a place where the first `n` do,
/// or where the cell after them lies.
pub proof fn lemma_covers_step(shape: u16, ox: int, oy: int, x: int, y: int, n: int)
    requires
        0 <= n,
    ensures
        covers_within(shape, ox, oy, x, y, n + 1) <==> covers_within(shape, ox, oy, x, y, n) || (x
            == ox + shape_cell(shape, n).0 && y == oy + shape_cell(shape, n).1),
{
    if covers_within(shape, ox, oy, x, y, n) {
        let k = choose|k: int|
            0 <= k < n && x == ox + (#[trigger] shape_cell(shape, k)).0 && y == oy + shape_cell(
                shape,
                k,
            ).1;
        assert(0 <= k < n + 1 && x == ox + shape_cell(shape, k).0);
    }
}

impl View for Board {
    type V = Seq<Seq<Option<Color>>>;

    /// The rows of the board from the top, each from the left.
    closed spec fn view(&self) -> Seq<Seq<Option<Color>>> {
        Seq::new(BOARD_HEIGHT as nat, |y: int| self.cells@[y]@)
    }
}

impl Board {
    /// The grid of a board always has ten columns and twenty rows.
    pub proof fn lemma_well_shaped(&self)
        ensures
            well_shaped(self@),
    {
    }

    /// An empty board.
    pub fn new() -> (board: Board)
        ensures
            board@ == empty_grid(),
    {
        let board = Board { cells: [[None; BOARD_WIDTH]; BOARD_HEIGHT] };
        assert(board@ =~~= empty_grid());
        board
    }

    /// What the cell at `at` holds. A place outside the board holds nothing.
    pub fn cell(&self, at: Point) -> (color: Option<Color>)
        ensures
            color == (if on_board(at.x as int, at.y as int) {
                self@[at.y as int][at.x as int]
            } else {
                None
            }),
    {
        if 0 <= at.x && at.x < BOARD_WIDTH as i32 && 0 <= at.y && at.y < BOARD_HEIGHT as i32 {
            self.cells[at.y as usize][at.x as usize]
        } else {
            None
        }
    }

    /// Whether `piece` cannot be placed with its origin at `origin`: one of
    /// its four cells would lie outside the board or on an occupied cell.
    /// The board is not changed.
    pub fn collision(&self, piece: &Piece, origin: Point) -> (found: bool)
        ensures
            found == collides(self@, piece.shape(), origin.x as int, origin.y as int),
    {
        let mut found = false;
        let points = piece.get();
        for k in 0..4usize
            invariant
                holds_cells(points, piece.shape()),
                found == collides_within(
                    self@,
                    piece.shape(),
                    origin.x as int,
                    origin.y as int,
                    k as int,
                ),
        {
            let x = points[k][0] as i64 + origin.x as i64;
            let y = points[k][1] as i64 + origin.y as i64;
            if x < 0 || x >= BOARD_WIDTH as i64 || y < 0 || y >= BOARD_HEIGHT as i64
                || self.cells[y as usize][x as usize].is_some() {
                found = true;
            }
        }
        found
    }

    /// Writes the colour of `piece` into the four cells that it has with its
    /// origin at `origin`. The caller has made sure that the piece does not
    /// collide there.
    pub fn lock_piece(&mut self, piece: &Piece, origin: Point)
        requires
            !collides(old(self)@, piece.shape(), origin.x as int, origin.y as int),
        ensures
            final(self)@ == locked(
                old(self)@,
                piece.shape(),
                piece.color(),
                origin.x as int,
                origin.y as int,
            ),
    {
        let ghost before = self@;
        let points = piece.get();
        let color = piece.color();
        assert(self@ =~~= locked_within(
            before,
            piece.shape(),
            color,
            origin.x as int,
            origin.y as int,
            0,
        ));
        for k in 0..4usize
            invariant
                holds_cells(points, piece.shape()),
                color == piece.color(),
                !collides(before, piece.shape(), origin.x as int, origin.y as int),
                self@ == locked_within(
                    before,
                    piece.shape(),
                    color,
                    origin.x as int,
                    origin.y as int,
                    k as int,
                ),
        {
            let ghost mid = self@;
            let x = points[k][0] as i64 + origin.x as i64;
            let y = points[k][1] as i64 + origin.y as i64;
            self.cells[y as usize][x as usize] = Some(color);
            proof {
                let after = locked_within(
                    before,
                    piece.shape(),
                    color,
                    origin.x as int,
                    origin.y as int,
                    k + 1,
                );
                assert forall|yy: int, xx: int|
                    0 <= yy < BOARD_HEIGHT && 0 <= xx < BOARD_WIDTH implies self@[yy][xx]
                    == after[yy][xx] by {
                    lemma_covers_step(
                        piece.shape(),
                        origin.x as int,
                        origin.y as int,
                        xx,
                        yy,
                        k as int,
                    );
                    assert(self@[yy][xx] == (if yy == y && xx == x {
                        Some(color)
                    } else {
                        mid[yy][xx]
                    }));
                }
                assert(self@ =~~= after);
            }
        }
    }

    /// Takes out every row without an empty cell, in one pass from the bottom
    /// to the top: the rows above a row that was taken out move down, and
    /// empty rows come in at the top. Returns how many rows were taken out.
    pub fn clear_lines(&mut self) -> (count: u32)
        ensures
            final(self)@ == cleared(old(self)@),
            count == full_rows(old(self)@),
    {
        let ghost before = self@;
        let mut src: usize = BOARD_HEIGHT;
        let mut dst: usize = BOARD_HEIGHT;
        while src > 0
            invariant
                src <= dst <= BOARD_HEIGHT,
                before.len() == BOARD_HEIGHT,
                forall|y: int| 0 <= y < src ==> self@[y] == before[y],
                self@.subrange(dst as int, BOARD_HEIGHT as int) == kept_rows(
                    before.subrange(src as int, BOARD_HEIGHT as int),
                ),
            decreases src,
        {
            src -= 1;
            let ghost mid = self@;
            proof {
                let row = before[src as int];
                let below = before.subrange(src + 1, BOARD_HEIGHT as int);
                below.lemma_filter_prepend(row, has_gap());
                assert(seq![row] + below =~= before.subrange(src as int, BOARD_HEIGHT as int));
            }
            if !row_is_full(&self.cells[src]) {
                dst -= 1;
                self.cells[dst] = self.cells[src];
                assert(self@.subrange(dst as int, BOARD_HEIGHT as int) =~= seq![before[src as int]]
                    + mid.subrange(dst + 1, BOARD_HEIGHT as int));
            }
        }
        assert(before.subrange(0, BOARD_HEIGHT as int) =~= before);
        let ghost packed = self@;
        let mut y: usize = 0;
        while y < dst
            invariant
                y <= dst <= BOARD_HEIGHT,
                packed.len() == BOARD_HEIGHT,
                forall|i: int| 0 <= i < y ==> self@[i] == empty_row(),
                forall|i: int| dst <= i < BOARD_HEIGHT ==> self@[i] == packed[i],
            decreases dst - y,
        {
            let ghost prev = self@;
            self.cells[y] = [None; BOARD_WIDTH];
            assert(self@ =~~= prev.update(y as int, empty_row()));
            y += 1;
        }
        assert(self@ =~= cleared(before)) by {
            assert forall|i: int| dst <= i < BOARD_HEIGHT implies self@[i] == kept_rows(before)[i
                - dst] by {
                assert(packed.subrange(dst as int, BOARD_HEIGHT as int)[i - dst] == packed[i]);
            }
        }
        dst as u32
    }
}

/// Whether a row has no empty cell.
fn row_is_full(row: &[Option<Color>; BOARD_WIDTH]) -> (full: bool)
    ensures
        full == row_full(row@),
{
    let mut x: usize = 0;
    while x < BOARD_WIDTH
        invariant
            x <= BOARD_WIDTH,
            forall|i: int| 0 <= i < x ==> (#[trigger] row@[i]) is Some,
        decreases BOARD_WIDTH - x,
    {
        if row[x].is_none() {
            return false;
        }
        x += 1;
    }
    true
}

/// Rows that all have an empty cell are all kept.
proof fn lemma_kept_all(rows: Seq<Seq<Option<Color>>>)
    requires
        forall|y: int| 0 <= y < rows.len() ==> !row_full(#[trigger] rows[y]),
    ensures
        kept_rows(rows) == rows,
    decreases rows.len(),
{
    reveal(Seq::filter);
    if rows.len() > 0 {
        lemma_kept_all(rows.drop_last());
    }
}

/// The kept rows of a grid are the kept rows above row `k`, row `k` itself
/// where it has an empty cell, and the kept rows below it.
proof fn lemma_kept_split(rows: Seq<Seq<Option<Color>>>, k: int)
    requires
        0 <= k < rows.len(),
    ensures
        kept_rows(rows) == kept_rows(rows.subrange(0, k)) + (if row_full(rows[k]) {
            Seq::empty()
        } else {
            seq![rows[k]]
        }) + kept_rows(rows.subrange(k + 1, rows.len() as int)),
{
    let above = rows.subrange(0, k);
    let below = rows.subrange(k + 1, rows.len() as int);
    assert(rows =~= above + (seq![rows[k]] + below));
    below.lemma_filter_prepend(rows[k], has_gap());
    assert(kept_rows(rows) =~= kept_rows(above) + (if row_full(rows[k]) {
        Seq::empty()
    } else {
        seq![rows[k]]
    }) + kept_rows(below));
}

/// Where exactly one row of a grid is full, row `k`, clearing takes out that
/// one row: the top row is empty, the rows above row `k` stand one row
/// lower, in their order, and the rows below it stand where they stood.
pub proof fn lemma_clear_one_row(grid: Seq<Seq<Option<Color>>>, k: int)
    requires
        well_shaped(grid),
        0 <= k < BOARD_HEIGHT,
        forall|y: int| 0 <= y < BOARD_HEIGHT ==> (row_full(#[trigger] grid[y]) <==> y == k),
    ensures
        full_rows(grid) == 1,
        cleared(grid).len() == BOARD_HEIGHT,
        cleared(grid)[0] == empty_row(),
        forall|y: int| 0 < y <= k ==> #[trigger] cleared(grid)[y] == grid[y - 1],
        forall|y: int| k < y < BOARD_HEIGHT ==> #[trigger] cleared(grid)[y] == grid[y],
{
    lemma_kept_split(grid, k);
    lemma_kept_all(grid.subrange(0, k));
    lemma_kept_all(grid.subrange(k + 1, BOARD_HEIGHT as int));
}

/// Where exactly two rows of a grid are full, with one row between them that
/// is not, clearing takes out those two: the two top rows are empty, the rows
/// above the upper full row stand two rows lower, the row between the two
/// stands one row lower, where the lower full row was, and the rows below
/// stand where they stood.
pub proof fn lemma_clear_two_rows(grid: Seq<Seq<Option<Color>>>, k: int)
    requires
        well_shaped(grid),
        0 <= k,
        k + 2 < BOARD_HEIGHT,
        forall|y: int|
            0 <= y < BOARD_HEIGHT ==> (row_full(#[trigger] grid[y]) <==> y == k || y == k + 2),
    ensures
        full_rows(grid) == 2,
        cleared(grid).len() == BOARD_HEIGHT,
        cleared(grid)[0] == empty_row(),
        cleared(grid)[1] == empty_row(),
        forall|y: int| 2 <= y < k + 2 ==> #[trigger] cleared(grid)[y] == grid[y - 2],
        cleared(grid)[k + 2] == grid[k + 1],
        forall|y: int| k + 2 < y < BOARD_HEIGHT ==> #[trigger] cleared(grid)[y] == grid[y],
{
    let below = grid.subrange(k + 1, BOARD_HEIGHT as int);
    lemma_kept_split(grid, k);
    lemma_kept_all(grid.subrange(0, k));
    lemma_kept_split(below, 1);
    lemma_kept_all(below.subrange(0, 1));
    lemma_kept_all(below.subrange(2, below.len() as int));
}

} // verus!
