//! The game controller: the board, the active piece with its origin, and the
//! bag, with the moves that the player and the clock make.

use crate::bag::{is_fill, PieceBag};
use crate::board::{
    blocked, cleared, collides, covers, covers_within, empty_grid, lemma_covers_step, locked,
    Board, BOARD_HEIGHT, BOARD_WIDTH,
};
use crate::catalog::{
    holds_cells, lemma_cells_in_box, rotation_successor, shape_cell, shape_cells, Piece,
};
use crate::input::{GameUpdate, Key};
use crate::text::{new_line_text, term_new_line};
use crate::utils::{color_glyph, color_to_str, Color, Point};
use vstd::prelude::*;
use vstd::string::StringExecFns;

verus! {

/// The column of the origin at which a new piece appears: the middle of the board.
pub const SPAWN_X: i32 = 5;

/// The row of the origin at which a new piece appears: the top row.
pub const SPAWN_Y: i32 = 0;

/// A game: the board, the active piece, the origin of the active piece on the
/// board, and the bag of the pieces to come.
pub struct Game {
    board: Board,
    piece: Piece,
    piece_pos: Point,
    piece_bag: PieceBag,
}

/// How a game goes on after an update.
#[derive(Debug, Clone, Copy, PartialEq, Eq)]
pub enum Outcome {
    /// The game goes on.
    Continue,
    /// The player asked to leave.
    Quit,
    /// The next piece had no room: the game is over.
    GameOver,
}

/// What a game holds, as plain values.
pub struct GameView {
    /// The rows of the board from the top.
    pub board: Seq<Seq<Option<Color>>>,
    /// The active piece.
    pub piece: Piece,
    /// The origin of the active piece.
    pub origin: Point,
    /// The pieces to come, the next one first.
    pub queue: Seq<Piece>,
}

impl GameView {
    /// Whether a piece of the given shape can stand with its origin at (x, y).
    pub open spec fn fits(self, shape: u16, x: int, y: int) -> bool {
        !collides(self.board, shape, x, y)
    }

    /// Whether the game is on: the active piece stands where it can stand.
    pub open spec fn in_play(self) -> bool {
        self.fits(self.piece.shape(), self.origin.x as int, self.origin.y as int)
    }

    /// The same game with the origin of the active piece at (x, y).
    pub open spec fn at(self, x: int, y: int) -> GameView {
        GameView { origin: Point { x: x as i32, y: y as i32 }, ..self }
    }

    /// Whether the active piece can move by (dx, dy).
    pub open spec fn can_move(self, dx: int, dy: int) -> bool {
        self.fits(self.piece.shape(), self.origin.x + dx, self.origin.y + dy)
    }

    /// The game after an attempt to move the active piece by (dx, dy): moved
    /// where it can move, and as before where it cannot.
    pub open spec fn after_move(self, dx: int, dy: int) -> GameView {
        if self.can_move(dx, dy) {
            self.at(self.origin.x + dx, self.origin.y + dy)
        } else {
            self
        }
    }

    /// Whether the active piece can turn where it stands.
    pub open spec fn can_turn(self) -> bool {
        self.fits(
            rotation_successor(self.piece.shape()),
            self.origin.x as int,
            self.origin.y as int,
        )
    }

    /// The game after an attempt to turn the active piece: turned in place
    /// where the turned piece can stand, and as before where it cannot.
    pub open spec fn after_turn(self) -> GameView {
        if self.can_turn() {
            GameView {
                piece: Piece::of(self.piece.color(), rotation_successor(self.piece.shape())),
                ..self
            }
        } else {
            self
        }
    }

    /// Whether the active piece can stand at the spawn origin.
    pub open spec fn can_spawn(self) -> bool {
        self.fits(self.piece.shape(), SPAWN_X as int, SPAWN_Y as int)
    }

    /// The game after an attempt to put the active piece at the spawn origin.
    pub open spec fn after_spawn(self) -> GameView {
        if self.can_spawn() {
            self.at(SPAWN_X as int, SPAWN_Y as int)
        } else {
            self
        }
    }

    /// How many rows the active piece can fall before it lands.
    pub open spec fn fall(self) -> nat
        decreases BOARD_HEIGHT - self.origin.y,
    {
        if self.origin.y < BOARD_HEIGHT && self.can_move(0, 1) {
            1 + self.at(self.origin.x as int, self.origin.y + 1).fall()
        } else {
            0
        }
    }

    /// Whether `next` is the game after the active piece has landed: the piece
    /// is locked into the board where it stands, the full rows are cleared,
    /// the next piece of the queue becomes the active one, with a new fill
    /// behind it where it was the last, and appears at the spawn origin.
    /// Where it cannot stand there, the game is over: `alive` is false, and
    /// the origin stays where it was.
    pub open spec fn lands_as(self, next: GameView, alive: bool) -> bool {
        &&& self.queue.len() > 0
        &&& next.board == cleared(
            locked(
                self.board,
                self.piece.shape(),
                self.piece.color(),
                self.origin.x as int,
                self.origin.y as int,
            ),
        )
        &&& next.piece == self.queue[0]
        &&& if self.queue.len() > 1 {
            next.queue == self.queue.drop_first()
        } else {
            is_fill(next.queue)
        }
        &&& alive == next.can_spawn()
        &&& next.origin == if alive {
            Point { x: SPAWN_X, y: SPAWN_Y }
        } else {
            self.origin
        }
    }

    /// Whether `next` is the game after one step: the active piece one row
    /// lower where it can fall, and landed where it cannot.
    pub open spec fn steps_as(self, next: GameView, alive: bool) -> bool {
        if self.can_move(0, 1) {
            alive && next == self.after_move(0, 1)
        } else {
            self.lands_as(next, alive)
        }
    }

    /// Whether `next` is the game after a hard drop: the active piece falls
    /// as far as it can and lands there.
    pub open spec fn drops_as(self, next: GameView, alive: bool) -> bool {
        self.at(self.origin.x as int, self.origin.y + self.fall()).lands_as(next, alive)
    }

    /// Whether `next` is the game after a key: left and right move the active
    /// piece by one column where it can move, up turns it where it can turn,
    /// down is a hard drop, and every other key changes nothing. `alive` is
    /// false only where a hard drop ended the game.
    pub open spec fn key_as(self, key: Key, next: GameView, alive: bool) -> bool {
        match key {
            Key::Left => alive && next == self.after_move(-1, 0),
            Key::Right => alive && next == self.after_move(1, 0),
            Key::Up => alive && next == self.after_turn(),
            Key::Down => self.drops_as(next, alive),
            _ => alive && next == self,
        }
    }

    /// Whether `update` asks to leave the game: control-C does, and `z`.
    pub open spec fn asks_to_quit(update: GameUpdate) -> bool {
        update matches GameUpdate::KeyPress(key) && (key is CtrlC || key == Key::Char('z'))
    }

    /// Whether `next` and `outcome` are what an update leads to: a request to
    /// leave changes nothing, another key does what keys do, and a tick is
    /// one step. The game is over where the key or the step ended it.
    pub open spec fn updates_as(
        self,
        update: GameUpdate,
        next: GameView,
        outcome: Outcome,
    ) -> bool {
        if Self::asks_to_quit(update) {
            outcome is Quit && next == self
        } else {
            &&& outcome !is Quit
            &&& match update {
                GameUpdate::KeyPress(key) => self.key_as(key, next, outcome is Continue),
                GameUpdate::Tick => self.steps_as(next, outcome is Continue),
            }
        }
    }

    /// What the cell at (x, y) shows: the colour of the active piece where
    /// the piece has a cell there, and else what the board holds there.
    pub open spec fn shown(self, x: int, y: int) -> Option<Color> {
        if covers(self.piece.shape(), self.origin.x as int, self.origin.y as int, x, y) {
            Some(self.piece.color())
        } else {
            self.board[y][x]
        }
    }

    /// The text of the first `n` cells of row `y`.
    pub open spec fn cells_text(self, y: int, n: nat) -> Seq<char>
        decreases n,
    {
        if n == 0 {
            Seq::empty()
        } else {
            self.cells_text(y, (n - 1) as nat) + cell_text(self.shown(n - 1, y))
        }
    }

    /// The text of row `y`: the cells between two bars, and the sequence that
    /// sends the cursor to the next line.
    pub open spec fn row_text(self, y: int) -> Seq<char> {
        seq!['|'] + self.cells_text(y, BOARD_WIDTH as nat) + seq!['|'] + new_line_text(y)
    }

    /// The text of the first `n` rows.
    pub open spec fn rows_text(self, n: nat) -> Seq<char>
        decreases n,
    {
        if n == 0 {
            Seq::empty()
        } else {
            self.rows_text((n - 1) as nat) + self.row_text(n - 1)
        }
    }

    /// The text of the whole frame: a line feed, and the rows from the top.
    pub open spec fn frame_text(self) -> Seq<char> {
        seq!['\n'] + self.rows_text(BOARD_HEIGHT as nat)
    }
}

/// The text of a cell: the text of its colour, or two blanks where it is empty.
pub open spec fn cell_text(cell: Option<Color>) -> Seq<char> {
    match cell {
        Some(color) => color_glyph(color),
        None => seq![' ', ' '],
    }
}

impl View for Game {
    type V = GameView;

    closed spec fn view(&self) -> GameView {
        GameView {
            board: self.board@,
            piece: self.piece,
            origin: self.piece_pos,
            queue: self.piece_bag@,
        }
    }
}

/// A piece of any shape can stand at the spawn origin of an empty board.
pub proof fn lemma_spawn_on_empty_board(shape: u16)
    ensures
        !collides(empty_grid(), shape, SPAWN_X as int, SPAWN_Y as int),
{
    lemma_cells_in_box(shape);
    assert forall|k: int| 0 <= k < 4 implies !blocked(
        empty_grid(),
        SPAWN_X + (#[trigger] shape_cell(shape, k)).0,
        SPAWN_Y + shape_cell(shape, k).1,
    ) by {
        assert(shape_cells(shape)[k] == shape_cell(shape, k));
    }
}

/// A piece that stands on the board has its origin near the board: no more
/// than three cells to the left of it or above it.
pub proof fn lemma_fits_near_board(grid: Seq<Seq<Option<Color>>>, shape: u16, x: int, y: int)
    requires
        !collides(grid, shape, x, y),
    ensures
        -3 <= x < BOARD_WIDTH,
        -3 <= y < BOARD_HEIGHT,
{
    lemma_cells_in_box(shape);
    assert(shape_cells(shape)[0] == shape_cell(shape, 0));
    assert(!blocked(grid, x + shape_cell(shape, 0).0, y + shape_cell(shape, 0).1));
}

/// A hard drop ends on the lowest row that the active piece can reach: the
/// piece can stand on every row of its fall, and not one row below the last.
pub proof fn lemma_fall_ends_at_rest(game: GameView)
    requires
        game.in_play(),
    ensures
        forall|y: int|
            game.origin.y <= y <= game.origin.y + game.fall() ==> #[trigger] game.fits(
                game.piece.shape(),
                game.origin.x as int,
                y,
            ),
        !game.fits(game.piece.shape(), game.origin.x as int, game.origin.y + game.fall() + 1),
    decreases BOARD_HEIGHT - game.origin.y,
{
    lemma_fits_near_board(
        game.board,
        game.piece.shape(),
        game.origin.x as int,
        game.origin.y as int,
    );
    if game.can_move(0, 1) {
        let lower = game.at(game.origin.x as int, game.origin.y + 1);
        lemma_fits_near_board(
            game.board,
            game.piece.shape(),
            game.origin.x as int,
            game.origin.y + 1,
        );
        lemma_fall_ends_at_rest(lower);
        assert forall|y: int|
            game.origin.y <= y <= game.origin.y + game.fall() implies #[trigger] game.fits(
            game.piece.shape(),
            game.origin.x as int,
            y,
        ) by {
            if y > game.origin.y {
                assert(lower.fits(lower.piece.shape(), lower.origin.x as int, y));
            }
        }
    }
}

impl Game {
    /// A new game: an empty board, a random fill in the bag, and the first
    /// piece of the fill at the spawn origin.
    pub fn new() -> (game: Game)
        ensures
            game@.board == empty_grid(),
            game@.origin == (Point { x: SPAWN_X, y: SPAWN_Y }),
            is_fill(seq![game@.piece] + game@.queue),
            game@.in_play(),
    {
        let bag = PieceBag::new();
        proof {
            crate::bag::lemma_fill_one_of_each(bag@);
            assert(seq![bag@[0]] + bag@.drop_first() =~= bag@);
        }
        Game::with_bag(bag)
    }

    /// A new game with the given bag: an empty board, and the first piece of
    /// the bag at the spawn origin.
    pub fn with_bag(piece_bag: PieceBag) -> (game: Game)
        ensures
            piece_bag@.len() > 0,
            game@.board == empty_grid(),
            game@.origin == (Point { x: SPAWN_X, y: SPAWN_Y }),
            game@.piece == piece_bag@[0],
            piece_bag@.len() > 1 ==> game@.queue == piece_bag@.drop_first(),
            piece_bag@.len() == 1 ==> is_fill(game@.queue),
            game@.in_play(),
    {
        let mut piece_bag = piece_bag;
        let piece = piece_bag.pop();
        let board = Board::new();
        let mut game = Game { board, piece_pos: Point { x: 0, y: 0 }, piece_bag, piece };
        game.place_new_piece();
        game
    }

    /// Puts the active piece at the spawn origin where it can stand there,
    /// and says whether it did. Where it cannot, nothing changes.
    pub fn place_new_piece(&mut self) -> (placed: bool)
        ensures
            placed == old(self)@.can_spawn(),
            final(self)@ == old(self)@.after_spawn(),
            placed ==> final(self)@.in_play(),
    {
        let origin = Point { x: SPAWN_X, y: SPAWN_Y };
        if self.board.collision(&self.piece, origin) {
            false
        } else {
            self.piece_pos = origin;
            true
        }
    }

    /// Moves the active piece by (x, y) where it can stand there, and says
    /// whether it did. Where it cannot, nothing changes.
    pub fn move_piece(&mut self, x: i32, y: i32) -> (moved: bool)
        ensures
            moved == old(self)@.can_move(x as int, y as int),
            final(self)@ == old(self)@.after_move(x as int, y as int),
            moved || old(self)@.in_play() ==> final(self)@.in_play(),
    {
        let new_x = self.piece_pos.x as i64 + x as i64;
        let new_y = self.piece_pos.y as i64 + y as i64;
        if new_x < -3 || new_x >= BOARD_WIDTH as i64 || new_y < -3 || new_y >= BOARD_HEIGHT as i64 {
            proof {
                if self@.can_move(x as int, y as int) {
                    lemma_fits_near_board(
                        self@.board,
                        self@.piece.shape(),
                        new_x as int,
                        new_y as int,
                    );
                }
            }
            return false;
        }
        let new_pos = Point { x: new_x as i32, y: new_y as i32 };
        if self.board.collision(&self.piece, new_pos) {
            false
        } else {
            self.piece_pos = new_pos;
            true
        }
    }

    /// Turns the active piece in place where the turned piece can stand, and
    /// says whether it did. Where it cannot, nothing changes.
    pub fn rotate_piece(&mut self) -> (turned: bool)
        ensures
            turned == old(self)@.can_turn(),
            final(self)@ == old(self)@.after_turn(),
            turned || old(self)@.in_play() ==> final(self)@.in_play(),
    {
        let new_piece = self.piece.rotate();
        proof {
            crate::catalog::lemma_piece_of(
                self.piece.color(),
                rotation_successor(self.piece.shape()),
            );
        }
        if self.board.collision(&new_piece, self.piece_pos) {
            false
        } else {
            self.piece = new_piece;
            true
        }
    }

    /// One step of the clock: the active piece falls by one row. Where it
    /// cannot fall, it lands: it is locked into the board, the full rows are
    /// cleared, and the next piece of the bag appears at the spawn origin.
    /// Returns false where that piece cannot stand there: the game is over.
    pub fn step(&mut self) -> (alive: bool)
        requires
            old(self)@.in_play(),
        ensures
            old(self)@.steps_as(final(self)@, alive),
            alive ==> final(self)@.in_play(),
    {
        if !self.move_piece(0, 1) {
            self.board.lock_piece(&self.piece, self.piece_pos);
            self.board.clear_lines();
            self.piece = self.piece_bag.pop();
            if !self.place_new_piece() {
                return false;
            }
        }
        true
    }

    /// A hard drop: the active piece falls as far as it can and lands there.
    /// Returns false where the next piece cannot stand at the spawn origin:
    /// the game is over.
    pub fn drop_piece(&mut self) -> (alive: bool)
        requires
            old(self)@.in_play(),
        ensures
            old(self)@.drops_as(final(self)@, alive),
            alive ==> final(self)@.in_play(),
    {
        let ghost start = self@;
        let ghost mut fallen: int = 0;
        while self.move_piece(0, 1)
            invariant
                start.in_play(),
                0 <= fallen,
                self@ == start.at(start.origin.x as int, start.origin.y + fallen),
                self@.origin.y == start.origin.y + fallen,
                self@.in_play(),
                start.fall() == fallen + self@.fall(),
            decreases BOARD_HEIGHT - self@.origin.y,
        {
            proof {
                let above = start.at(start.origin.x as int, start.origin.y + fallen);
                lemma_fits_near_board(
                    above.board,
                    above.piece.shape(),
                    above.origin.x as int,
                    above.origin.y as int,
                );
                lemma_fits_near_board(
                    self@.board,
                    self@.piece.shape(),
                    self@.origin.x as int,
                    self@.origin.y as int,
                );
                fallen = fallen + 1;
            }
        }
        self.step()
    }

    /// Does what a key asks for: left and right move the active piece, up
    /// turns it, down drops it, and every other key does nothing. Returns
    /// false where a drop ended the game.
    pub fn key_press(&mut self, key: Key) -> (alive: bool)
        requires
            old(self)@.in_play(),
        ensures
            old(self)@.key_as(key, final(self)@, alive),
            alive ==> final(self)@.in_play(),
    {
        match key {
            Key::Left => {
                self.move_piece(-1, 0);
                true
            },
            Key::Right => {
                self.move_piece(1, 0);
                true
            },
            Key::Up => {
                self.rotate_piece();
                true
            },
            Key::Down => self.drop_piece(),
            _ => true,
        }
    }

    /// Takes one update, a key or a tick of the clock, and says how the game
    /// goes on. After `Quit` and after `GameOver` no further update is due.
    pub fn handle_update(&mut self, update: GameUpdate) -> (outcome: Outcome)
        requires
            old(self)@.in_play(),
        ensures
            old(self)@.updates_as(update, final(self)@, outcome),
            outcome is Continue ==> final(self)@.in_play(),
    {
        match update {
            GameUpdate::KeyPress(Key::CtrlC) => Outcome::Quit,
            GameUpdate::KeyPress(Key::Char('z')) => Outcome::Quit,
            GameUpdate::KeyPress(key) => {
                if self.key_press(key) {
                    Outcome::Continue
                } else {
                    Outcome::GameOver
                }
            },
            GameUpdate::Tick => {
                if self.step() {
                    Outcome::Continue
                } else {
                    Outcome::GameOver
                }
            },
        }
    }

    /// What the cell at (x, y) shows: the colour of the active piece where
    /// the piece has a cell there, and else what the board holds there.
    pub fn shown_at(&self, x: usize, y: usize) -> (cell: Option<Color>)
        requires
            x < BOARD_WIDTH,
            y < BOARD_HEIGHT,
        ensures
            cell == self@.shown(x as int, y as int),
    {
        let points = self.piece.get();
        let mut covered = false;
        for k in 0..4usize
            invariant
                x < BOARD_WIDTH,
                y < BOARD_HEIGHT,
                holds_cells(points, self.piece.shape()),
                covered == covers_within(
                    self.piece.shape(),
                    self.piece_pos.x as int,
                    self.piece_pos.y as int,
                    x as int,
                    y as int,
                    k as int,
                ),
        {
            proof {
                lemma_covers_step(
                    self.piece.shape(),
                    self.piece_pos.x as int,
                    self.piece_pos.y as int,
                    x as int,
                    y as int,
                    k as int,
                );
            }
            let cell_x = points[k][0] as i64 + self.piece_pos.x as i64;
            let cell_y = points[k][1] as i64 + self.piece_pos.y as i64;
            if cell_x == x as i64 && cell_y == y as i64 {
                covered = true;
            }
        }
        if covered {
            Some(self.piece.color())
        } else {
            self.board.cell(Point { x: x as i32, y: y as i32 })
        }
    }

    /// Draws the game as text: a line feed, then every row from the top, each
    /// as a bar, its ten cells, a bar, and the sequence that sends the cursor
    /// to the next line.
    pub fn render(&self) -> (frame: String)
        ensures
            frame@ == self@.frame_text(),
    {
        proof {
            reveal_strlit("\n");
        }
        let mut buf = "\n".to_owned();
        for i in 0..BOARD_HEIGHT
            invariant
                buf@ == seq!['\n'] + self@.rows_text(i as nat),
        {
            proof {
                reveal_strlit("|");
            }
            let ghost above = buf@;
            buf.append("|");
            for j in 0..BOARD_WIDTH
                invariant
                    i < BOARD_HEIGHT,
                    buf@ == above + seq!['|'] + self@.cells_text(i as int, j as nat),
            {
                proof {
                    reveal_strlit("  ");
                }
                match self.shown_at(j, i) {
                    Some(color) => {
                        let glyph = color_to_str(&color).unwrap();
                        buf.append(glyph.as_str());
                    },
                    None => {
                        buf.append("  ");
                    },
                }
            }
            buf.append("|");
            buf.append(term_new_line(i as i32).as_str());
        }
        buf
    }

    /// Whether the game is on: the active piece stands where it can stand.
    /// A new game is on, and it stays on until a landing ends it.
    pub fn in_play(&self) -> (on: bool)
        ensures
            on == self@.in_play(),
    {
        !self.board.collision(&self.piece, self.piece_pos)
    }

    /// The board.
    pub fn board(&self) -> (board: &Board)
        ensures
            board@ == self@.board,
    {
        &self.board
    }

    /// The active piece.
    pub fn piece(&self) -> (piece: Piece)
        ensures
            piece == self@.piece,
    {
        self.piece
    }

    /// The origin of the active piece on the board.
    pub fn piece_pos(&self) -> (origin: Point)
        ensures
            origin == self@.origin,
    {
        self.piece_pos
    }

    /// The piece that becomes the active one when the active piece lands.
    pub fn next_piece(&self) -> (piece: Piece)
        ensures
            self@.queue.len() > 0,
            piece == self@.queue[0],
    {
        self.piece_bag.peek()
    }
}

} // verus!
