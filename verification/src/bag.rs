//! The piece bag: the queue of the pieces to come. A fill deals the whole
//! catalog in an order that the draws decide, so that every shape comes once
//! before any comes again.

use crate::catalog::{
    catalog, is_catalog_shape, lemma_catalog_index, lemma_piece_of, Piece, PIECES_SET, SHAPE_COUNT,
};
use crate::utils::Color;
use rand::Rng;
use vstd::prelude::*;
use vstd::seq_lib::{
    lemma_multiset_commutative, to_multiset_build, to_multiset_contains, to_multiset_update,
};
use vstd::slice::{slice_subrange, slice_to_vec};

verus! {

/// The colours, in the order in which a draw counts them.
pub const COLORS: [Color; 7] = [
    Color::Red,
    Color::Orange,
    Color::Yellow,
    Color::Green,
    Color::Blue,
    Color::Purple,
    Color::Brown,
];

/// The colours as a sequence.
pub open spec fn palette() -> Seq<Color> {
    COLORS@
}

/// The place in a pool of `len` shapes that a draw picks.
pub open spec fn drawn_place(len: nat, draw: usize) -> int {
    draw as int % len as int
}

/// The colour that a draw picks.
pub open spec fn drawn_color(draw: usize) -> Color {
    palette()[draw as int % 7]
}

/// The pool after a draw took its shape: the last shape of the pool stands
/// where the taken one stood.
pub open spec fn pool_after(pool: Seq<u16>, draw: usize) -> Seq<u16> {
    pool.update(drawn_place(pool.len(), draw), pool.last()).drop_last()
}

/// The pieces that the draws deal from a pool, one piece for each draw until
/// the pool or the draws run out: each draw picks a shape of what is left of
/// the pool, and a colour.
pub open spec fn dealt(pool: Seq<u16>, draws: Seq<usize>) -> Seq<Piece>
    decreases draws.len(),
{
    if pool.len() == 0 || draws.len() == 0 {
        Seq::empty()
    } else {
        seq![Piece::of(drawn_color(draws[0]), pool[drawn_place(pool.len(), draws[0])])] + dealt(
            pool_after(pool, draws[0]),
            draws.drop_first(),
        )
    }
}

/// Whether `pieces` is a fill: the whole catalog, dealt by some nineteen draws.
pub open spec fn is_fill(pieces: Seq<Piece>) -> bool {
    exists|draws: Seq<usize>| #[trigger] is_fill_by(pieces, draws)
}

/// Whether `pieces` is the catalog as the nineteen `draws` deal it.
pub open spec fn is_fill_by(pieces: Seq<Piece>, draws: Seq<usize>) -> bool {
    draws.len() == SHAPE_COUNT && pieces == dealt(catalog(), draws)
}

/// Draws a number from the random generator of the current thread, by
/// `rand::thread_rng().gen::<usize>()`. Nothing is claimed of the number:
/// every `usize` can come, and two calls need not agree. The generator seeds
/// itself from the operating system when a thread first uses it, and panics
/// where the system gives it no seed.
#[verifier::external_body]
fn random_draw() -> usize {
    rand::thread_rng().gen::<usize>()
}

/// Draws a random number for every shape of the catalog.
fn random_draws() -> [usize; SHAPE_COUNT] {
    let mut draws = [0usize; SHAPE_COUNT];
    for i in 0..SHAPE_COUNT {
        draws[i] = random_draw();
    }
    draws
}

/// Takes from the pool the shape that `draw` picks and makes it a piece of
/// the colour that `draw` picks.
fn draw_piece(pool: &mut Vec<u16>, draw: usize) -> (piece: Piece)
    requires
        old(pool)@.len() > 0,
        forall|i: int| 0 <= i < old(pool)@.len() ==> is_catalog_shape(#[trigger] old(pool)@[i]),
    ensures
        piece == Piece::of(drawn_color(draw), old(pool)@[drawn_place(old(pool)@.len(), draw)]),
        final(pool)@ == pool_after(old(pool)@, draw),
{
    let shape = pool.swap_remove(draw % pool.len());
    let color = COLORS[draw % COLORS.len()];
    Piece::of_catalog(color, shape)
}

/// The queue of the pieces to come. It is never empty: when the last piece
/// leaves, a new fill comes in.
pub struct PieceBag {
    pieces: Vec<Piece>,
}

impl View for PieceBag {
    type V = Seq<Piece>;

    /// The pieces of the queue, the next one first.
    closed spec fn view(&self) -> Seq<Piece> {
        self.pieces@
    }
}

impl PieceBag {
    #[verifier::type_invariant]
    spec fn has_next(self) -> bool {
        self.pieces@.len() > 0
    }

    /// A bag with one random fill.
    pub fn new() -> (bag: PieceBag)
        ensures
            is_fill(bag@),
    {
        let draws = random_draws();
        let bag = PieceBag::from_draws(&draws);
        assert(is_fill_by(bag@, draws@));
        bag
    }

    /// A bag with the fill that the given draws deal.
    pub fn from_draws(draws: &[usize; SHAPE_COUNT]) -> (bag: PieceBag)
        ensures
            bag@ == dealt(catalog(), draws@),
    {
        PieceBag { pieces: deal(draws) }
    }

    /// Puts a new random fill in the place of the queue: every shape of the
    /// catalog once, each with a colour, in a random order.
    pub fn fill_bag(&mut self)
        ensures
            is_fill(final(self)@),
    {
        let draws = random_draws();
        self.fill_with(&draws);
        assert(is_fill_by(self@, draws@));
    }

    /// Puts the fill that the given draws deal in the place of the queue.
    pub fn fill_with(&mut self, draws: &[usize; SHAPE_COUNT])
        ensures
            final(self)@ == dealt(catalog(), draws@),
    {
        self.pieces = deal(draws);
    }

    /// Takes the next piece out of the queue. When that was the last one, a
    /// new random fill comes in at once.
    pub fn pop(&mut self) -> (piece: Piece)
        ensures
            old(self)@.len() > 0,
            piece == old(self)@[0],
            old(self)@.len() > 1 ==> final(self)@ == old(self)@.drop_first(),
            old(self)@.len() == 1 ==> is_fill(final(self)@),
    {
        proof {
            use_type_invariant(&*self);
        }
        let piece = self.pieces[0];
        let len = self.pieces.len();
        if len == 1 {
            self.fill_bag();
        } else {
            // The rest comes in as a whole, so that the queue is never empty.
            self.pieces = slice_to_vec(slice_subrange(self.pieces.as_slice(), 1, len));
        }
        piece
    }

    /// The next piece, which stays in the queue.
    pub fn peek(&self) -> (piece: Piece)
        ensures
            self@.len() > 0,
            piece == self@[0],
    {
        proof {
            use_type_invariant(self);
        }
        self.pieces[0]
    }
}

/// Deals the whole catalog by the given draws.
fn deal(draws: &[usize; SHAPE_COUNT]) -> (pieces: Vec<Piece>)
    ensures
        pieces@ == dealt(catalog(), draws@),
        pieces@.len() == SHAPE_COUNT,
{
    let mut pool: Vec<u16> = Vec::new();
    for i in 0..SHAPE_COUNT
        invariant
            pool@ == catalog().subrange(0, i as int),
    {
        pool.push(PIECES_SET[i]);
    }
    assert(pool@ =~= catalog());
    assert(draws@.subrange(0, SHAPE_COUNT as int) =~= draws@);
    let mut pieces: Vec<Piece> = Vec::new();
    let mut i: usize = 0;
    while !pool.is_empty()
        invariant
            i <= SHAPE_COUNT,
            pool@.len() == SHAPE_COUNT - i,
            pieces@.len() == i,
            forall|j: int| 0 <= j < pool@.len() ==> is_catalog_shape(#[trigger] pool@[j]),
            dealt(catalog(), draws@) == pieces@ + dealt(
                pool@,
                draws@.subrange(i as int, SHAPE_COUNT as int),
            ),
        decreases pool@.len(),
    {
        let ghost rest = draws@.subrange(i as int, SHAPE_COUNT as int);
        let ghost before = pool@;
        let piece = draw_piece(&mut pool, draws[i]);
        proof {
            assert(rest.drop_first() =~= draws@.subrange(i + 1, SHAPE_COUNT as int));
            assert(pieces@.push(piece) + dealt(pool@, rest.drop_first()) =~= pieces@ + dealt(
                before,
                rest,
            ));
        }
        pieces.push(piece);
        i += 1;
    }
    pieces
}

/// The shapes of a sequence of pieces, in their order.
pub open spec fn shapes_of(pieces: Seq<Piece>) -> Seq<u16> {
    pieces.map_values(|piece: Piece| piece.shape())
}

/// A draw takes one shape out of the pool and leaves the others, each as
/// often as it was there.
proof fn lemma_pool_after(pool: Seq<u16>, draw: usize)
    requires
        pool.len() > 0,
    ensures
        pool_after(pool, draw).len() == pool.len() - 1,
        pool.to_multiset() == pool_after(pool, draw).to_multiset().insert(
            pool[drawn_place(pool.len(), draw)],
        ),
{
    broadcast use vstd::multiset::group_multiset_axioms;

    let k = drawn_place(pool.len(), draw);
    let moved = pool.update(k, pool.last());
    let after = pool_after(pool, draw);
    to_multiset_update(pool, k, pool.last());
    assert(after.push(pool.last()) =~= moved);
    to_multiset_build(after, pool.last());
    pool.to_multiset_ensures();
    assert forall|shape: u16|
        pool.to_multiset().count(shape) == after.to_multiset().insert(pool[k]).count(shape) by {
        assert(after.to_multiset().insert(pool.last()).count(shape) == pool.to_multiset().insert(
            pool.last(),
        ).remove(pool[k]).count(shape));
    }
}

/// Draws deal a pool shape by shape: with a draw for every shape, the pieces
/// dealt hold every shape of the pool as often as the pool holds it.
proof fn lemma_dealt_permutes(pool: Seq<u16>, draws: Seq<usize>)
    requires
        draws.len() >= pool.len(),
    ensures
        dealt(pool, draws).len() == pool.len(),
        shapes_of(dealt(pool, draws)).to_multiset() == pool.to_multiset(),
    decreases draws.len(),
{
    broadcast use vstd::multiset::group_multiset_axioms;

    if pool.len() == 0 || draws.len() == 0 {
        assert(shapes_of(dealt(pool, draws)) =~= pool);
    } else {
        let k = drawn_place(pool.len(), draws[0]);
        let rest = dealt(pool_after(pool, draws[0]), draws.drop_first());
        lemma_pool_after(pool, draws[0]);
        lemma_dealt_permutes(pool_after(pool, draws[0]), draws.drop_first());
        lemma_piece_of(drawn_color(draws[0]), pool[k]);
        let first = seq![pool[k]];
        assert(shapes_of(dealt(pool, draws)) =~= first + shapes_of(rest));
        lemma_multiset_commutative(first, shapes_of(rest));
        to_multiset_build(Seq::<u16>::empty(), pool[k]);
        assert forall|shape: u16|
            shapes_of(dealt(pool, draws)).to_multiset().count(shape) == pool.to_multiset().count(
                shape,
            ) by {
            to_multiset_contains(Seq::<u16>::empty(), shape);
            assert(first.to_multiset().count(shape) == Seq::<u16>::empty().to_multiset().insert(
                pool[k],
            ).count(shape));
        }
    }
}

/// A fill holds nineteen pieces, and among them every shape of the catalog
/// once: none is missing, and none comes twice.
pub proof fn lemma_fill_one_of_each(pieces: Seq<Piece>)
    requires
        is_fill(pieces),
    ensures
        pieces.len() == SHAPE_COUNT,
        shapes_of(pieces).to_multiset() == catalog().to_multiset(),
        forall|i: int| 0 <= i < pieces.len() ==> is_catalog_shape(#[trigger] pieces[i].shape()),
        forall|shape: u16|
            is_catalog_shape(shape) ==> exists|i: int|
                0 <= i < pieces.len() && #[trigger] pieces[i].shape() == shape,
        forall|i: int, j: int|
            0 <= i < j < pieces.len() ==> #[trigger] pieces[i].shape()
                != #[trigger] pieces[j].shape(),
{
    broadcast use vstd::multiset::group_multiset_axioms;

    let draws = choose|draws: Seq<usize>| #[trigger] is_fill_by(pieces, draws);
    lemma_dealt_permutes(catalog(), draws);
    let shapes = shapes_of(pieces);
    assert(catalog().no_duplicates()) by {
        assert forall|i: int, j: int|
            0 <= i < catalog().len() && 0 <= j < catalog().len() && i != j implies catalog()[i]
            != catalog()[j] by {
            lemma_catalog_index(i);
            lemma_catalog_index(j);
        }
    }
    catalog().lemma_multiset_has_no_duplicates();
    shapes.lemma_multiset_has_no_duplicates_conv();
    assert forall|i: int| 0 <= i < pieces.len() implies is_catalog_shape(
        #[trigger] pieces[i].shape(),
    ) by {
        to_multiset_contains(shapes, shapes[i]);
        to_multiset_contains(catalog(), shapes[i]);
    }
    assert forall|shape: u16| is_catalog_shape(shape) implies exists|i: int|
        0 <= i < pieces.len() && #[trigger] pieces[i].shape() == shape by {
        to_multiset_contains(shapes, shape);
        to_multiset_contains(catalog(), shape);
        let i = choose|i: int| 0 <= i < shapes.len() && shapes[i] == shape;
        assert(pieces[i].shape() == shape);
    }
    assert forall|i: int, j: int| 0 <= i < j < pieces.len() implies #[trigger] pieces[i].shape()
        != #[trigger] pieces[j].shape() by {
        assert(shapes[i] == pieces[i].shape());
        assert(shapes[j] == pieces[j].shape());
    }
}

} // verus!
