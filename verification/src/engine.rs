//! The engine: a playing field, at most one falling piece, and the supply of
//! pieces to come.

pub mod bag;
pub mod color;
pub mod geometry;
pub mod matrix;
pub mod piece;

pub use crate::engine::color::Color;
pub use crate::engine::matrix::{CellIter, Matrix};

use crate::engine::bag::{draws, entropy_rng, Bag};
use crate::engine::geometry::{on_grid, Coordinate, Offset};
use crate::engine::piece::{Kind, Piece, Rotation};
use rand::rngs::StdRng;
use vstd::prelude::*;

verus! {

/// Column of the anchor of a piece that enters the field.
pub const SPAWN_X: isize = 3;

/// Row of the anchor of a piece that enters the field.
pub const SPAWN_Y: isize = 18;

/// A sideways move of the falling piece.
#[derive(Clone, Copy, Debug, PartialEq, Eq, Structural)]
pub enum MoveKind {
    Left,
    Right,
}

impl MoveKind {
    /// How many columns the move shifts a piece: one to the left or one to
    /// the right.
    pub open spec fn dx(self) -> int {
        match self {
            MoveKind::Left => -1,
            MoveKind::Right => 1,
        }
    }

    /// The move as an offset.
    pub fn offset(&self) -> (offset: Offset)
        ensures
            offset.x == self.dx(),
            offset.y == 0,
    {
        match self {
            MoveKind::Left => Offset::new(-1, 0),
            MoveKind::Right => Offset::new(1, 0),
        }
    }
}

/// The state of one game: the field, the falling piece if there is one, the
/// bag of kinds to come with the generator that shuffles it, and the level.
/// Each engine owns its generator.
pub struct Engine {
    matrix: Matrix,
    bag: Bag,
    rng: StdRng,
    cursor: Option<Piece>,
    level: u8,
}

impl Engine {
    /// The playing field.
    pub closed spec fn grid(&self) -> Matrix {
        self.matrix
    }

    /// The falling piece, if there is one.
    pub closed spec fn active(&self) -> Option<Piece> {
        self.cursor
    }

    /// The kinds left in the bag; the last one leaves first.
    pub closed spec fn supply(&self) -> Seq<Kind> {
        self.bag@
    }

    /// The level of the game, which sets the pace of gravity.
    pub closed spec fn pace(&self) -> u8 {
        self.level
    }

    /// The generator that shuffles the bag.
    pub closed spec fn source(&self) -> StdRng {
        self.rng
    }

    /// An engine on an empty field, with no falling piece, an empty bag and
    /// level 1.
    pub fn new() -> (engine: Engine)
        ensures
            forall|x: int, y: int| on_grid(x, y) ==> #[trigger] engine.grid().at(x, y) is None,
            engine.active() is None,
            engine.supply().len() == 0,
            engine.pace() == 1,
    {
        Engine::with_rng(Matrix::blank(), entropy_rng())
    }

    /// An engine on the given field, with no falling piece, an empty bag and
    /// level 1.
    pub fn with_matrix(matrix: Matrix) -> (engine: Engine)
        ensures
            engine.grid() == matrix,
            engine.active() is None,
            engine.supply().len() == 0,
            engine.pace() == 1,
    {
        Engine::with_rng(matrix, entropy_rng())
    }

    /// An engine on the given field that shuffles its bag with the given
    /// generator, with no falling piece, an empty bag and level 1. The
    /// generator can be one made from a seed.
    pub fn with_rng(matrix: Matrix, rng: StdRng) -> (engine: Engine)
        ensures
            engine.grid() == matrix,
            engine.active() is None,
            engine.supply().len() == 0,
            engine.pace() == 1,
            engine.source() == rng,
    {
        Engine { matrix, bag: Bag::new(), rng, cursor: None, level: 1 }
    }

    /// The level of the game.
    pub fn level(&self) -> (level: u8)
        ensures
            level == self.pace(),
    {
        self.level
    }

    /// Whether the falling piece can be locked: there is one, and every cell
    /// of it is on the field and empty.
    pub open spec fn lockable(&self) -> bool {
        self.active() is Some && self.grid().admits(self.active()->0@)
    }

    /// Whether the falling piece can be dropped: there is one, and it can be
    /// locked where it is or can go down a row.
    pub open spec fn droppable(&self) -> bool {
        &&& self.active() is Some
        &&& (self.grid().admits(self.active()->0@)
            || !self.grid().clips(self.active()->0@.moved(0, -1)))
    }

    /// Fills the empty bag with a fresh cycle of the seven kinds.
    pub fn refill_bag(&mut self)
        requires
            old(self).supply().len() == 0,
        ensures
            crate::engine::bag::is_cycle(final(self).supply()),
            final(self).grid() == old(self).grid(),
            final(self).active() == old(self).active(),
            final(self).pace() == old(self).pace(),
    {
        self.bag.refill(&mut self.rng);
    }

    /// Lets a piece enter the field where none is falling: its kind is drawn
    /// from the bag, and it starts at the spawn anchor in the first
    /// orientation. With a piece already falling nothing changes. Returns
    /// whether a piece entered.
    pub fn spawn(&mut self) -> (spawned: bool)
        ensures
            spawned == (old(self).active() is None),
            final(self).grid() == old(self).grid(),
            final(self).pace() == old(self).pace(),
            !spawned ==> final(self).active() == old(self).active(),
            !spawned ==> final(self).supply() == old(self).supply(),
            !spawned ==> final(self).source() == old(self).source(),
            spawned ==> final(self).active() is Some,
            spawned ==> final(self).active()->0.rotation == Rotation::N,
            spawned ==> final(self).active()->0.position == (Offset { x: SPAWN_X, y: SPAWN_Y }),
            spawned ==> draws(
                old(self).supply(),
                final(self).active()->0.kind,
                final(self).supply(),
            ),
    {
        if self.cursor.is_some() {
            return false;
        }
        let kind = self.bag.draw(&mut self.rng);
        self.cursor = Some(
            Piece { kind, rotation: Rotation::N, position: Offset::new(SPAWN_X, SPAWN_Y) },
        );
        true
    }

    /// Locks the falling piece: its cells are filled with its colour, and no
    /// piece is falling afterwards.
    pub fn place_cursor(&mut self)
        requires
            old(self).lockable(),
        ensures
            final(self).active() is None,
            forall|x: int, y: int|
                on_grid(x, y) ==> #[trigger] final(self).grid().at(x, y)
                    == old(self).grid().at_with(old(self).active()->0@, x, y),
            final(self).supply() == old(self).supply(),
            final(self).pace() == old(self).pace(),
            final(self).source() == old(self).source(),
    {
        let Some(cursor) = self.cursor.take() else {
            return ;
        };
        let color = cursor.kind.color();
        let Some(cells) = cursor.cells() else {
            proof {
                let i = choose|i: int|
                    0 <= i < 4 && !(0 <= (#[trigger] cursor@.cell(i)).0 <= isize::MAX && 0
                        <= cursor@.cell(i).1 <= isize::MAX);
                assert(!on_grid(cursor@.cell(i).0, cursor@.cell(i).1));
            }
            return ;
        };
        let mut i: usize = 0;
        while i < 4
            invariant
                0 <= i <= 4,
                color == cursor.kind.color_of(),
                old(self).grid().admits(cursor@),
                self.cursor is None,
                self.bag == old(self).bag,
                self.rng == old(self).rng,
                self.level == old(self).level,
                forall|j: int|
                    0 <= j < 4 ==> (#[trigger] cells[j]).x == cursor@.cell(j).0 && cells[j].y
                        == cursor@.cell(j).1,
                forall|x: int, y: int|
                    on_grid(x, y) ==> #[trigger] self.matrix.at(x, y) == (if exists|j: int|
                        0 <= j < i && #[trigger] cursor@.cell(j) == (x, y) {
                        Some(color)
                    } else {
                        old(self).matrix.at(x, y)
                    }),
            decreases 4 - i,
        {
            let ghost before = self.matrix;
            assert(on_grid(cursor@.cell(i as int).0, cursor@.cell(i as int).1));
            self.matrix.write(cells[i], Some(color));
            assert forall|x: int, y: int| on_grid(x, y) implies #[trigger] self.matrix.at(x, y) == (
            if exists|j: int| 0 <= j < i + 1 && #[trigger] cursor@.cell(j) == (x, y) {
                Some(color)
            } else {
                old(self).matrix.at(x, y)
            }) by {
                if (x, y) == cursor@.cell(i as int) {
                } else {
                    assert(self.matrix.at(x, y) == before.at(x, y));
                    if exists|j: int| 0 <= j < i + 1 && #[trigger] cursor@.cell(j) == (x, y) {
                        let j = choose|j: int| 0 <= j < i + 1 && #[trigger] cursor@.cell(j) == (x, y);
                        assert(0 <= j < i);
                    }
                }
            }
            i = i + 1;
        }
    }

    /// Moves the falling piece one column sideways, unless it would collide
    /// there: then the move is rejected and nothing changes. With no piece
    /// falling the move is accepted and nothing changes.
    pub fn move_cursor(&mut self, move_kind: MoveKind) -> (outcome: Result<(), ()>)
        ensures
            final(self).grid() == old(self).grid(),
            final(self).supply() == old(self).supply(),
            final(self).pace() == old(self).pace(),
            final(self).source() == old(self).source(),
            outcome is Err <==> old(self).active() is Some
                && old(self).grid().clips(old(self).active()->0@.moved(move_kind.dx(), 0)),
            outcome is Err ==> final(self).active() == old(self).active(),
            outcome is Ok ==> (match old(self).active() {
                Some(piece) => final(self).active() is Some
                    && final(self).active()->0@ == piece@.moved(move_kind.dx(), 0),
                None => final(self).active() is None,
            }),
    {
        let Some(cursor) = self.cursor else {
            return Ok(());
        };
        let Some(new) = cursor.moved_by(move_kind.offset()) else {
            proof {
                self.matrix.lemma_unreachable_anchor_clips(cursor@.moved(move_kind.dx(), 0));
            }
            return Err(());
        };
        if self.matrix.is_clipping(&new) {
            return Err(());
        }
        self.cursor = Some(new);
        Ok(())
    }

    /// The cells that the falling piece covers and its colour, for drawing it
    /// over the field: `None` where no piece is falling or one of the cells
    /// cannot be written as a coordinate.
    pub fn cursor_info(&self) -> (info: Option<([Coordinate; 4], Color)>)
        ensures
            info is Some <==> self.active() is Some && self.active()->0@.addressable(),
            match info {
                Some((cells, color)) => color == self.active()->0.kind.color_of() && forall|i: int|
                    0 <= i < 4 ==> (#[trigger] cells[i]).x == self.active()->0@.cell(i).0
                        && cells[i].y == self.active()->0@.cell(i).1,
                None => true,
            },
    {
        let Some(cursor) = self.cursor else {
            return None;
        };
        let Some(cells) = cursor.cells() else {
            return None;
        };
        Some((cells, cursor.kind.color()))
    }

    /// Puts a piece of the given kind at the given anchor, in place of the
    /// falling piece if there is one. This is a hook for tests and
    /// demonstrations; a game gets its pieces from [`Engine::spawn`].
    pub fn db_test_cursor(&mut self, kind: Kind, position: Offset)
        ensures
            final(self).active() == Some(Piece { kind, rotation: Rotation::N, position }),
            final(self).grid() == old(self).grid(),
            final(self).supply() == old(self).supply(),
            final(self).pace() == old(self).pace(),
            final(self).source() == old(self).source(),
    {
        let piece = Piece { kind, rotation: Rotation::N, position };
        self.cursor = Some(piece);
    }

    /// The falling piece one row further down, where it does not collide
    /// there.
    pub fn ticked_down_cursor(&self) -> (ticked: Option<Piece>)
        ensures
            ticked is Some <==> self.active() is Some
                && !self.grid().clips(self.active()->0@.moved(0, -1)),
            ticked is Some ==> ticked->0@ == self.active()->0@.moved(0, -1),
    {
        let Some(cursor) = self.cursor else {
            return None;
        };
        let Some(new) = cursor.moved_by(Offset::new(0, -1)) else {
            proof {
                self.matrix.lemma_unreachable_anchor_clips(cursor@.moved(0, -1));
            }
            return None;
        };
        if self.matrix.is_clipping(&new) {
            None
        } else {
            Some(new)
        }
    }

    /// One step of gravity: the falling piece goes down a row, unless it
    /// would collide there or no piece is falling: then nothing changes.
    /// Returns whether the piece went down.
    pub fn step_down(&mut self) -> (descended: bool)
        ensures
            final(self).grid() == old(self).grid(),
            final(self).supply() == old(self).supply(),
            final(self).pace() == old(self).pace(),
            final(self).source() == old(self).source(),
            descended == (old(self).active() is Some
                && !old(self).grid().clips(old(self).active()->0@.moved(0, -1))),
            descended ==> final(self).active() is Some,
            descended ==> final(self).active()->0@ == old(self).active()->0@.moved(0, -1),
            !descended ==> final(self).active() == old(self).active(),
    {
        match self.ticked_down_cursor() {
            Some(new) => {
                self.cursor = Some(new);
                true
            },
            None => false,
        }
    }

    /// Whether the falling piece is blocked from below: there is one, and a
    /// row further down it would collide.
    pub fn cursor_hit_down(&self) -> (hit: bool)
        ensures
            hit == (self.active() is Some && self.grid().clips(self.active()->0@.moved(0, -1))),
    {
        self.cursor.is_some() && self.ticked_down_cursor().is_none()
    }

    /// Whether [`Engine::place_cursor`] may be called.
    pub fn can_lock(&self) -> (can: bool)
        ensures
            can == self.lockable(),
    {
        match &self.cursor {
            Some(cursor) => self.matrix.placeable(cursor),
            None => false,
        }
    }

    /// Whether [`Engine::hard_drop`] may be called.
    pub fn can_hard_drop(&self) -> (can: bool)
        ensures
            can == self.droppable(),
    {
        self.can_lock() || self.ticked_down_cursor().is_some()
    }

    /// Drops the falling piece: it goes down row by row until the next row
    /// would make it collide, and is locked there.
    pub fn hard_drop(&mut self)
        requires
            old(self).droppable(),
        ensures
            final(self).active() is None,
            forall|x: int, y: int|
                on_grid(x, y) ==> #[trigger] final(self).grid().at(x, y)
                    == old(self).grid().at_with(
                    old(self).grid().resting(old(self).active()->0@),
                    x,
                    y,
                ),
            final(self).supply() == old(self).supply(),
            final(self).pace() == old(self).pace(),
            final(self).source() == old(self).source(),
    {
        proof {
            self.matrix.lemma_resting_is_free(self.cursor->0@);
        }
        loop
            invariant
                self.matrix == old(self).matrix,
                self.bag == old(self).bag,
                self.rng == old(self).rng,
                self.level == old(self).level,
                self.cursor is Some,
                self.matrix.resting(self.cursor->0@)
                    == old(self).matrix.resting(old(self).cursor->0@),
                self.matrix.admits(self.matrix.resting(self.cursor->0@)),
            ensures
                self.cursor->0@ == old(self).matrix.resting(old(self).cursor->0@),
            decreases self.cursor->0.position.y - isize::MIN,
        {
            match self.ticked_down_cursor() {
                Some(new) => {
                    proof {
                        self.matrix.lemma_free_piece_is_anchored_above_floor(new@);
                    }
                    self.cursor = Some(new);
                },
                None => break ,
            }
        }
        self.place_cursor();
    }

    /// A traversal of the field, cell by cell in row-major order.
    pub fn cells(&self) -> (iter: CellIter<'_>)
        ensures
            iter.matrix() == self.grid(),
            iter.yielded() == 0,
    {
        self.matrix.cells()
    }
}

} // verus!
