//! The playing field: a fixed buffer of cells, each empty or coloured, with
//! the checks that decide whether a piece collides with it.

use crate::engine::color::Color;
use crate::engine::geometry::{flat_index, on_grid, Coordinate, HEIGHT, SIZE, WIDTH};
use crate::engine::piece::{Kind, Piece, PieceView};
use std::ops::IndexMut;
use vstd::prelude::*;

verus! {

/// The playing field. Cells are kept row by row from the floor upwards and
/// are reached through bounds-checked coordinates only.
pub struct Matrix {
    cells: [Option<Color>; SIZE],
}

impl Matrix {
    pub const WIDTH: usize = 10;

    pub const HEIGHT: usize = 20;

    /// What the cell in column `x`, row `y` holds. Meaningful on the field.
    pub closed spec fn at(&self, x: int, y: int) -> Option<Color> {
        self.cells@[flat_index(x, y)]
    }

    /// The piece is off the field in some cell, or overlaps a filled cell.
    pub open spec fn clips(&self, piece: PieceView) -> bool {
        exists|i: int|
            0 <= i < 4 && !(on_grid((#[trigger] piece.cell(i)).0, piece.cell(i).1) && self.at(
                piece.cell(i).0,
                piece.cell(i).1,
            ) is None)
    }

    /// Every cell of the piece is on the field and empty.
    pub open spec fn admits(&self, piece: PieceView) -> bool {
        forall|i: int|
            0 <= i < 4 ==> on_grid((#[trigger] piece.cell(i)).0, piece.cell(i).1) && self.at(
                piece.cell(i).0,
                piece.cell(i).1,
            ) is None
    }

    /// The field after the piece's cells were filled with its colour: what a
    /// cell of that field holds.
    pub open spec fn at_with(&self, piece: PieceView, x: int, y: int) -> Option<Color> {
        if piece.covers(x, y) {
            Some(piece.kind.color_of())
        } else {
            self.at(x, y)
        }
    }

    /// Where the piece comes to rest when it falls: it goes down row by row
    /// for as long as the next row down does not make it collide. (A piece
    /// anchored in the floor row or below cannot go down, as every kind has a
    /// cell in the row of its anchor.)
    pub open spec fn resting(&self, piece: PieceView) -> PieceView
        decreases piece.y,
    {
        if piece.y > 0 && !self.clips(piece.moved(0, -1)) {
            self.resting(piece.moved(0, -1))
        } else {
            piece
        }
    }

    /// Whether the coordinate lies on the field.
    pub fn on_matrix(coord: Coordinate) -> (on: bool)
        ensures
            on == coord.in_bounds(),
    {
        Self::valid_coord(coord) && coord.y < HEIGHT
    }

    /// Whether the coordinate's column lies on the field.
    pub fn valid_coord(coord: Coordinate) -> (valid: bool)
        ensures
            valid == (coord.x < WIDTH),
    {
        coord.x < WIDTH
    }

    /// Position of the coordinate in the buffer.
    pub fn indexing(coord: Coordinate) -> (index: usize)
        requires
            coord.in_bounds(),
        ensures
            index == coord.flat(),
            index < SIZE,
    {
        coord.y * WIDTH + coord.x
    }

    /// A field with every cell empty.
    pub fn blank() -> (matrix: Matrix)
        ensures
            forall|x: int, y: int| on_grid(x, y) ==> #[trigger] matrix.at(x, y) is None,
    {
        let matrix = Matrix { cells: [None;SIZE] };
        assert forall|x: int, y: int| on_grid(x, y) implies #[trigger] matrix.at(x, y) is None by {
            assert(0 <= flat_index(x, y) < SIZE);
        }
        matrix
    }

    /// What the cell holds.
    pub fn read(&self, coord: Coordinate) -> (cell: Option<Color>)
        requires
            coord.in_bounds(),
        ensures
            cell == self.at(coord.x as int, coord.y as int),
    {
        self[coord]
    }

    /// Sets what the cell holds and leaves every other cell as it was.
    pub fn write(&mut self, coord: Coordinate, value: Option<Color>)
        requires
            coord.in_bounds(),
        ensures
            final(self).at(coord.x as int, coord.y as int) == value,
            forall|x: int, y: int|
                on_grid(x, y) && (x, y) != (coord.x as int, coord.y as int)
                    ==> #[trigger] final(self).at(x, y) == old(self).at(x, y),
    {
        *self.index_mut(coord) = value;
    }

    /// Whether the piece collides: it is off the field in some cell, or one of
    /// its cells is filled already. Every move is checked with this.
    pub fn is_clipping(&self, piece: &Piece) -> (clipping: bool)
        ensures
            clipping == self.clips(piece@),
    {
        let Some(cells) = piece.cells() else {
            proof {
                let i = choose|i: int|
                    0 <= i < 4 && !(0 <= (#[trigger] piece@.cell(i)).0 <= isize::MAX && 0
                        <= piece@.cell(i).1 <= isize::MAX);
                assert(!on_grid(piece@.cell(i).0, piece@.cell(i).1));
            }
            return true;
        };
        let mut i: usize = 0;
        while i < 4
            invariant
                0 <= i <= 4,
                forall|j: int|
                    0 <= j < 4 ==> (#[trigger] cells[j]).x == piece@.cell(j).0 && cells[j].y
                        == piece@.cell(j).1,
                forall|j: int|
                    0 <= j < i ==> on_grid((#[trigger] piece@.cell(j)).0, piece@.cell(j).1)
                        && self.at(piece@.cell(j).0, piece@.cell(j).1) is None,
            decreases 4 - i,
        {
            let coord = cells[i];
            if !Self::on_matrix(coord) || self.read(coord).is_some() {
                assert(!(on_grid(piece@.cell(i as int).0, piece@.cell(i as int).1) && self.at(
                    piece@.cell(i as int).0,
                    piece@.cell(i as int).1,
                ) is None));
                return true;
            }
            i = i + 1;
        }
        false
    }

    /// Whether the piece can be set down: every cell of it is on the field
    /// and empty. The lock step is guarded with this.
    pub fn placeable(&self, piece: &Piece) -> (placeable: bool)
        ensures
            placeable == self.admits(piece@),
    {
        let Some(cells) = piece.cells() else {
            proof {
                let i = choose|i: int|
                    0 <= i < 4 && !(0 <= (#[trigger] piece@.cell(i)).0 <= isize::MAX && 0
                        <= piece@.cell(i).1 <= isize::MAX);
                assert(!on_grid(piece@.cell(i).0, piece@.cell(i).1));
            }
            return false;
        };
        let mut i: usize = 0;
        while i < 4
            invariant
                0 <= i <= 4,
                forall|j: int|
                    0 <= j < 4 ==> (#[trigger] cells[j]).x == piece@.cell(j).0 && cells[j].y
                        == piece@.cell(j).1,
                forall|j: int|
                    0 <= j < i ==> on_grid((#[trigger] piece@.cell(j)).0, piece@.cell(j).1)
                        && self.at(piece@.cell(j).0, piece@.cell(j).1) is None,
            decreases 4 - i,
        {
            let coord = cells[i];
            if !(Self::on_matrix(coord) && self.read(coord).is_none()) {
                assert(!(on_grid(piece@.cell(i as int).0, piece@.cell(i as int).1) && self.at(
                    piece@.cell(i as int).0,
                    piece@.cell(i as int).1,
                ) is None));
                return false;
            }
            i = i + 1;
        }
        true
    }

    /// A piece can be set down exactly when it does not collide.
    pub proof fn lemma_admits_iff_not_clips(&self, piece: PieceView)
        ensures
            self.admits(piece) <==> !self.clips(piece),
    {
    }

    /// A piece whose anchor lies outside the range of the signed machine word
    /// collides.
    pub proof fn lemma_unreachable_anchor_clips(&self, piece: PieceView)
        requires
            !(isize::MIN <= piece.x <= isize::MAX && isize::MIN <= piece.y <= isize::MAX),
        ensures
            self.clips(piece),
    {
        assert(!on_grid(piece.cell(0).0, piece.cell(0).1));
    }

    /// A piece that does not collide is anchored on the field's rows: every
    /// kind has a cell in the row of its anchor.
    pub proof fn lemma_free_piece_is_anchored_above_floor(&self, piece: PieceView)
        requires
            !self.clips(piece),
        ensures
            0 <= piece.y < HEIGHT,
    {
        let i = match piece.kind {
            Kind::Z => 2int,
            _ => 0int,
        };
        assert(on_grid(piece.cell(i).0, piece.cell(i).1));
    }

    /// A piece that falls from where it does not collide rests where it does
    /// not collide, and one that can go down a row does so.
    pub proof fn lemma_resting_is_free(&self, piece: PieceView)
        requires
            !self.clips(piece) || !self.clips(piece.moved(0, -1)),
        ensures
            self.admits(self.resting(piece)),
            self.clips(self.resting(piece).moved(0, -1)),
        decreases piece.y,
    {
        if !self.clips(piece.moved(0, -1)) {
            self.lemma_free_piece_is_anchored_above_floor(piece.moved(0, -1));
            self.lemma_resting_is_free(piece.moved(0, -1));
        }
    }

    /// A piece whose four cells are all on the field and empty can be set
    /// down and does not collide.
    pub proof fn lemma_free_cells_admit(&self, piece: PieceView)
        requires
            forall|i: int|
                0 <= i < 4 ==> on_grid((#[trigger] piece.cells()[i]).0, piece.cells()[i].1)
                    && self.at(piece.cells()[i].0, piece.cells()[i].1) is None,
        ensures
            self.admits(piece),
            !self.clips(piece),
    {
        assert forall|i: int| 0 <= i < 4 implies on_grid((#[trigger] piece.cell(i)).0, piece.cell(i).1)
            && self.at(piece.cell(i).0, piece.cell(i).1) is None by {
            assert(piece.cells()[i] == piece.cell(i));
        }
    }

    /// The `k`-th entry of the field in row-major order: the coordinate and
    /// what its cell holds.
    pub open spec fn entry(&self, k: int) -> (Coordinate, Option<Color>) {
        (
            Coordinate { x: (k % (WIDTH as int)) as usize, y: (k / (WIDTH as int)) as usize },
            self.at(k % (WIDTH as int), k / (WIDTH as int)),
        )
    }

    /// A traversal of the field from its first cell.
    pub fn cells(&self) -> (iter: CellIter<'_>)
        ensures
            iter.matrix() == *self,
            iter.yielded() == 0,
    {
        CellIter { position: Coordinate::origin(), matrix: self }
    }
}

impl std::ops::Index<Coordinate> for Matrix {
    type Output = Option<Color>;

    /// What the cell holds: `matrix[coord]` reads it.
    fn index(&self, coord: Coordinate) -> (cell: &Option<Color>)
        ensures
            *cell == self.at(coord.x as int, coord.y as int),
    {
        &self.cells[Self::indexing(coord)]
    }
}

impl vstd::std_specs::core::IndexSpecImpl<Coordinate> for Matrix {
    /// Only a cell on the field can be read.
    open spec fn index_req(&self, coord: &Coordinate) -> bool {
        coord.in_bounds()
    }
}

impl IndexMut<Coordinate> for Matrix {
    /// The cell, to be written, as in `matrix[coord] = value`: what is put
    /// there is what the cell holds afterwards, and every other cell stays as
    /// it was.
    fn index_mut(&mut self, coord: Coordinate) -> (cell: &mut Option<Color>)
        requires
            coord.in_bounds(),
        ensures
            *cell == old(self).at(coord.x as int, coord.y as int),
            final(self).at(coord.x as int, coord.y as int) == *final(cell),
            forall|x: int, y: int|
                on_grid(x, y) && (x, y) != (coord.x as int, coord.y as int)
                    ==> #[trigger] final(self).at(x, y) == old(self).at(x, y),
    {
        let index = Self::indexing(coord);
        &mut self.cells[index]
    }
}

/// A traversal of the field cell by cell: row by row from the floor upwards,
/// each row from left to right.
pub struct CellIter<'matrix> {
    position: Coordinate,
    matrix: &'matrix Matrix,
}

impl<'matrix> CellIter<'matrix> {
    #[verifier::type_invariant]
    spec fn within_field(self) -> bool {
        &&& self.position.x < WIDTH
        &&& self.position.y <= HEIGHT
        &&& self.position.y == HEIGHT ==> self.position.x == 0
    }

    /// The field that is traversed.
    pub closed spec fn matrix(&self) -> Matrix {
        *self.matrix
    }

    /// How many entries the traversal has handed out.
    pub closed spec fn yielded(&self) -> int {
        self.position.flat()
    }

    /// The next entry, or `None` once every cell was handed out.
    pub fn next(&mut self) -> (item: Option<(Coordinate, Option<Color>)>)
        ensures
            final(self).matrix() == old(self).matrix(),
            0 <= old(self).yielded() <= SIZE,
            old(self).yielded() < SIZE ==> item == Some(
                old(self).matrix().entry(old(self).yielded()),
            ) && final(self).yielded() == old(self).yielded() + 1,
            old(self).yielded() == SIZE ==> item is None && final(self).yielded() == SIZE,
    {
        proof {
            use_type_invariant(&*self);
        }
        let coord = self.position;
        if !Matrix::on_matrix(coord) {
            return None;
        }
        let cell = self.matrix.read(coord);
        let mut position = self.position;
        position.grid_inc();
        self.position = position;
        Some((coord, cell))
    }

    /// Every entry that is left, in order.
    pub fn rest(&mut self) -> (entries: Vec<(Coordinate, Option<Color>)>)
        ensures
            final(self).matrix() == old(self).matrix(),
            final(self).yielded() == SIZE,
            entries.len() == SIZE - old(self).yielded(),
            forall|i: int|
                0 <= i < entries.len() ==> #[trigger] entries[i] == old(self).matrix().entry(
                    old(self).yielded() + i,
                ),
    {
        proof {
            use_type_invariant(&*self);
        }
        let mut entries: Vec<(Coordinate, Option<Color>)> = Vec::new();
        loop
            invariant
                self.matrix() == old(self).matrix(),
                old(self).yielded() <= self.yielded() <= SIZE,
                entries.len() == self.yielded() - old(self).yielded(),
                forall|i: int|
                    0 <= i < entries.len() ==> #[trigger] entries[i] == old(self).matrix().entry(
                        old(self).yielded() + i,
                    ),
            ensures
                self.yielded() == SIZE,
            decreases SIZE - self.yielded(),
        {
            match self.next() {
                Some(entry) => entries.push(entry),
                None => break ,
            }
        }
        entries
    }
}

} // verus!
