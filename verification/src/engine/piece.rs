//! Piece geometry: the seven kinds, their cell tables and colours, and the
//! cells that a piece covers at its anchor.

use crate::engine::color::Color;
use crate::engine::geometry::{Coordinate, Offset};
use vstd::prelude::*;

verus! {

/// The seven kinds of piece.
#[derive(Clone, Copy, Debug, PartialEq, Eq, Structural)]
pub enum Kind {
    O,
    I,
    T,
    L,
    J,
    S,
    Z,
}

/// The orientations of a piece. Only the orientation in which a piece enters
/// the field exists so far; the cell table is keyed by it so that others can
/// follow.
#[derive(Clone, Copy, Debug, PartialEq, Eq, Structural)]
pub enum Rotation {
    N,
}

/// A piece on or near the field: its kind, its orientation and its anchor.
#[derive(Clone, Copy, Debug, PartialEq, Eq, Structural)]
pub struct Piece {
    pub kind: Kind,
    pub rotation: Rotation,
    pub position: Offset,
}

/// A piece with its anchor as mathematical integers.
pub struct PieceView {
    pub kind: Kind,
    pub rotation: Rotation,
    pub x: int,
    pub y: int,
}

impl Kind {
    /// Every kind, once.
    pub const ALL: [Kind; 7] = [Kind::O, Kind::I, Kind::T, Kind::L, Kind::J, Kind::S, Kind::Z];

    /// Every kind, once, as a sequence.
    pub open spec fn all() -> Seq<Kind> {
        seq![Kind::O, Kind::I, Kind::T, Kind::L, Kind::J, Kind::S, Kind::Z]
    }

    /// The colour of the kind.
    pub open spec fn color_of(self) -> Color {
        match self {
            Kind::O => Color::Yellow,
            Kind::I => Color::Cyan,
            Kind::T => Color::Purple,
            Kind::L => Color::Orange,
            Kind::J => Color::Blue,
            Kind::S => Color::Green,
            Kind::Z => Color::Red,
        }
    }

    /// The cell table: where the four cells of the kind lie from the anchor,
    /// in the given orientation, as pairs of columns and rows.
    pub open spec fn offsets(self, rotation: Rotation) -> Seq<(int, int)> {
        match rotation {
            Rotation::N => match self {
                Kind::O => seq![(0, 0), (0, 1), (1, 0), (1, 1)],
                Kind::I => seq![(0, 0), (1, 0), (2, 0), (3, 0)],
                Kind::T => seq![(0, 0), (1, 0), (2, 0), (1, 1)],
                Kind::L => seq![(0, 0), (1, 0), (2, 0), (2, 1)],
                Kind::J => seq![(0, 0), (0, 1), (1, 0), (2, 0)],
                Kind::S => seq![(0, 0), (1, 0), (1, 1), (2, 1)],
                Kind::Z => seq![(0, 1), (1, 1), (1, 0), (2, 0)],
            },
        }
    }

    pub fn color(&self) -> (color: Color)
        ensures
            color == self.color_of(),
    {
        match self {
            Kind::O => Color::Yellow,
            Kind::I => Color::Cyan,
            Kind::T => Color::Purple,
            Kind::L => Color::Orange,
            Kind::J => Color::Blue,
            Kind::S => Color::Green,
            Kind::Z => Color::Red,
        }
    }

    /// The cell table of the kind in the given orientation.
    pub fn cells(&self, rotation: Rotation) -> (table: [Offset; 4])
        ensures
            forall|i: int|
                0 <= i < 4 ==> (#[trigger] table[i]).x == self.offsets(rotation)[i].0 && table[i].y
                    == self.offsets(rotation)[i].1,
    {
        let table: [(isize, isize); 4] = match rotation {
            Rotation::N => match self {
                Kind::O => [(0, 0), (0, 1), (1, 0), (1, 1)],
                Kind::I => [(0, 0), (1, 0), (2, 0), (3, 0)],
                Kind::T => [(0, 0), (1, 0), (2, 0), (1, 1)],
                Kind::L => [(0, 0), (1, 0), (2, 0), (2, 1)],
                Kind::J => [(0, 0), (0, 1), (1, 0), (2, 0)],
                Kind::S => [(0, 0), (1, 0), (1, 1), (2, 1)],
                Kind::Z => [(0, 1), (1, 1), (1, 0), (2, 0)],
            },
        };
        [
            Offset::new(table[0].0, table[0].1),
            Offset::new(table[1].0, table[1].1),
            Offset::new(table[2].0, table[2].1),
            Offset::new(table[3].0, table[3].1),
        ]
    }
}

impl PieceView {
    /// Column and row of the `i`-th cell of the piece.
    pub open spec fn cell(self, i: int) -> (int, int) {
        (
            self.x + self.kind.offsets(self.rotation)[i].0,
            self.y + self.kind.offsets(self.rotation)[i].1,
        )
    }

    /// The four cells that the piece covers.
    pub open spec fn cells(self) -> Seq<(int, int)> {
        Seq::new(4, |i: int| self.cell(i))
    }

    /// Whether the piece covers column `x`, row `y`.
    pub open spec fn covers(self, x: int, y: int) -> bool {
        exists|i: int| 0 <= i < 4 && #[trigger] self.cell(i) == (x, y)
    }

    /// The same piece with its anchor shifted by `dx` columns and `dy` rows.
    pub open spec fn moved(self, dx: int, dy: int) -> PieceView {
        PieceView { kind: self.kind, rotation: self.rotation, x: self.x + dx, y: self.y + dy }
    }

    /// Whether every cell of the piece can be written as a [`Coordinate`]:
    /// no component is negative, and none lies beyond the range of an anchor.
    pub open spec fn addressable(self) -> bool {
        forall|i: int|
            0 <= i < 4 ==> 0 <= (#[trigger] self.cell(i)).0 <= isize::MAX && 0 <= self.cell(i).1
                <= isize::MAX
    }
}

impl View for Piece {
    type V = PieceView;

    open spec fn view(&self) -> PieceView {
        PieceView {
            kind: self.kind,
            rotation: self.rotation,
            x: self.position.x as int,
            y: self.position.y as int,
        }
    }
}

impl Piece {
    /// Number of cells of every piece.
    pub const CELL_COUNT: usize = 4;

    /// The piece shifted by `offset`, or `None` where the shifted anchor does
    /// not fit the signed machine word.
    pub fn moved_by(&self, offset: Offset) -> (moved: Option<Piece>)
        ensures
            moved is Some <==> self.position.sum_fits(offset),
            moved is Some ==> moved->0@ == self@.moved(offset.x as int, offset.y as int),
    {
        match self.position.checked_sum(offset) {
            Some(position) => Some(Piece { kind: self.kind, rotation: self.rotation, position }),
            None => None,
        }
    }

    /// The cells that the piece covers, in the order of the cell table, or
    /// `None` where one of them cannot be written as a [`Coordinate`].
    pub fn cells(&self) -> (cells: Option<[Coordinate; 4]>)
        ensures
            cells is Some <==> self@.addressable(),
            cells is Some ==> forall|i: int|
                0 <= i < 4 ==> (#[trigger] cells->0[i]).x == self@.cell(i).0 && cells->0[i].y
                    == self@.cell(i).1,
    {
        let table = self.kind.cells(self.rotation);
        let mut cells = [Coordinate::origin();4];
        let mut i: usize = 0;
        while i < 4
            invariant
                0 <= i <= 4,
                forall|j: int|
                    0 <= j < 4 ==> (#[trigger] table[j]).x == self.kind.offsets(self.rotation)[j].0
                        && table[j].y == self.kind.offsets(self.rotation)[j].1,
                forall|j: int|
                    0 <= j < i ==> 0 <= (#[trigger] self@.cell(j)).0 <= isize::MAX && 0
                        <= self@.cell(j).1 <= isize::MAX,
                forall|j: int|
                    0 <= j < i ==> (#[trigger] cells[j]).x == self@.cell(j).0 && cells[j].y
                        == self@.cell(j).1,
            decreases 4 - i,
        {
            let Some(shifted) = self.position.checked_sum(table[i]) else {
                assert(!(0 <= self@.cell(i as int).0 <= isize::MAX && 0 <= self@.cell(i as int).1
                    <= isize::MAX));
                return None;
            };
            let Some(cell) = shifted.to_coordinate() else {
                assert(!(0 <= self@.cell(i as int).0 <= isize::MAX && 0 <= self@.cell(i as int).1
                    <= isize::MAX));
                return None;
            };
            cells[i] = cell;
            i = i + 1;
        }
        Some(cells)
    }
}

} // verus!
