//! Grid coordinates and signed offsets.
//!
//! A [`Coordinate`] names a cell by unsigned column and row; an [`Offset`] is
//! a signed displacement, also used for the anchor of a piece, which may lie
//! outside the field. Row 0 is the floor and rows grow upwards.

use cgmath::Vector2;
use vstd::prelude::*;

verus! {

/// Number of columns of the playing field.
pub const WIDTH: usize = 10;

/// Number of rows of the playing field.
pub const HEIGHT: usize = 20;

/// Number of cells of the playing field.
pub const SIZE: usize = 200;

/// A cell position: column `x`, row `y`.
#[derive(Clone, Copy, Debug, PartialEq, Eq, Structural)]
pub struct Coordinate {
    pub x: usize,
    pub y: usize,
}

/// A signed displacement, or the anchor of a piece.
#[derive(Clone, Copy, Debug, PartialEq, Eq, Structural)]
pub struct Offset {
    pub x: isize,
    pub y: isize,
}

/// Whether column `x`, row `y` lies on the playing field.
pub open spec fn on_grid(x: int, y: int) -> bool {
    0 <= x < WIDTH && 0 <= y < HEIGHT
}

/// Position of column `x`, row `y` in row-major order.
pub open spec fn flat_index(x: int, y: int) -> int {
    y * WIDTH + x
}

/// Component-wise sum by `cgmath`'s `Add` for `Vector2<isize>`, which adds
/// the two `x` and the two `y` with `+`. The contract leaves out the sums that
/// do not fit an `isize`, on which `+` overflows.
#[verifier::external_body]
fn vector_sum(a: Offset, b: Offset) -> (sum: Offset)
    requires
        isize::MIN <= a.x + b.x <= isize::MAX,
        isize::MIN <= a.y + b.y <= isize::MAX,
    ensures
        sum.x == a.x + b.x,
        sum.y == a.y + b.y,
{
    let v = Vector2::new(a.x, a.y) + Vector2::new(b.x, b.y);
    Offset { x: v.x, y: v.y }
}

/// Component-wise conversion by `cgmath`'s `Vector2::cast` to `usize`, which
/// yields a vector exactly when no component is negative and then keeps both
/// values.
#[verifier::external_body]
fn vector_cast(v: Offset) -> (cell: Option<Coordinate>)
    ensures
        cell == v.as_cell(),
{
    Vector2::new(v.x, v.y).cast::<usize>().map(|u| Coordinate { x: u.x, y: u.y })
}

impl Coordinate {
    pub fn new(x: usize, y: usize) -> (c: Coordinate)
        ensures
            c.x == x,
            c.y == y,
    {
        Coordinate { x, y }
    }

    /// The cell in the bottom-left corner.
    pub fn origin() -> (c: Coordinate)
        ensures
            c.x == 0,
            c.y == 0,
    {
        Coordinate { x: 0, y: 0 }
    }

    /// Whether the cell lies on the playing field.
    pub open spec fn in_bounds(self) -> bool {
        on_grid(self.x as int, self.y as int)
    }

    /// Position of the cell in row-major order.
    pub open spec fn flat(self) -> int {
        flat_index(self.x as int, self.y as int)
    }

    /// Steps to the next cell in row-major order: one column to the right, or
    /// the first column of the row above after the last column.
    pub fn grid_inc(&mut self)
        requires
            old(self).in_bounds(),
        ensures
            final(self).x < WIDTH,
            final(self).flat() == old(self).flat() + 1,
    {
        self.x = (self.x + 1) % WIDTH;
        if self.x == 0 {
            self.y = self.y + 1;
        }
    }
}

impl Offset {
    pub fn new(x: isize, y: isize) -> (o: Offset)
        ensures
            o.x == x,
            o.y == y,
    {
        Offset { x, y }
    }

    /// Whether both components of `self + rhs` fit the signed machine word.
    pub open spec fn sum_fits(self, rhs: Offset) -> bool {
        &&& isize::MIN <= self.x + rhs.x <= isize::MAX
        &&& isize::MIN <= self.y + rhs.y <= isize::MAX
    }

    /// The component-wise sum, or `None` where a component does not fit.
    pub fn checked_sum(self, rhs: Offset) -> (sum: Option<Offset>)
        ensures
            sum is Some <==> self.sum_fits(rhs),
            sum is Some ==> sum->0.x == self.x + rhs.x && sum->0.y == self.y + rhs.y,
    {
        let x_fits = if rhs.x >= 0 {
            self.x <= isize::MAX - rhs.x
        } else {
            self.x >= isize::MIN - rhs.x
        };
        let y_fits = if rhs.y >= 0 {
            self.y <= isize::MAX - rhs.y
        } else {
            self.y >= isize::MIN - rhs.y
        };
        if x_fits && y_fits {
            Some(vector_sum(self, rhs))
        } else {
            None
        }
    }

    /// The cell that the offset names when taken from the origin; none where
    /// a component is negative.
    pub open spec fn as_cell(self) -> Option<Coordinate> {
        if self.x >= 0 && self.y >= 0 {
            Some(Coordinate { x: self.x as usize, y: self.y as usize })
        } else {
            None
        }
    }

    /// The cell that the offset names when taken from the origin, or `None`
    /// where a component is negative.
    pub fn to_coordinate(self) -> (cell: Option<Coordinate>)
        ensures
            cell == self.as_cell(),
    {
        vector_cast(self)
    }
}

impl From<(usize, usize)> for Coordinate {
    /// The cell in column `pair.0`, row `pair.1`.
    fn from(pair: (usize, usize)) -> (c: Coordinate) {
        Coordinate { x: pair.0, y: pair.1 }
    }
}

impl vstd::std_specs::convert::FromSpecImpl<(usize, usize)> for Coordinate {
    open spec fn obeys_from_spec() -> bool {
        true
    }

    open spec fn from_spec(pair: (usize, usize)) -> Coordinate {
        Coordinate { x: pair.0, y: pair.1 }
    }
}

impl From<(isize, isize)> for Offset {
    /// The offset of `pair.0` columns and `pair.1` rows.
    fn from(pair: (isize, isize)) -> (o: Offset) {
        Offset { x: pair.0, y: pair.1 }
    }
}

impl vstd::std_specs::convert::FromSpecImpl<(isize, isize)> for Offset {
    open spec fn obeys_from_spec() -> bool {
        true
    }

    open spec fn from_spec(pair: (isize, isize)) -> Offset {
        Offset { x: pair.0, y: pair.1 }
    }
}

} // verus!
