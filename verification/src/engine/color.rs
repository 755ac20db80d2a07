//! The colours of the pieces.

use vstd::prelude::*;

verus! {

/// What a filled cell shows: one colour for each kind of piece.
#[derive(Clone, Copy, Debug, PartialEq, Eq, Structural)]
pub enum Color {
    Yellow,
    Cyan,
    Purple,
    Orange,
    Blue,
    Green,
    Red,
}

} // verus!
