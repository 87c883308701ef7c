use vstd::prelude::*;

use crate::piece::Piece;

verus! {

// Squares are numbered row-major:
//  0  1  2  3
//  4  5  6  7
//  8  9 10 11
// 12 13 14 15
#[derive(Debug, Clone, Copy)]
pub struct Position(usize);

impl Position {
    #[verifier::type_invariant]
    spec fn type_inv(self) -> bool {
        self.0 < 16
    }

    /// The square's row-major index.
    pub closed spec fn idx(self) -> int {
        self.0 as int
    }

    pub fn from_coord(row: usize, col: usize) -> (r: Option<Self>)
        ensures
            match r {
                Some(p) => row < 4 && col < 4 && p.idx() == row * 4 + col,
                None => !(row < 4 && col < 4),
            },
    {
        if row < 4 && col < 4 {
            Some(Position(row * 4 + col))
        } else {
            None
        }
    }

    pub fn to_index(&self) -> (r: usize)
        ensures
            r == self.idx(),
            r < 16,
    {
        proof {
            use_type_invariant(self);
        }
        self.0
    }
}

/// A piece together with the square it occupies.
#[derive(Debug, Clone, Copy)]
pub struct Placed(pub Piece, pub Position);

impl Placed {
    pub fn from_nominated(nominated: Piece, pos: Position) -> (r: Self)
        ensures
            r.0 == nominated,
            r.1 == pos,
    {
        Placed(nominated, pos)
    }
}

} // verus!
