use vstd::prelude::*;

verus! {

/// A piece, represented as its feature byte: one bit out of each of the four
/// feature pairs of `crate::feat::Feature`.
#[derive(Debug, Clone, Copy, PartialEq, Eq, Structural)]
pub struct Piece(pub u8);

} // verus!
