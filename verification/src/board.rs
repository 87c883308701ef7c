use vstd::prelude::*;

use crate::bits::{
    bit_indices, collect_bit_indices, has_bit, lemma_bit_test, lemma_popcount_clear,
    lemma_popcount_max, lemma_popcount_set, lemma_popcount_zero, popcount, popcount16,
};
use crate::piece::Piece;
use crate::position::Position;

verus! {

broadcast use vstd::array::group_array_axioms;

/// Game state of one Quarto board: which squares are filled and by which
/// feature bytes, which pieces are still in the pool, and which piece (if
/// any) is currently nominated for placement.
///
/// A board reachable through `new`, `nominate` and `place` always satisfies
/// `wf`: the filled squares and the pool together account for all 16 pieces,
/// and a nominated piece is still in the pool.
#[derive(Debug, Clone, Copy)]
pub struct Board {
    pub placed: u16,
    pub board: [u8; 16],
    pub remaining_pieces: u16,
    pub nominated: Option<usize>,
}

#[derive(Debug, Clone, Copy, PartialEq, Eq, Structural)]
pub enum QuartoError {
    NoneNominated,
    PieceNotAvailable,
    OccupiedSquare,
}

impl Default for Board {
    fn default() -> (r: Self)
        ensures
            r == Board::empty_spec(),
            r.wf(),
    {
        Board::new()
    }
}

impl Board {
    /// Conservation of pieces and validity of the pending nomination; holds
    /// before and after every public operation.
    pub open spec fn wf(self) -> bool {
        &&& popcount16(self.placed) + popcount16(self.remaining_pieces) == 16
        &&& match self.nominated {
            Some(p) => p < 16 && has_bit(self.remaining_pieces, p as u16),
            None => true,
        }
    }

    /// Square `i` holds a piece.
    pub open spec fn occupied(self, i: int) -> bool {
        0 <= i < 16 && has_bit(self.placed, i as u16)
    }

    /// The piece on square `i`, if any.
    pub open spec fn square(self, i: int) -> Option<Piece> {
        if self.occupied(i) {
            Some(Piece(self.board[i]))
        } else {
            None
        }
    }

    /// `piece` names a piece that is still in the pool.
    pub open spec fn can_nominate(self, piece: usize) -> bool {
        piece < 16 && has_bit(self.remaining_pieces, piece as u16)
    }

    /// The board after nominating `piece`; only the nomination changes.
    pub open spec fn with_nominated(self, piece: usize) -> Board {
        Board { nominated: Some(piece), ..self }
    }

    /// A placement on square `i` is legal: a nomination is pending and the
    /// square is free.
    pub open spec fn can_place(self, i: int) -> bool {
        &&& self.nominated is Some
        &&& 0 <= i < 16
        &&& !has_bit(self.placed, i as u16)
    }

    /// The board after placing the nominated piece on square `i`: the square
    /// is filled with the piece's feature byte, the piece leaves the pool,
    /// and the nomination is cleared.
    pub open spec fn after_place(self, i: int) -> Board
        recommends
            self.wf(),
            self.can_place(i),
    {
        let nom = self.nominated.unwrap();
        Board {
            placed: self.placed | (1u16 << (i as u16)),
            board: vstd::array::spec_array_update(
                self.board,
                i,
                Self::piece_order_spec()[nom as int],
            ),
            remaining_pieces: self.remaining_pieces & !(1u16 << (nom as u16)),
            nominated: None,
        }
    }

    /// The all-empty starting board.
    pub open spec fn empty_spec() -> Board {
        Board {
            placed: 0,
            board: vstd::array::spec_array_fill_for_copy_type(0u8),
            remaining_pieces: 0xFFFFu16,
            nominated: None,
        }
    }

    /// Feature byte of each piece index, in the fixed catalog order.
    pub open spec fn piece_order_spec() -> Seq<u8> {
        seq![
            0b1010101u8,
            0b1010110,
            0b1011001,
            0b1011010,
            0b1100101,
            0b1100110,
            0b1101001,
            0b1101010,
            0b10010101,
            0b10010110,
            0b10011001,
            0b10011010,
            0b10100101,
            0b10100110,
            0b10101001,
            0b10101010,
        ]
    }

    /// Order of pieces in the game, each piece represented as a byte with a
    /// bit for each feature.
    pub fn piece_order() -> (r: [u8; 16])
        ensures
            r@ == Self::piece_order_spec(),
    {
        let r = [
            0b1010101, 0b1010110, 0b1011001, 0b1011010, 0b1100101, 0b1100110, 0b1101001, 0b1101010,
            0b10010101, 0b10010110, 0b10011001, 0b10011010, 0b10100101, 0b10100110, 0b10101001,
            0b10101010,
        ];
        proof {
            assert(r@ =~= Self::piece_order_spec());
        }
        r
    }

    /// The 19 winning lines as squares: 4 rows, 4 columns, the 2 diagonals,
    /// and the 9 axis-aligned 2x2 blocks.
    pub open spec fn quartos_spec() -> Seq<[usize; 4]> {
        seq![
            [0, 1, 2, 3],
            [4, 5, 6, 7],
            [8, 9, 10, 11],
            [12, 13, 14, 15],
            [0, 4, 8, 12],
            [1, 5, 9, 13],
            [2, 6, 10, 14],
            [3, 7, 11, 15],
            [0, 5, 10, 15],
            [3, 6, 9, 12],
            [0, 1, 4, 5],
            [1, 2, 5, 6],
            [2, 3, 6, 7],
            [4, 5, 8, 9],
            [5, 6, 9, 10],
            [6, 7, 10, 11],
            [8, 9, 12, 13],
            [9, 10, 13, 14],
            [10, 11, 14, 15],
        ]
    }

    pub fn quartos() -> (r: [[usize; 4]; 19])
        ensures
            r@ == Self::quartos_spec(),
    {
        let r = [
            [0, 1, 2, 3], // Rows
            [4, 5, 6, 7],
            [8, 9, 10, 11],
            [12, 13, 14, 15],
            [0, 4, 8, 12], // Cols
            [1, 5, 9, 13],
            [2, 6, 10, 14],
            [3, 7, 11, 15],
            [0, 5, 10, 15], // Back Diag
            [3, 6, 9, 12], // Forward Diag
            [0, 1, 4, 5], // Quads
            [1, 2, 5, 6],
            [2, 3, 6, 7],
            [4, 5, 8, 9],
            [5, 6, 9, 10],
            [6, 7, 10, 11],
            [8, 9, 12, 13],
            [9, 10, 13, 14],
            [10, 11, 14, 15],
        ];
        proof {
            assert(r@ =~= Self::quartos_spec());
        }
        r
    }

    pub fn new() -> (r: Self)
        ensures
            r == Self::empty_spec(),
            r.wf(),
    {
        let r = Board { placed: 0, board: [0; 16], remaining_pieces: u16::MAX, nominated: None };
        proof {
            lemma_popcount_zero();
            lemma_popcount_max();
            assert(r.board =~= Self::empty_spec().board);
        }
        r
    }

    pub fn board_bits(&self) -> (r: &[u8; 16])
        ensures
            r@ == self.board@,
    {
        &self.board
    }

    /// Mask of pieces which have not been placed.
    #[inline]
    pub fn piece_bits(&self) -> (r: u16)
        ensures
            r == self.remaining_pieces,
    {
        self.remaining_pieces
    }

    /// Indices of the pieces which have not been placed, in increasing order.
    #[inline]
    pub fn piece_indexes(&self) -> (r: Vec<usize>)
        ensures
            r@ == bit_indices(self.remaining_pieces),
    {
        collect_bit_indices(self.remaining_pieces)
    }

    /// Mask of squares holding a placed piece.
    #[inline]
    pub fn space_bits(&self) -> (r: u16)
        ensures
            r == self.placed,
    {
        self.placed
    }

    pub fn placed_count(&self) -> (r: usize)
        ensures
            r == popcount16(self.placed),
    {
        popcount(self.placed)
    }

    /// Indices of the squares with placed pieces, in increasing order.
    #[inline]
    pub fn taken_spaces(&self) -> (r: Vec<usize>)
        ensures
            r@ == bit_indices(self.placed),
    {
        collect_bit_indices(self.placed)
    }

    /// Indices of the free squares, in increasing order.
    #[inline]
    pub fn free_spaces(&self) -> (r: Vec<usize>)
        ensures
            r@ == bit_indices(!self.placed),
    {
        collect_bit_indices(!self.placed)
    }

    #[inline]
    pub fn nominated_index(&self) -> (r: Option<usize>)
        ensures
            r == self.nominated,
    {
        self.nominated
    }

    #[inline]
    pub fn nominated_piece(&self) -> (r: Option<Piece>)
        requires
            self.wf(),
        ensures
            match self.nominated {
                Some(p) => r == Some(Piece(Self::piece_order_spec()[p as int])),
                None => r is None,
            },
    {
        match self.nominated {
            Some(x) => {
                let order = Board::piece_order();
                Some(Piece(order[x]))
            },
            None => None,
        }
    }

    #[inline]
    pub fn get_square_position(&self, pos: Position) -> (r: Option<Piece>)
        ensures
            r == self.square(pos.idx()),
    {
        self.get_square_index(pos.to_index())
    }

    #[inline]
    pub fn get_square_index(&self, i: usize) -> (r: Option<Piece>)
        requires
            i < 16,
        ensures
            r == self.square(i as int),
    {
        proof {
            lemma_bit_test(self.placed, i as u16);
        }
        if self.placed & (1u16 << (i as u16)) != 0 {
            Some(Piece(self.board[i]))
        } else {
            None
        }
    }

    /// Mutates the current board into having a nominated piece.
    pub fn nominate_inplace(&mut self, piece: usize) -> (r: Result<(), QuartoError>)
        ensures
            match r {
                Ok(()) => old(self).can_nominate(piece) && *final (self) == old(
                    self,
                ).with_nominated(piece),
                Err(e) => e == QuartoError::PieceNotAvailable && !old(self).can_nominate(piece)
                    && *final (self) == *old(self),
            },
            old(self).wf() ==> final (self).wf(),
    {
        if piece < 16 {
            proof {
                lemma_bit_test(self.remaining_pieces, piece as u16);
            }
            if self.remaining_pieces & (1u16 << (piece as u16)) != 0 {
                self.nominated = Some(piece);
                return Ok(());
            }
        }
        Err(QuartoError::PieceNotAvailable)
    }

    /// Creates a new board from self with the nominated piece.
    pub fn nominate(&self, piece: usize) -> (r: Result<Board, QuartoError>)
        ensures
            match r {
                Ok(b) => self.can_nominate(piece) && b == self.with_nominated(piece) && (self.wf()
                    ==> b.wf()),
                Err(e) => e == QuartoError::PieceNotAvailable && !self.can_nominate(piece),
            },
    {
        let mut board = self.clone();
        match board.nominate_inplace(piece) {
            Ok(_) => Ok(board),
            Err(e) => Err(e),
        }
    }

    /// Mutates the current board by placing the nominated piece. On success
    /// the nomination is consumed; a placement on an occupied square also
    /// consumes it, leaving the rest of the board unchanged.
    pub fn place_inplace(&mut self, position: Position) -> (r: Result<(), QuartoError>)
        requires
            old(self).wf(),
        ensures
            final (self).wf(),
            match r {
                Ok(()) => old(self).can_place(position.idx()) && *final (self) == old(
                    self,
                ).after_place(position.idx()),
                Err(QuartoError::NoneNominated) => old(self).nominated is None && *final (self)
                    == *old(self),
                Err(QuartoError::OccupiedSquare) => old(self).nominated is Some && old(
                    self,
                ).occupied(position.idx()) && *final (self) == (Board {
                    nominated: None,
                    ..*old(self)
                }),
                Err(QuartoError::PieceNotAvailable) => false,
            },
    {
        let nom = match self.nominated {
            Some(n) => n,
            None => {
                return Err(QuartoError::NoneNominated);
            },
        };
        self.nominated = None;
        let i = position.to_index();
        proof {
            lemma_bit_test(self.placed, i as u16);
        }
        if self.placed & (1u16 << (i as u16)) != 0 {
            return Err(QuartoError::OccupiedSquare);
        }
        self.placed = self.placed | (1u16 << (i as u16));
        self.remaining_pieces = self.remaining_pieces & !(1u16 << (nom as u16));
        let order = Board::piece_order();
        self.board[i] = order[nom];
        proof {
            assert(self.board =~= old(self).after_place(i as int).board);
            lemma_place_preserves_wf(*old(self), i as int);
        }
        Ok(())
    }

    /// Creates a new board from self by placing the nominated piece.
    pub fn place(&self, position: Position) -> (r: Result<Board, QuartoError>)
        requires
            self.wf(),
        ensures
            match r {
                Ok(b) => self.can_place(position.idx()) && b == self.after_place(position.idx())
                    && b.wf(),
                Err(QuartoError::NoneNominated) => self.nominated is None,
                Err(QuartoError::OccupiedSquare) => self.nominated is Some && self.occupied(
                    position.idx(),
                ),
                Err(QuartoError::PieceNotAvailable) => false,
            },
    {
        let mut board = self.clone();
        match board.place_inplace(position) {
            Ok(_) => Ok(board),
            Err(e) => Err(e),
        }
    }

    /// The four squares are all occupied and their pieces share a feature.
    pub open spec fn line_win(self, q: [usize; 4]) -> bool {
        &&& self.occupied(q[0] as int)
        &&& self.occupied(q[1] as int)
        &&& self.occupied(q[2] as int)
        &&& self.occupied(q[3] as int)
        &&& self.board[q[0] as int] & self.board[q[1] as int] & self.board[q[2] as int]
            & self.board[q[3] as int] != 0
    }

    /// Some winning line is fully occupied by pieces sharing a feature.
    pub open spec fn spec_win(self) -> bool {
        exists|k: int| 0 <= k < 19 && self.line_win(#[trigger] Self::quartos_spec()[k])
    }

    pub fn check_four(&self, four: [usize; 4]) -> (r: bool)
        requires
            four[0] < 16,
            four[1] < 16,
            four[2] < 16,
            four[3] < 16,
        ensures
            r == self.line_win(four),
    {
        match (
            self.get_square_index(four[0]),
            self.get_square_index(four[1]),
            self.get_square_index(four[2]),
            self.get_square_index(four[3]),
        ) {
            (Some(a), Some(b), Some(c), Some(d)) => a.0 & b.0 & c.0 & d.0 != 0,
            _ => false,
        }
    }

    pub fn detect_win(&self) -> (r: bool)
        ensures
            r == self.spec_win(),
    {
        let qs = Board::quartos();
        let mut k: usize = 0;
        while k < 19
            invariant
                k <= 19,
                qs@ == Self::quartos_spec(),
                forall|k2: int| 0 <= k2 < k ==> !self.line_win(#[trigger] Self::quartos_spec()[k2]),
            decreases 19 - k,
        {
            let four = qs[k];
            if four[0] < 16 && four[1] < 16 && four[2] < 16 && four[3] < 16 {
                if self.check_four(four) {
                    proof {
                        assert(self.line_win(Self::quartos_spec()[k as int]));
                    }
                    return true;
                }
            }
            k += 1;
        }
        false
    }
}

/// Completing any of the 19 table lines with four pieces that share a
/// feature wins the board, whatever else stands on it.
pub proof fn lemma_complete_line_wins(b: Board, k: int)
    requires
        0 <= k < 19,
        b.line_win(Board::quartos_spec()[k]),
    ensures
        b.spec_win(),
{
}

/// A line whose four feature bytes share no feature bit never wins by
/// itself, even when fully occupied; other lines may still win the board.
pub proof fn lemma_no_shared_feature_no_line_win(b: Board, q: [usize; 4])
    requires
        b.board[q[0] as int] & b.board[q[1] as int] & b.board[q[2] as int] & b.board[q[3] as int]
            == 0,
    ensures
        !b.line_win(q),
{
}

/// Nominating a piece from the pool preserves the board invariant.
pub proof fn lemma_nominate_preserves_wf(b: Board, piece: usize)
    requires
        b.wf(),
        b.can_nominate(piece),
    ensures
        b.with_nominated(piece).wf(),
{
}

/// Placing the nominated piece on a free square preserves the board
/// invariant: one square joins the filled set exactly as one piece leaves
/// the pool.
pub proof fn lemma_place_preserves_wf(b: Board, i: int)
    requires
        b.wf(),
        b.can_place(i),
    ensures
        b.after_place(i).wf(),
{
    let nom = b.nominated.unwrap();
    lemma_popcount_set(b.placed, i as u16);
    lemma_popcount_clear(b.remaining_pieces, nom as u16);
}

} // verus!
