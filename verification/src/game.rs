use vstd::prelude::*;

use crate::board::{Board, QuartoError};
use crate::position::Position;

verus! {

#[derive(Debug, Clone, Copy, PartialEq, Eq, Structural)]
pub enum GameState {
    Finished(GameResult),
    Continue,
}

#[derive(Debug, Clone, Copy, PartialEq, Eq, Structural)]
pub enum GameResult {
    Win(usize),
    Draw,
}

#[derive(Debug, Clone, Copy, PartialEq, Eq, Structural)]
pub enum GameError {
    QuartoError(QuartoError),
    FailedConnection,
    BadDisconnect,
    ConnectionTimeout,
}

impl From<QuartoError> for GameError {
    fn from(value: QuartoError) -> Self {
        GameError::QuartoError(value)
    }
}

impl vstd::std_specs::convert::FromSpecImpl<QuartoError> for GameError {
    open spec fn obeys_from_spec() -> bool {
        true
    }

    open spec fn from_spec(v: QuartoError) -> Self {
        GameError::QuartoError(v)
    }
}

/// One complete turn against `board`: nominate `piece`, place it on
/// `position`, then report whether the game goes on, was won by the placing
/// side `placer`, or ended in a draw with the pool exhausted. A full board
/// without a winning line is a draw, never an error.
pub fn play_turn(board: &mut Board, piece: usize, position: Position, placer: usize) -> (r: Result<
    GameState,
    GameError,
>)
    requires
        old(board).wf(),
    ensures
        final (board).wf(),
        match r {
            Ok(st) => {
                &&& old(board).can_nominate(piece)
                &&& old(board).with_nominated(piece).can_place(position.idx())
                &&& *final (board) == old(board).with_nominated(piece).after_place(position.idx())
                &&& st == (if final (board).spec_win() {
                    GameState::Finished(GameResult::Win(placer))
                } else if final (board).remaining_pieces == 0 {
                    GameState::Finished(GameResult::Draw)
                } else {
                    GameState::Continue
                })
            },
            Err(e) => {
                &&& (e == GameError::QuartoError(QuartoError::PieceNotAvailable) ==> !old(
                    board,
                ).can_nominate(piece) && *final (board) == *old(board))
                &&& (e == GameError::QuartoError(QuartoError::OccupiedSquare) ==> old(
                    board,
                ).can_nominate(piece) && old(board).occupied(position.idx()) && *final (board)
                    == (Board { nominated: None, ..*old(board) }))
                &&& (e == GameError::QuartoError(QuartoError::PieceNotAvailable) || e
                    == GameError::QuartoError(QuartoError::OccupiedSquare))
            },
        },
{
    match board.nominate_inplace(piece) {
        Ok(()) => (),
        Err(e) => {
            return Err(GameError::from(e));
        },
    }
    match board.place_inplace(position) {
        Ok(()) => (),
        Err(e) => {
            return Err(GameError::from(e));
        },
    }
    if board.detect_win() {
        return Ok(GameState::Finished(GameResult::Win(placer)));
    }
    if board.piece_bits() == 0 {
        Ok(GameState::Finished(GameResult::Draw))
    } else {
        Ok(GameState::Continue)
    }
}

/// Nominates piece `n` and places it at row `r`, column `c`; the caller
/// supplies a legal move.
pub fn play_piece(board: &mut Board, n: usize, r: usize, c: usize)
    requires
        old(board).wf(),
        old(board).can_nominate(n),
        r < 4,
        c < 4,
        !old(board).occupied((r * 4 + c) as int),
    ensures
        final (board).wf(),
        *final (board) == old(board).with_nominated(n).after_place((r * 4 + c) as int),
{
    match board.nominate_inplace(n) {
        Ok(()) => (),
        Err(_) => {
            return vstd::pervasive::unreached();
        },
    }
    let pos = match Position::from_coord(r, c) {
        Some(p) => p,
        None => vstd::pervasive::unreached(),
    };
    match board.place_inplace(pos) {
        Ok(()) => (),
        Err(_) => vstd::pervasive::unreached(),
    }
}

} // verus!
