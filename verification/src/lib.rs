//! Rules-and-intelligence core of Quarto, a two-phase abstract strategy game
//! on a 4x4 grid: each of 16 uniquely-featured pieces is first nominated by
//! one player and then placed by the opponent. The crate provides the board
//! representation with its nomination and placement transitions, the win
//! detector over the 19 four-square lines, and a depth-limited adversarial
//! search that an automated player uses to choose its moves.

pub mod bits;
pub mod board;
pub mod feat;
pub mod game;
pub mod minimax;
pub mod piece;
pub mod place;
pub mod position;
