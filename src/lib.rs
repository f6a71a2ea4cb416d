//! Pseudo-legal move generation on an 8×8 chess board.
//!
//! A [`Board`] is built from square records, then asked for the destinations of one
//! square ([`Board::get_moves`], [`Board::moves_at`]) or of every piece of one side
//! ([`Board::get_available_moves`]). Whether a move leaves the mover's king in check is
//! not considered; kings, castling and en passant are not generated.
use vstd::prelude::*;

pub mod board;
pub mod decode;
pub mod laws;
pub mod square;

pub use board::Board;
pub use decode::{BoardError, SquareRecord};
pub use square::{Move, PlayerName, Square, SquareContent};

verus! {

} // verus!
