//! Chess rules for a game whose whole state is a fixed-size record: a board of
//! 64 squares, castling rights, the en passant target and the side to move.
//!
//! Piece encoding on the board:
//!   0 = empty,
//!   1 = white pawn, 2 = white knight, 3 = white bishop, 4 = white rook,
//!   5 = white queen, 6 = white king,
//!   7..=12 = the black pieces in the same order.
//!
//! Squares are numbered 0 (a1) to 63 (h8), rank-major: `sq = rank * 8 + file`.
use vstd::prelude::*;

pub mod board;
pub mod attack;
pub mod apply;
pub mod rules;
pub mod transition;
pub mod symmetry;
pub mod laws;

pub use apply::{apply_move, new_castling, new_ep_square, next_state};
pub use attack::{find_king, is_attacked_by, is_in_check};
pub use board::{is_black, is_empty, is_enemy, is_friendly, is_white, piece_type, rank, sq};
pub use rules::{is_valid_move, move_can_be_judged, move_can_be_played};
pub use transition::{validate_transition, TransitionError};

verus! {

/// The position a move is played from.
#[derive(Debug, Clone, PartialEq)]
pub struct GameState {
    pub board: [u8; 64],
    /// Castling rights bitmask:
    ///   bit 0 = white kingside, bit 1 = white queenside,
    ///   bit 2 = black kingside, bit 3 = black queenside.
    pub castling: u8,
    /// En passant target square, 255 = none.
    pub ep_square: u8,
    pub white_to_move: bool,
}

/// A move from one square to another.
#[derive(Debug, Clone, PartialEq)]
pub struct Move {
    pub from: u8,
    pub to: u8,
    /// 0 = none, 2 = knight, 3 = bishop, 4 = rook, 5 = queen.
    pub promotion: u8,
}

} // verus!
