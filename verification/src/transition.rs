//! Checking a claimed transition: an old state, a move and a new state are
//! accepted when the move is legal and the new state is exactly the one the
//! move leads to.
use vstd::prelude::*;

use crate::apply::{
    apply_move, board_after, can_play, castling_after, ep_after, lemma_castling_rights_only_drop,
    new_castling, new_ep_square,
};
use crate::attack::{attacked, attacks_from, has_king, in_check, king_unique};
use crate::board::{king_of, own_piece};
use crate::rules::{can_judge, is_valid_move, move_is_valid, piece_rule};
use crate::symmetry::lemma_board_after_keeps_king_unique;
use crate::{GameState, Move};

verus! {

/// Why a claimed transition is refused.
#[derive(Debug, Clone, Copy, PartialEq, Eq)]
pub enum TransitionError {
    /// The move is not legal in the old state.
    IllegalMove,
    /// The new board is not the board the move leads to.
    BoardMismatch,
    /// The side to move did not change.
    TurnNotFlipped,
    /// The new castling rights are not those the move leaves.
    CastlingMismatch,
    /// The new en passant target is not the one the move sets.
    EnPassantMismatch,
}

impl TransitionError {
    /// The message that describes the refusal.
    pub fn message(&self) -> (s: &'static str)
        ensures
            s@ == (match *self {
                TransitionError::IllegalMove => "illegal move"@,
                TransitionError::BoardMismatch => "new board state mismatch"@,
                TransitionError::TurnNotFlipped => "turn did not flip"@,
                TransitionError::CastlingMismatch => "castling rights mismatch"@,
                TransitionError::EnPassantMismatch => "en passant square mismatch"@,
            }),
    {
        match self {
            TransitionError::IllegalMove => "illegal move",
            TransitionError::BoardMismatch => "new board state mismatch",
            TransitionError::TurnNotFlipped => "turn did not flip",
            TransitionError::CastlingMismatch => "castling rights mismatch",
            TransitionError::EnPassantMismatch => "en passant square mismatch",
        }
    }
}

/// The verdict on a claimed transition: the first check that fails, in the
/// order legality, board, turn, castling rights, en passant target.
pub open spec fn transition_verdict(old: GameState, mv: Move, new: GameState) -> Result<(), TransitionError> {
    if !move_is_valid(old, mv) {
        Err(TransitionError::IllegalMove)
    } else if new.board@ != board_after(old, mv) {
        Err(TransitionError::BoardMismatch)
    } else if new.white_to_move != !old.white_to_move {
        Err(TransitionError::TurnNotFlipped)
    } else if new.castling != castling_after(old.castling, mv) {
        Err(TransitionError::CastlingMismatch)
    } else if new.ep_square != ep_after(mv, old.board@) {
        Err(TransitionError::EnPassantMismatch)
    } else {
        Ok(())
    }
}

fn same_board(a: &[u8; 64], b: &[u8; 64]) -> (eq: bool)
    ensures
        eq == (a@ == b@),
{
    let mut i: usize = 0;
    while i < 64
        invariant
            i <= 64,
            forall|j: int| 0 <= j < i ==> a@[j] == b@[j],
        decreases 64 - i,
    {
        if a[i] != b[i] {
            return false;
        }
        i = i + 1;
    }
    assert(a@ =~= b@);
    true
}

/// Checks that `new` is the state that the legal move `mv` leads to from
/// `old`, and says which check failed otherwise.
pub fn validate_transition(old: &GameState, mv: &Move, new: &GameState) -> (res: Result<(), TransitionError>)
    requires
        can_judge(*old, *mv),
    ensures
        res == transition_verdict(*old, *mv, *new),
{
    if !is_valid_move(old, mv) {
        return Err(TransitionError::IllegalMove);
    }
    let expected_board = apply_move(old, mv);
    if !same_board(&new.board, &expected_board) {
        return Err(TransitionError::BoardMismatch);
    }
    if new.white_to_move != !old.white_to_move {
        return Err(TransitionError::TurnNotFlipped);
    }
    if new.castling != new_castling(old.castling, mv) {
        return Err(TransitionError::CastlingMismatch);
    }
    if new.ep_square != new_ep_square(mv, &old.board) {
        return Err(TransitionError::EnPassantMismatch);
    }
    Ok(())
}

/// A legal move goes from a square holding a piece of the mover to another
/// square; afterwards the start square is empty, the target holds a piece of
/// the mover, and the mover's king is not in check.
pub proof fn lemma_legal_move_shape(st: GameState, mv: Move)
    requires
        can_judge(st, mv),
        move_is_valid(st, mv),
    ensures
        can_play(st, mv),
        mv.from != mv.to,
        own_piece(st.board@[mv.from as int], st.white_to_move),
        board_after(st, mv)[mv.from as int] == 0,
        own_piece(board_after(st, mv)[mv.to as int], st.white_to_move),
        !in_check(board_after(st, mv), st.white_to_move),
{

}

/// The state that a legal move leads to is accepted: the board, turn,
/// castling rights and en passant target computed for the move pass every
/// check.
pub proof fn lemma_successor_accepted(old: GameState, mv: Move, new: GameState)
    requires
        move_is_valid(old, mv),
        new.board@ == board_after(old, mv),
        new.white_to_move == !old.white_to_move,
        new.castling == castling_after(old.castling, mv),
        new.ep_square == ep_after(mv, old.board@),
    ensures
        transition_verdict(old, mv, new) == Ok::<(), TransitionError>(()),
{
}

/// A move accepts one new state at most: two accepted states agree on the
/// board, the turn, the castling rights and the en passant target.
pub proof fn lemma_accepted_state_unique(old: GameState, mv: Move, n1: GameState, n2: GameState)
    requires
        transition_verdict(old, mv, n1) is Ok,
        transition_verdict(old, mv, n2) is Ok,
    ensures
        n1.board@ == n2.board@,
        n1.white_to_move == n2.white_to_move,
        n1.castling == n2.castling,
        n1.ep_square == n2.ep_square,
{
}

/// An accepted transition plays a legal move of the side to move, hands the
/// turn to the other side, never gains a castling right, and leaves the
/// mover's king out of check.
pub proof fn lemma_accepted_transition(old: GameState, mv: Move, new: GameState)
    requires
        can_judge(old, mv),
        transition_verdict(old, mv, new) is Ok,
    ensures
        move_is_valid(old, mv),
        new.white_to_move == !old.white_to_move,
        new.castling & !old.castling == 0,
        new.board@[mv.from as int] == 0,
        own_piece(new.board@[mv.to as int], old.white_to_move),
        !in_check(new.board@, old.white_to_move),
{
    lemma_castling_rights_only_drop(old.castling, mv);
    lemma_legal_move_shape(old, mv);
}

/// A move that its piece's rule allows onto an occupied square is an attack
/// of that piece on the square.
pub proof fn lemma_capture_is_attack(st: GameState, mv: Move)
    requires
        mv.from < 64,
        mv.to < 64,
        own_piece(st.board@[mv.from as int], st.white_to_move),
        piece_rule(st, mv),
        st.board@[mv.to as int] != 0,
    ensures
        attacks_from(st.board@, mv.from as int, mv.to as int, st.white_to_move),
{
}

/// Exactly one square holds the king of the given side.
pub open spec fn one_king(b: Seq<u8>, white: bool) -> bool {
    has_king(b, white) && king_unique(b, white)
}

/// The en passant target is unset, or lies on the rank behind a pawn of the
/// other side that has just made a double step.
pub open spec fn ep_consistent(st: GameState) -> bool {
    let e = st.ep_square as int;
    ||| st.ep_square == 255
    ||| if st.white_to_move {
        e / 8 == 5 && st.board@[e - 8] == 7
    } else {
        e / 8 == 2 && st.board@[e + 8] == 1
    }
}

/// Kings are neither captured, removed nor created: from a position with one
/// king of each side, in which the king of the side not to move is not
/// attacked and the en passant target is consistent, an accepted transition
/// leads to a position with one king of each side.
pub proof fn lemma_accepted_transition_keeps_kings(old: GameState, mv: Move, new: GameState)
    requires
        can_judge(old, mv),
        transition_verdict(old, mv, new) is Ok,
        one_king(old.board@, true),
        one_king(old.board@, false),
        forall|k: int|
            0 <= k < 64 && old.board@[k] == king_of(!old.white_to_move) ==> !#[trigger] attacked(
                old.board@,
                k,
                old.white_to_move,
            ),
        ep_consistent(old),
    ensures
        one_king(new.board@, true),
        one_king(new.board@, false),
{
    let w = old.white_to_move;
    let b = old.board@;
    let a = board_after(old, mv);
    lemma_legal_move_shape(old, mv);
    assert(new.board@ == a);
    lemma_board_after_keeps_king_unique(old, mv, true);
    lemma_board_after_keeps_king_unique(old, mv, false);
    // the mover's king is still there
    assert(has_king(a, w));
    // the other king is neither taken nor removed
    let e = king_of(!w);
    let ke = choose|k: int| 0 <= k < 64 && #[trigger] b[k] == king_of(!w);
    assert(b[ke] == e);
    if ke == mv.to as int {
        lemma_capture_is_attack(old, mv);
        assert(attacked(b, ke, w));
    }
    let from = mv.from as int;
    let r = from / 8;
    if a[ke] != e {
        if r * 8 + 7 == ke && a[r * 8 + 5] == e {
        } else if r * 8 == ke && a[r * 8 + 3] == e {
        } else {
            assert(false);
        }
    }
    assert(has_king(a, !w));
    if w {
        assert(has_king(a, true));
        assert(has_king(a, false));
    } else {
        assert(has_king(a, false));
        assert(has_king(a, true));
    }
}

} // verus!
