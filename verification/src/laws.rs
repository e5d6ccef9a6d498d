//! What each operation is for, stated square by square on the raw board
//! bytes: which squares a piece attacks and what blocks it, what a move
//! leaves on the board, when an en passant target is set, which castling
//! rights survive a move, and what a legal move of each piece looks like.
use vstd::prelude::*;

use crate::apply::{board_after, can_play, castling_after, ep_after, rights_of_square};
use crate::attack::{at, attacked, attacks_from, first_king, in_check, king_unique, walk, toward};
use crate::board::{black_piece, dist, enemy_piece, kind_of, own_piece, white_piece};
use crate::transition::{transition_verdict, TransitionError};
use crate::rules::move_is_valid;
use crate::{GameState, Move};

verus! {

// ---- pieces ----

/// Bytes 1 to 6 are the white pieces and 7 to 12 the black ones, in the
/// order pawn, knight, bishop, rook, queen, king; the kind of a black piece
/// is six less than its byte.
pub proof fn law_piece_bytes(p: u8, white: bool)
    ensures
        white_piece(p) == (1 <= p <= 6),
        black_piece(p) == (7 <= p <= 12),
        1 <= p <= 12 ==> kind_of(p) == (if p <= 6 { p } else { (p - 6) as u8 }),
        own_piece(p, white) == (if white { 1 <= p <= 6 } else { 7 <= p <= 12 }),
        enemy_piece(p, white) == (if white { 7 <= p <= 12 } else { 1 <= p <= 6 }),
{
}

/// The king square looked at for check holds the king, and no square before
/// it does.
pub proof fn law_first_king(b: Seq<u8>, k: int, white: bool, j: int)
    requires
        first_king(b, k, white),
        0 <= j < 64,
        b[j] == (if white { 6u8 } else { 12u8 }),
    ensures
        0 <= k <= j,
        b[k] == (if white { 6u8 } else { 12u8 }),
{
}

// ---- attacks ----

/// A pawn attacks exactly the two squares diagonally in front of it: one rank
/// up for white, one rank down for black, on a neighbouring file.
pub proof fn law_pawn_attacks(b: Seq<u8>, i: int, t: int, white: bool)
    requires
        b.len() == 64,
        0 <= i < 64,
        0 <= t < 64,
        b[i] == (if white { 1u8 } else { 7u8 }),
    ensures
        attacks_from(b, i, t, white) == (t / 8 == (if white { i / 8 + 1 } else { i / 8 - 1 }) && (t
            % 8 == i % 8 + 1 || t % 8 + 1 == i % 8)),
{
}

/// A knight attacks exactly the squares two ranks and one file, or one rank
/// and two files, away.
pub proof fn law_knight_attacks(b: Seq<u8>, i: int, t: int, white: bool)
    requires
        b.len() == 64,
        0 <= i < 64,
        0 <= t < 64,
        b[i] == 2 || b[i] == 8,
    ensures
        attacks_from(b, i, t, white) == ((dist(i / 8, t / 8) == 2 && dist(i % 8, t % 8) == 1) || (
        dist(i / 8, t / 8) == 1 && dist(i % 8, t % 8) == 2)),
{
}

/// A king attacks exactly its neighbouring squares.
pub proof fn law_king_attacks(b: Seq<u8>, i: int, t: int, white: bool)
    requires
        b.len() == 64,
        0 <= i < 64,
        0 <= t < 64,
        b[i] == 6 || b[i] == 12,
    ensures
        attacks_from(b, i, t, white) == (dist(i / 8, t / 8) <= 1 && dist(i % 8, t % 8) <= 1 && i != t),
{
}

/// An empty square, or a byte that is no piece, attacks nothing.
pub proof fn law_no_piece_attacks_nothing(b: Seq<u8>, i: int, t: int, white: bool)
    requires
        b.len() == 64,
        0 <= i < 64,
        b[i] == 0 || b[i] > 12,
    ensures
        !attacks_from(b, i, t, white),
{
}

/// A rook or a queen does not attack along its rank past an occupied square:
/// a piece on any square strictly between it and the target blocks it.
pub proof fn law_rank_attack_blocked(b: Seq<u8>, i: int, t: int, white: bool, m: int)
    requires
        b.len() == 64,
        0 <= i < 64,
        0 <= t < 64,
        b[i] == 4 || b[i] == 5 || b[i] == 10 || b[i] == 11,
        i / 8 == t / 8,
        i % 8 < m < t % 8 || t % 8 < m < i % 8,
        b[(i / 8) * 8 + m] != 0,
    ensures
        !attacks_from(b, i, t, white),
{
    assert(at(b, i / 8, m) != 0);
}

/// A rook or a queen does not attack along its file past an occupied square.
pub proof fn law_file_attack_blocked(b: Seq<u8>, i: int, t: int, white: bool, m: int)
    requires
        b.len() == 64,
        0 <= i < 64,
        0 <= t < 64,
        b[i] == 4 || b[i] == 5 || b[i] == 10 || b[i] == 11,
        i % 8 == t % 8,
        i / 8 < m < t / 8 || t / 8 < m < i / 8,
        b[m * 8 + i % 8] != 0,
    ensures
        !attacks_from(b, i, t, white),
{
    assert(at(b, m, i % 8) != 0);
}

/// A rook or a queen attacks every other square of its rank and of its file
/// when the squares strictly between are empty.
pub proof fn law_line_attack_open(b: Seq<u8>, i: int, t: int, white: bool)
    requires
        b.len() == 64,
        0 <= i < 64,
        0 <= t < 64,
        i != t,
        b[i] == 4 || b[i] == 5 || b[i] == 10 || b[i] == 11,
        i / 8 == t / 8 || i % 8 == t % 8,
        forall|s: int|
            0 <= s < 64 && i / 8 == t / 8 && s / 8 == i / 8 && (i % 8 < s % 8 < t % 8 || t % 8 < s % 8 < i % 8)
                ==> #[trigger] b[s] == 0,
        forall|s: int|
            0 <= s < 64 && i % 8 == t % 8 && s % 8 == i % 8 && (i / 8 < s / 8 < t / 8 || t / 8 < s / 8 < i / 8)
                ==> #[trigger] b[s] == 0,
    ensures
        attacks_from(b, i, t, white),
{
    let r = i / 8;
    let f = i % 8;
    assert forall|m: int| (f < m < t % 8 || t % 8 < m < f) && r == t / 8 implies #[trigger] at(b, r, m) == 0 by {
        let s = r * 8 + m;
        assert(s / 8 == r && s % 8 == m);
    }
    assert forall|m: int| (r < m < t / 8 || t / 8 < m < r) && f == t % 8 implies #[trigger] at(b, m, f) == 0 by {
        let s = m * 8 + f;
        assert(s / 8 == m && s % 8 == f);
    }
}

/// A rook attacks nothing off its rank and its file.
pub proof fn law_rook_stays_on_lines(b: Seq<u8>, i: int, t: int, white: bool)
    requires
        b.len() == 64,
        0 <= i < 64,
        0 <= t < 64,
        b[i] == 4 || b[i] == 10,
        i / 8 != t / 8,
        i % 8 != t % 8,
    ensures
        !attacks_from(b, i, t, white),
{
}

/// A bishop or a queen does not attack along a diagonal past an occupied
/// square: the piece `s` steps from it towards the target blocks it.
pub proof fn law_diagonal_attack_blocked(b: Seq<u8>, i: int, t: int, white: bool, s: int)
    requires
        b.len() == 64,
        0 <= i < 64,
        0 <= t < 64,
        b[i] == 3 || b[i] == 5 || b[i] == 9 || b[i] == 11,
        dist(i / 8, t / 8) == dist(i % 8, t % 8),
        1 <= s < dist(i / 8, t / 8),
        b[(if t / 8 > i / 8 { i / 8 + s } else { i / 8 - s }) * 8 + (if t % 8 > i % 8 { i % 8 + s } else { i % 8 - s })] != 0,
    ensures
        !attacks_from(b, i, t, white),
{
    let r = i / 8;
    let f = i % 8;
    assert(at(b, walk(r, toward(r, t / 8), s), walk(f, toward(f, t % 8), s)) != 0);
}

/// A bishop or a queen attacks every other square of its diagonals when the
/// squares strictly between are empty.
pub proof fn law_diagonal_attack_open(b: Seq<u8>, i: int, t: int, white: bool)
    requires
        b.len() == 64,
        0 <= i < 64,
        0 <= t < 64,
        b[i] == 3 || b[i] == 5 || b[i] == 9 || b[i] == 11,
        dist(i / 8, t / 8) == dist(i % 8, t % 8),
        i != t,
        forall|q: int|
            0 <= q < 64 && dist(q / 8, i / 8) == dist(q % 8, i % 8) && (i / 8 < q / 8 < t / 8 || t / 8 < q / 8 < i / 8)
                && (i % 8 < q % 8 < t % 8 || t % 8 < q % 8 < i % 8) ==> #[trigger] b[q] == 0,
    ensures
        attacks_from(b, i, t, white),
{
    let r = i / 8;
    let f = i % 8;
    let d = dist(r, t / 8);
    assert forall|s: int| 1 <= s < d implies #[trigger] at(b, walk(r, toward(r, t / 8), s), walk(f, toward(f, t % 8), s)) == 0 by {
        let q = walk(r, toward(r, t / 8), s) * 8 + walk(f, toward(f, t % 8), s);
        assert(q / 8 == walk(r, toward(r, t / 8), s) && q % 8 == walk(f, toward(f, t % 8), s));
    }
}

/// A queen attacks nothing off its rank, its file and its diagonals.
pub proof fn law_queen_stays_on_lines(b: Seq<u8>, i: int, t: int, white: bool)
    requires
        b.len() == 64,
        0 <= i < 64,
        0 <= t < 64,
        b[i] == 5 || b[i] == 11,
        i / 8 != t / 8,
        i % 8 != t % 8,
        dist(i / 8, t / 8) != dist(i % 8, t % 8),
    ensures
        !attacks_from(b, i, t, white),
{
}

/// A bishop attacks nothing off its diagonals.
pub proof fn law_bishop_stays_on_diagonals(b: Seq<u8>, i: int, t: int, white: bool)
    requires
        b.len() == 64,
        0 <= i < 64,
        0 <= t < 64,
        b[i] == 3 || b[i] == 9,
        dist(i / 8, t / 8) != dist(i % 8, t % 8) || i == t,
    ensures
        !attacks_from(b, i, t, white),
{
}

/// With one king of a side at most, that side is in check exactly when the
/// square of its king is attacked by the other side.
pub proof fn law_check_is_attack_on_king(b: Seq<u8>, k: int, white: bool)
    requires
        b.len() == 64,
        0 <= k < 64,
        b[k] == (if white { 6u8 } else { 12u8 }),
        king_unique(b, white),
    ensures
        in_check(b, white) == attacked(b, k, !white),
{
    assert forall|j: int| 0 <= j < k implies #[trigger] b[j] != (if white { 6u8 } else { 12u8 }) by {}
    assert(first_king(b, k, white));
    if in_check(b, white) {
        let k2 = choose|k2: int| #[trigger] first_king(b, k2, white) && attacked(b, k2, !white);
        assert(k2 == k);
    }
}

// ---- playing a move ----

/// After a move its start square is empty.
pub proof fn law_move_empties_start(st: GameState, mv: Move)
    requires
        can_play(st, mv),
        mv.from != mv.to,
    ensures
        board_after(st, mv)[mv.from as int] == 0,
{
}

/// After a move its target square holds the moving piece, or, for a pawn
/// moving with a promotion `p`, the piece `p` of white or `p + 6` of black,
/// whether the pawn pushes or captures.
pub proof fn law_move_fills_target(st: GameState, mv: Move)
    requires
        can_play(st, mv),
        mv.from != mv.to,
    ensures
        board_after(st, mv)[mv.to as int] == (if (st.board@[mv.from as int] == 1 || st.board@[mv.from as int] == 7) && mv.promotion != 0 {
            if st.white_to_move { mv.promotion } else { (mv.promotion + 6) as u8 }
        } else {
            st.board@[mv.from as int]
        }),
{
}

/// A pawn moving onto the en passant target removes the pawn behind it.
pub proof fn law_en_passant_removes_victim(st: GameState, mv: Move)
    requires
        can_play(st, mv),
        mv.from != mv.to,
        st.board@[mv.from as int] == 1 || st.board@[mv.from as int] == 7,
        mv.to == st.ep_square,
    ensures
        board_after(st, mv)[if st.white_to_move { mv.to - 8 } else { mv.to + 8 }] == 0,
{
}

/// A king moving from the e-file to the g-file brings the rook from the
/// h-file to the f-file; to the c-file, the rook from the a-file to the
/// d-file.
pub proof fn law_castling_moves_rook(st: GameState, mv: Move)
    requires
        can_play(st, mv),
        st.board@[mv.from as int] == 6 || st.board@[mv.from as int] == 12,
        mv.from as int % 8 == 4,
    ensures
        mv.to as int % 8 == 6 ==> board_after(st, mv)[mv.from + 1] == st.board@[mv.from + 3]
            && board_after(st, mv)[mv.from + 3] == 0,
        mv.to as int % 8 == 2 ==> board_after(st, mv)[mv.from - 1] == st.board@[mv.from - 4]
            && board_after(st, mv)[mv.from - 4] == 0,
{
}

/// A move changes no other square than its start and target, the square
/// behind the en passant target when a pawn moves onto it, and the four
/// corner and middle squares of the home rank when a king moves from the
/// e-file.
pub proof fn law_move_frame(st: GameState, mv: Move, s: int)
    requires
        can_play(st, mv),
        0 <= s < 64,
        s != mv.from,
        s != mv.to,
        (st.board@[mv.from as int] == 1 || st.board@[mv.from as int] == 7) && mv.to == st.ep_square
            ==> s != (if st.white_to_move { mv.to - 8 } else { mv.to + 8 }),
        (st.board@[mv.from as int] == 6 || st.board@[mv.from as int] == 12) && mv.from as int % 8 == 4
            ==> s != mv.from - 4 && s != mv.from - 1 && s != mv.from + 1 && s != mv.from + 3,
    ensures
        board_after(st, mv)[s] == st.board@[s],
{
}

// ---- en passant target ----

/// An en passant target is set only by a pawn moving two ranks, on the rank
/// between and on the file the pawn started from; a pawn's two-rank step
/// always sets it; on one file it is the square passed over.
pub proof fn law_ep_target(mv: Move, b: Seq<u8>)
    requires
        mv.from < 64,
        mv.to < 64,
    ensures
        ep_after(mv, b) != 255 ==> (b[mv.from as int] == 1 || b[mv.from as int] == 7) && dist(
            mv.from as int / 8,
            mv.to as int / 8,
        ) == 2,
        ep_after(mv, b) != 255 ==> ep_after(mv, b) / 8 == (mv.from as int / 8 + mv.to as int / 8) / 2 && ep_after(mv, b) % 8 == mv.from as int % 8,
        (b[mv.from as int] == 1 || b[mv.from as int] == 7) && dist(mv.from as int / 8, mv.to as int / 8) == 2 ==> ep_after(mv, b) != 255,
        (b[mv.from as int] == 1 || b[mv.from as int] == 7) && dist(mv.from as int / 8, mv.to as int / 8) == 2 && mv.from as int % 8 == mv.to as int % 8
            ==> ep_after(mv, b) == (mv.from as int + mv.to as int) / 2,
        b[mv.from as int] != 1 && b[mv.from as int] != 7 ==> ep_after(mv, b) == 255,
{
    let fr = mv.from as int / 8;
    let tr = mv.to as int / 8;
    assert(((fr + tr) / 2) * 8 + mv.from as int % 8 < 64);
}

// ---- castling rights ----

/// A move that neither starts nor ends on e1, e8, a1, h1, a8 or h8 keeps
/// every castling right; each right survives exactly when neither its king's
/// square nor its rook's corner is touched; and a move touching one of those
/// squares keeps no bit above the four rights.
pub proof fn law_castling_rights(c: u8, mv: Move)
    ensures
        ({
            let s = set![0u8, 4u8, 7u8, 56u8, 60u8, 63u8];
            !s.contains(mv.from) && !s.contains(mv.to) ==> castling_after(c, mv) == c
        }),
        (castling_after(c, mv) & 1 != 0) == (c & 1 != 0 && mv.from != 4 && mv.to != 4 && mv.from != 7 && mv.to != 7),
        (castling_after(c, mv) & 2 != 0) == (c & 2 != 0 && mv.from != 4 && mv.to != 4 && mv.from != 0 && mv.to != 0),
        (castling_after(c, mv) & 4 != 0) == (c & 4 != 0 && mv.from != 60 && mv.to != 60 && mv.from != 63 && mv.to != 63),
        (castling_after(c, mv) & 8 != 0) == (c & 8 != 0 && mv.from != 60 && mv.to != 60 && mv.from != 56 && mv.to != 56),
        ({
            let s = set![0u8, 4u8, 7u8, 56u8, 60u8, 63u8];
            s.contains(mv.from) || s.contains(mv.to) ==> castling_after(c, mv) < 16
        }),
{
    let f = mv.from;
    let t = mv.to;
    let rf = rights_of_square(f);
    let rt = rights_of_square(t);
    let r = castling_after(c, mv);
    assert(r == (if rf | rt == 0 { c } else { c & !(rf | rt) & 0b1111 }));
    assert({
        &&& ((f != 0 && f != 4 && f != 7 && f != 56 && f != 60 && f != 63) && (t != 0 && t != 4 && t != 7 && t != 56 && t != 60 && t != 63)) ==> r == c
        &&& (r & 1 != 0) == (c & 1 != 0 && f != 4 && t != 4 && f != 7 && t != 7)
        &&& (r & 2 != 0) == (c & 2 != 0 && f != 4 && t != 4 && f != 0 && t != 0)
        &&& (r & 4 != 0) == (c & 4 != 0 && f != 60 && t != 60 && f != 63 && t != 63)
        &&& (r & 8 != 0) == (c & 8 != 0 && f != 60 && t != 60 && f != 56 && t != 56)
        &&& ((f == 0 || f == 4 || f == 7 || f == 56 || f == 60 || f == 63) || (t == 0 || t == 4 || t == 7 || t == 56 || t == 60 || t == 63)) ==> r < 16
    }) by (bit_vector)
        requires
            rf == (if f == 4 { 3u8 } else if f == 60 { 12u8 } else if f == 0 { 2u8 } else if f == 7 { 1u8 } else if f == 56 { 8u8 } else if f == 63 { 4u8 } else { 0u8 }),
            rt == (if t == 4 { 3u8 } else if t == 60 { 12u8 } else if t == 0 { 2u8 } else if t == 7 { 1u8 } else if t == 56 { 8u8 } else if t == 63 { 4u8 } else { 0u8 }),
            r == (if rf | rt == 0 { c } else { c & !(rf | rt) & 0b1111 }),
    ;
}

// ---- transitions ----

/// A claimed transition is refused as an illegal move exactly when the move
/// is not legal; for a legal move it is refused for the board when the new
/// board differs from the played one, else for the turn when the same side
/// is to move again, else for the castling rights, else for the en passant
/// target; otherwise it is accepted.
pub proof fn law_transition_verdict(old: GameState, mv: Move, new: GameState)
    ensures
        (transition_verdict(old, mv, new) == Err::<(), TransitionError>(TransitionError::IllegalMove)) == !move_is_valid(old, mv),
        move_is_valid(old, mv) ==> ((transition_verdict(old, mv, new) == Err::<(), TransitionError>(TransitionError::BoardMismatch))
            == (new.board@ != board_after(old, mv))),
        move_is_valid(old, mv) && new.board@ == board_after(old, mv) ==> ((transition_verdict(old, mv, new)
            == Err::<(), TransitionError>(TransitionError::TurnNotFlipped)) == (new.white_to_move == old.white_to_move)),
        move_is_valid(old, mv) && new.board@ == board_after(old, mv) && new.white_to_move != old.white_to_move
            ==> ((transition_verdict(old, mv, new) == Err::<(), TransitionError>(TransitionError::CastlingMismatch))
            == (new.castling != castling_after(old.castling, mv))),
        move_is_valid(old, mv) && new.board@ == board_after(old, mv) && new.white_to_move != old.white_to_move
            && new.castling == castling_after(old.castling, mv) ==> ((transition_verdict(old, mv, new)
            == Err::<(), TransitionError>(TransitionError::EnPassantMismatch)) == (new.ep_square != ep_after(mv, old.board@))),
        (transition_verdict(old, mv, new) is Ok) == (move_is_valid(old, mv) && new.board@ == board_after(old, mv)
            && new.white_to_move != old.white_to_move && new.castling == castling_after(old.castling, mv)
            && new.ep_square == ep_after(mv, old.board@)),
{
}

// ---- legal moves ----

/// A legal move moves a piece of the side to move, and does not land on a
/// piece of that side, unless a pawn moves onto the en passant target.
pub proof fn law_legal_move_pieces(st: GameState, mv: Move)
    requires
        move_is_valid(st, mv),
        mv.from < 64,
        mv.to < 64,
    ensures
        if st.white_to_move { 1 <= st.board@[mv.from as int] <= 6 } else { 7 <= st.board@[mv.from as int] <= 12 },
        (if st.white_to_move { 1 <= st.board@[mv.to as int] <= 6 } else { 7 <= st.board@[mv.to as int] <= 12 })
            ==> (st.board@[mv.from as int] == 1 || st.board@[mv.from as int] == 7) && mv.to == st.ep_square,
{
}

/// A legal pawn move goes forward: one rank onto an empty square of its
/// file, two ranks from its starting rank over an empty square onto an empty
/// square, or one rank diagonally onto a piece of the other side or onto the
/// en passant target; it names a knight, bishop, rook or queen exactly when
/// it reaches the last rank.
pub proof fn law_legal_pawn_move(st: GameState, mv: Move)
    requires
        move_is_valid(st, mv),
        mv.from < 64,
        mv.to < 64,
        st.board@[mv.from as int] == 1 || st.board@[mv.from as int] == 7,
    ensures
        ({
            let w = st.white_to_move;
            let b = st.board@;
            let fr = mv.from as int / 8;
            let tr = mv.to as int / 8;
            let step = if w { tr - fr } else { fr - tr };
            &&& mv.from as int % 8 == mv.to as int % 8 ==> b[mv.to as int] == 0 && (step == 1 || step == 2)
            &&& mv.from as int % 8 == mv.to as int % 8 && step == 2 ==> fr == (if w { 1int } else { 6int }) && b[(mv.from as int + mv.to as int) / 2] == 0
            &&& mv.from as int % 8 != mv.to as int % 8 ==> step == 1 && dist(mv.from as int % 8, mv.to as int % 8) == 1 && ((if w { 7 <= b[mv.to as int] <= 12 } else { 1 <= b[mv.to as int] <= 6 }) || mv.to == st.ep_square)
            &&& tr == (if w { 7int } else { 0int }) ==> 2 <= mv.promotion <= 5
            &&& tr != (if w { 7int } else { 0int }) ==> mv.promotion == 0
        }),
{
    let fr = mv.from as int / 8;
    let ff = mv.from as int % 8;
    assert(at(st.board@, if st.white_to_move { fr + 1 } else { fr - 1 }, ff as int) == st.board@[(if st.white_to_move { fr + 1 } else { fr - 1 }) * 8 + ff]);
}

/// A legal knight move jumps two ranks and one file, or one rank and two
/// files.
pub proof fn law_legal_knight_move(st: GameState, mv: Move)
    requires
        move_is_valid(st, mv),
        mv.from < 64,
        mv.to < 64,
        st.board@[mv.from as int] == 2 || st.board@[mv.from as int] == 8,
    ensures
        (dist(mv.from as int / 8, mv.to as int / 8) == 2 && dist(mv.from as int % 8, mv.to as int % 8) == 1) || (dist(mv.from as int / 8, mv.to as int / 8) == 1 && dist(mv.from as int % 8, mv.to as int % 8) == 2),
{
}

/// A legal rook move stays on its rank or file, a legal bishop move on a
/// diagonal, a legal queen move on one of them.
pub proof fn law_legal_slider_lines(st: GameState, mv: Move)
    requires
        move_is_valid(st, mv),
        mv.from < 64,
        mv.to < 64,
    ensures
        ({
            let p = st.board@[mv.from as int];
            let line = mv.from as int / 8 == mv.to as int / 8 || mv.from as int % 8 == mv.to as int % 8;
            let diagonal = dist(mv.from as int / 8, mv.to as int / 8) == dist(mv.from as int % 8, mv.to as int % 8);
            &&& (p == 4 || p == 10) ==> line
            &&& (p == 3 || p == 9) ==> diagonal
            &&& (p == 5 || p == 11) ==> line || diagonal
        }),
{
}

/// A legal move of a rook or a queen along a rank passes over empty squares
/// only.
pub proof fn law_legal_rank_move_clear(st: GameState, mv: Move, m: int)
    requires
        move_is_valid(st, mv),
        mv.from < 64,
        mv.to < 64,
        st.board@[mv.from as int] == 4 || st.board@[mv.from as int] == 10 || st.board@[mv.from as int] == 5 || st.board@[mv.from as int] == 11,
        mv.from as int / 8 == mv.to as int / 8,
        mv.from as int % 8 < m < mv.to as int % 8 || mv.to as int % 8 < m < mv.from as int % 8,
    ensures
        st.board@[(mv.from as int / 8) * 8 + m] == 0,
{
    assert(at(st.board@, mv.from as int / 8, m) == 0);
}

/// A legal move of a rook or a queen along a file passes over empty squares only.
pub proof fn law_legal_file_move_clear(st: GameState, mv: Move, m: int)
    requires
        move_is_valid(st, mv),
        mv.from < 64,
        mv.to < 64,
        st.board@[mv.from as int] == 4 || st.board@[mv.from as int] == 10 || st.board@[mv.from as int] == 5 || st.board@[mv.from as int] == 11,
        mv.from as int % 8 == mv.to as int % 8,
        mv.from as int / 8 < m < mv.to as int / 8 || mv.to as int / 8 < m < mv.from as int / 8,
    ensures
        st.board@[m * 8 + mv.from as int % 8] == 0,
{
    assert(at(st.board@, m, mv.from as int % 8) == 0);
}

/// A legal move of a bishop, or of a queen along a diagonal, passes over
/// empty squares only.
pub proof fn law_legal_diagonal_move_clear(st: GameState, mv: Move, s: int)
    requires
        move_is_valid(st, mv),
        mv.from < 64,
        mv.to < 64,
        st.board@[mv.from as int] == 3 || st.board@[mv.from as int] == 9 || ((st.board@[mv.from as int] == 5 || st.board@[mv.from as int] == 11) && mv.from as int / 8 != mv.to as int / 8 && mv.from as int % 8 != mv.to as int % 8),
        1 <= s < dist(mv.from as int / 8, mv.to as int / 8),
    ensures
        st.board@[(if mv.to as int / 8 > mv.from as int / 8 { mv.from as int / 8 + s } else { mv.from as int / 8 - s }) * 8 + (if mv.to as int % 8 > mv.from as int % 8 { mv.from as int % 8 + s } else { mv.from as int % 8 - s })] == 0,
{
    let r = mv.from as int / 8;
    let f = mv.from as int % 8;
    assert(at(st.board@, walk(r as int, toward(r as int, mv.to as int / 8), s), walk(f as int, toward(f as int, mv.to as int % 8), s)) == 0);
}

/// A legal king move steps to a neighbouring square, or castles: from its
/// home square, not in check, two files towards a rook whose right is kept,
/// over empty squares, the square it passes not attacked.
pub proof fn law_legal_king_move(st: GameState, mv: Move)
    requires
        move_is_valid(st, mv),
        mv.from < 64,
        mv.to < 64,
        st.board@[mv.from as int] == 6 || st.board@[mv.from as int] == 12,
    ensures
        ({
            let w = st.white_to_move;
            let b = st.board@;
            let f = mv.from as int;
            let c = st.castling;
            ||| dist(mv.from as int / 8, mv.to as int / 8) <= 1 && dist(mv.from as int % 8, mv.to as int % 8) <= 1 && mv.from != mv.to
            ||| {
                &&& f == (if w { 4int } else { 60int })
                &&& !in_check(b, w)
                &&& {
                    ||| mv.to == f + 2 && c & (if w { 1u8 } else { 4u8 }) != 0 && b[f + 1] == 0 && b[f + 2] == 0 && !attacked(b, f + 1, !w)
                    ||| mv.to == f - 2 && c & (if w { 2u8 } else { 8u8 }) != 0 && b[f - 1] == 0 && b[f - 2] == 0 && b[f - 3] == 0 && !attacked(b, f - 1, !w)
                }
            }
        }),
{
}

/// A pawn may step one rank forward onto an empty square, two ranks from its
/// starting rank over an empty square onto an empty square, or one rank
/// diagonally onto a piece of the other side or the en passant target,
/// naming a promotion piece exactly on the last rank, when its king is then
/// not in check.
pub proof fn law_pawn_moves_allowed(st: GameState, mv: Move)
    requires
        mv.from < 64,
        mv.to < 64,
        st.board@[mv.from as int] == (if st.white_to_move { 1u8 } else { 7u8 }),
        ({
            let w = st.white_to_move;
            let b = st.board@;
            let fr = mv.from as int / 8;
            let tr = mv.to as int / 8;
            let step = if w { tr - fr } else { fr - tr };
            let promo_ok = if tr == (if w { 7int } else { 0int }) { 2 <= mv.promotion <= 5 } else { mv.promotion == 0 };
            ||| mv.from as int % 8 == mv.to as int % 8 && step == 1 && b[mv.to as int] == 0 && promo_ok
            ||| mv.from as int % 8 == mv.to as int % 8 && step == 2 && fr == (if w { 1int } else { 6int }) && b[mv.to as int] == 0
                && b[(mv.from as int + mv.to as int) / 2] == 0 && mv.promotion == 0
            ||| dist(mv.from as int % 8, mv.to as int % 8) == 1 && step == 1 && promo_ok && ((if w { 7 <= b[mv.to as int] <= 12 } else { 1 <= b[mv.to as int] <= 6 })
                || (st.ep_square != 255 && mv.to == st.ep_square))
        }),
        !in_check(board_after(st, mv), st.white_to_move),
    ensures
        move_is_valid(st, mv),
{
    let fr = mv.from as int / 8;
    let ff = mv.from as int % 8;
    let one = if st.white_to_move { fr + 1 } else { fr - 1 };
    assert(at(st.board@, one, ff) == st.board@[one * 8 + ff]);
}

/// A knight may jump two ranks and one file, or one rank and two files, onto
/// a square not held by its side, when its king is then not in check.
pub proof fn law_knight_moves_allowed(st: GameState, mv: Move)
    requires
        mv.from < 64,
        mv.to < 64,
        st.board@[mv.from as int] == (if st.white_to_move { 2u8 } else { 8u8 }),
        (dist(mv.from as int / 8, mv.to as int / 8) == 2 && dist(mv.from as int % 8, mv.to as int % 8) == 1)
            || (dist(mv.from as int / 8, mv.to as int / 8) == 1 && dist(mv.from as int % 8, mv.to as int % 8) == 2),
        !(if st.white_to_move { 1 <= st.board@[mv.to as int] <= 6 } else { 7 <= st.board@[mv.to as int] <= 12 }),
        !in_check(board_after(st, mv), st.white_to_move),
    ensures
        move_is_valid(st, mv),
{
}

/// A rook or a queen may move along its rank or file over empty squares onto
/// another square not held by its side, when its king is then not in check.
pub proof fn law_line_moves_allowed(st: GameState, mv: Move)
    requires
        mv.from < 64,
        mv.to < 64,
        mv.from != mv.to,
        st.board@[mv.from as int] == (if st.white_to_move { 4u8 } else { 10u8 }) || st.board@[mv.from as int] == (if st.white_to_move { 5u8 } else { 11u8 }),
        mv.from as int / 8 == mv.to as int / 8 || mv.from as int % 8 == mv.to as int % 8,
        forall|q: int|
            0 <= q < 64 && ((q / 8 == mv.from as int / 8 && mv.from as int / 8 == mv.to as int / 8 && (mv.from as int % 8 < q % 8 < mv.to as int % 8 || mv.to as int % 8 < q % 8 < mv.from as int % 8))
                || (q % 8 == mv.from as int % 8 && mv.from as int % 8 == mv.to as int % 8 && (mv.from as int / 8 < q / 8 < mv.to as int / 8 || mv.to as int / 8 < q / 8 < mv.from as int / 8)))
                ==> #[trigger] st.board@[q] == 0,
        !(if st.white_to_move { 1 <= st.board@[mv.to as int] <= 6 } else { 7 <= st.board@[mv.to as int] <= 12 }),
        !in_check(board_after(st, mv), st.white_to_move),
    ensures
        move_is_valid(st, mv),
{
    let r = mv.from as int / 8;
    let f = mv.from as int % 8;
    let tr = mv.to as int / 8;
    let tf = mv.to as int % 8;
    assert forall|m: int| (f < m < tf || tf < m < f) && r == tr implies #[trigger] at(st.board@, r, m) == 0 by {
        let q = r * 8 + m;
        assert(q / 8 == r && q % 8 == m);
    }
    assert forall|m: int| (r < m < tr || tr < m < r) && f == tf implies #[trigger] at(st.board@, m, f) == 0 by {
        let q = m * 8 + f;
        assert(q / 8 == m && q % 8 == f);
    }
}

/// A bishop or a queen may move along a diagonal over empty squares onto
/// another square not held by its side, when its king is then not in check.
pub proof fn law_diagonal_moves_allowed(st: GameState, mv: Move)
    requires
        mv.from < 64,
        mv.to < 64,
        mv.from != mv.to,
        st.board@[mv.from as int] == (if st.white_to_move { 3u8 } else { 9u8 }) || st.board@[mv.from as int] == (if st.white_to_move { 5u8 } else { 11u8 }),
        dist(mv.from as int / 8, mv.to as int / 8) == dist(mv.from as int % 8, mv.to as int % 8),
        forall|q: int|
            0 <= q < 64 && dist(q / 8, mv.from as int / 8) == dist(q % 8, mv.from as int % 8)
                && (mv.from as int / 8 < q / 8 < mv.to as int / 8 || mv.to as int / 8 < q / 8 < mv.from as int / 8)
                && (mv.from as int % 8 < q % 8 < mv.to as int % 8 || mv.to as int % 8 < q % 8 < mv.from as int % 8)
                ==> #[trigger] st.board@[q] == 0,
        !(if st.white_to_move { 1 <= st.board@[mv.to as int] <= 6 } else { 7 <= st.board@[mv.to as int] <= 12 }),
        !in_check(board_after(st, mv), st.white_to_move),
    ensures
        move_is_valid(st, mv),
{
    let r = mv.from as int / 8;
    let f = mv.from as int % 8;
    let tr = mv.to as int / 8;
    let tf = mv.to as int % 8;
    let d = dist(r, tr);
    assert forall|s: int| 1 <= s < d implies #[trigger] at(st.board@, walk(r, toward(r, tr), s), walk(f, toward(f, tf), s)) == 0 by {
        let q = walk(r, toward(r, tr), s) * 8 + walk(f, toward(f, tf), s);
        assert(q / 8 == walk(r, toward(r, tr), s) && q % 8 == walk(f, toward(f, tf), s));
    }
}

/// A king may step onto a neighbouring square not held by its side when it
/// is then not in check.
pub proof fn law_king_steps_allowed(st: GameState, mv: Move)
    requires
        mv.from < 64,
        mv.to < 64,
        mv.from != mv.to,
        st.board@[mv.from as int] == (if st.white_to_move { 6u8 } else { 12u8 }),
        dist(mv.from as int / 8, mv.to as int / 8) <= 1,
        dist(mv.from as int % 8, mv.to as int % 8) <= 1,
        !(if st.white_to_move { 1 <= st.board@[mv.to as int] <= 6 } else { 7 <= st.board@[mv.to as int] <= 12 }),
        !in_check(board_after(st, mv), st.white_to_move),
    ensures
        move_is_valid(st, mv),
{
}

/// A king on its home square that is not in check may castle two files
/// towards a rook whose right is kept, over empty squares, when the square
/// it passes over is not attacked and it is not in check afterwards.
pub proof fn law_castling_allowed(st: GameState, mv: Move)
    requires
        mv.from == (if st.white_to_move { 4u8 } else { 60u8 }),
        mv.to < 64,
        st.board@[mv.from as int] == (if st.white_to_move { 6u8 } else { 12u8 }),
        !in_check(st.board@, st.white_to_move),
        ({
            let w = st.white_to_move;
            let b = st.board@;
            let f = mv.from as int;
            let c = st.castling;
            ||| mv.to == f + 2 && c & (if w { 1u8 } else { 4u8 }) != 0 && b[f + 1] == 0 && b[f + 2] == 0 && !attacked(b, f + 1, !w)
            ||| mv.to == f - 2 && c & (if w { 2u8 } else { 8u8 }) != 0 && b[f - 1] == 0 && b[f - 2] == 0 && b[f - 3] == 0 && !attacked(b, f - 1, !w)
        }),
        !in_check(board_after(st, mv), st.white_to_move),
    ensures
        move_is_valid(st, mv),
{
}

} // verus!
