//! Which moves the side to move may play.
use vstd::prelude::*;

use crate::apply::{apply_move, board_after, can_play};
use crate::attack::{
    at, attacked, diagonal_clear, diff, file_blocked, file_clear, has_king, in_check,
    is_attacked_by, is_in_check, knight_jump, rank_blocked, rank_clear, sliding_blocked, toward,
};
use crate::board::{
    dist, enemy_piece, file, is_black, is_empty, is_enemy, is_friendly, is_white, king_of, kind_of,
    own_piece, piece_type, rank, sq,
};
use crate::{GameState, Move};

verus! {

/// The promotion field fits the target rank: a piece to promote to (knight,
/// bishop, rook or queen) on the last rank, none elsewhere.
pub open spec fn promotion_fits(mv: Move, tr: int, promo_rank: int) -> bool {
    if tr == promo_rank { 2 <= mv.promotion <= 5 } else { mv.promotion == 0 }
}

/// A pawn move: one step forward onto an empty square, two steps forward from
/// the starting rank over two empty squares, or one step diagonally forward
/// onto an enemy piece or onto the en passant target.
pub open spec fn pawn_move_ok(st: GameState, mv: Move) -> bool {
    let b = st.board@;
    let w = st.white_to_move;
    let fr = mv.from as int / 8;
    let ff = mv.from as int % 8;
    let tr = mv.to as int / 8;
    let tf = mv.to as int % 8;
    let one = if w { fr + 1 } else { fr - 1 };
    let two = if w { fr + 2 } else { fr - 2 };
    let start_rank = if w { 1int } else { 6int };
    let promo_rank = if w { 7int } else { 0int };
    if tf == ff && tr == one && b[mv.to as int] == 0 {
        promotion_fits(mv, tr, promo_rank)
    } else if tf == ff && fr == start_rank && tr == two && b[mv.to as int] == 0 && at(b, one, ff) == 0 {
        mv.promotion == 0
    } else if dist(ff, tf) == 1 && tr == one && (enemy_piece(b[mv.to as int], w)
        || (st.ep_square != 255 && mv.to == st.ep_square)) {
        promotion_fits(mv, tr, promo_rank)
    } else {
        false
    }
}

/// A knight's jump onto a square not held by the mover.
pub open spec fn knight_move_ok(st: GameState, mv: Move) -> bool {
    &&& knight_jump(mv.from as int / 8, mv.from as int % 8, mv.to as int / 8, mv.to as int % 8)
    &&& !own_piece(st.board@[mv.to as int], st.white_to_move)
}

/// A diagonal move over empty squares onto a square not held by the mover.
pub open spec fn bishop_move_ok(b: Seq<u8>, mv: Move, white: bool) -> bool {
    let fr = mv.from as int / 8;
    let ff = mv.from as int % 8;
    let tr = mv.to as int / 8;
    let tf = mv.to as int % 8;
    &&& dist(fr, tr) == dist(ff, tf)
    &&& dist(fr, tr) != 0
    &&& !own_piece(b[mv.to as int], white)
    &&& diagonal_clear(b, fr, ff, toward(fr, tr), toward(ff, tf), dist(fr, tr))
}

/// A move along the rank or the file over empty squares onto a square not
/// held by the mover.
pub open spec fn rook_move_ok(b: Seq<u8>, mv: Move, white: bool) -> bool {
    let fr = mv.from as int / 8;
    let ff = mv.from as int % 8;
    let tr = mv.to as int / 8;
    let tf = mv.to as int % 8;
    &&& !own_piece(b[mv.to as int], white)
    &&& (fr == tr || ff == tf)
    &&& if fr == tr { rank_clear(b, fr, ff, tf) } else { file_clear(b, ff, fr, tr) }
}

/// The side to move still has the kingside (`kingside`) or the queenside
/// castling right.
pub open spec fn has_castling_right(st: GameState, kingside: bool) -> bool {
    let bit: u8 = if st.white_to_move {
        if kingside { 1 } else { 2 }
    } else {
        if kingside { 4 } else { 8 }
    };
    st.castling & bit != 0
}

/// A king move: one step in any direction onto a square not held by the
/// mover, or castling: two steps along the home rank from the e-file, with
/// the right kept, the squares between king and rook empty, the king not in
/// check, and the square it passes over not attacked.
pub open spec fn king_move_ok(st: GameState, mv: Move) -> bool {
    let b = st.board@;
    let w = st.white_to_move;
    let fr = mv.from as int / 8;
    let ff = mv.from as int % 8;
    let tr = mv.to as int / 8;
    let tf = mv.to as int % 8;
    let dr = dist(fr, tr);
    let df = dist(ff, tf);
    let home = if w { 0int } else { 7int };
    if dr == 0 && df == 2 {
        &&& fr == home
        &&& ff == 4
        &&& !in_check(b, w)
        &&& if tf == 6 {
            &&& has_castling_right(st, true)
            &&& at(b, home, 5) == 0
            &&& at(b, home, 6) == 0
            &&& !attacked(b, home * 8 + 5, !w)
        } else if tf == 2 {
            &&& has_castling_right(st, false)
            &&& at(b, home, 1) == 0
            &&& at(b, home, 2) == 0
            &&& at(b, home, 3) == 0
            &&& !attacked(b, home * 8 + 3, !w)
        } else {
            false
        }
    } else {
        dr <= 1 && df <= 1 && dr + df > 0 && !own_piece(b[mv.to as int], w)
    }
}

/// The moving piece may go from `mv.from` to `mv.to` by the rule of its kind.
pub open spec fn piece_rule(st: GameState, mv: Move) -> bool {
    let b = st.board@;
    let k = kind_of(b[mv.from as int]);
    let w = st.white_to_move;
    if k == 1 {
        pawn_move_ok(st, mv)
    } else if k == 2 {
        knight_move_ok(st, mv)
    } else if k == 3 {
        bishop_move_ok(b, mv, w)
    } else if k == 4 {
        rook_move_ok(b, mv, w)
    } else if k == 5 {
        bishop_move_ok(b, mv, w) || rook_move_ok(b, mv, w)
    } else if k == 6 {
        king_move_ok(st, mv)
    } else {
        false
    }
}

/// A legal move: a piece of the side to move goes where its rule lets it,
/// and afterwards the mover's king is not in check.
pub open spec fn move_is_valid(st: GameState, mv: Move) -> bool {
    &&& own_piece(st.board@[mv.from as int], st.white_to_move)
    &&& piece_rule(st, mv)
    &&& !in_check(board_after(st, mv), st.white_to_move)
}

/// The inputs on which a move can be judged: both squares exist, the piece
/// to move is not a black pawn on the first rank (its step forward leaves the
/// board), and a move that its piece's rule allows leaves a king of the mover
/// on the board to look at.
pub open spec fn can_judge(st: GameState, mv: Move) -> bool {
    &&& mv.from < 64
    &&& mv.to < 64
    &&& !(!st.white_to_move && st.board@[mv.from as int] == 7 && mv.from < 8)
    &&& (own_piece(st.board@[mv.from as int], st.white_to_move) && piece_rule(st, mv))
        ==> has_king(board_after(st, mv), st.white_to_move)
}

fn promotion_ok(mv: &Move, tr: u8, promo_rank: u8) -> (ok: bool)
    ensures
        ok == promotion_fits(*mv, tr as int, promo_rank as int),
{
    if tr == promo_rank {
        mv.promotion >= 2 && mv.promotion <= 5
    } else {
        mv.promotion == 0
    }
}

fn valid_pawn(state: &GameState, mv: &Move) -> (ok: bool)
    requires
        mv.from < 64,
        mv.to < 64,
        state.white_to_move || mv.from >= 8,
    ensures
        ok == pawn_move_ok(*state, *mv),
{
    let white = state.white_to_move;
    let start_rank: u8 = if white { 1 } else { 6 };
    let promo_rank: u8 = if white { 7 } else { 0 };
    let fr = rank(mv.from);
    let ff = file(mv.from);
    let tr = rank(mv.to);
    let tf = file(mv.to);
    let df = diff(ff, tf);
    let one: u8 = if white { fr + 1 } else { fr - 1 };

    // Single push
    if tf == ff && one == tr && is_empty(state.board[mv.to as usize]) {
        return promotion_ok(mv, tr, promo_rank);
    }
    // Double push
    let two_ok = if white { fr + 2 == tr } else { fr == tr + 2 };
    if tf == ff && fr == start_rank && two_ok && is_empty(state.board[mv.to as usize])
        && is_empty(state.board[sq(one, ff) as usize]) {
        return mv.promotion == 0;
    }
    // Diagonal capture
    if df == 1 && one == tr {
        let captures_enemy = is_enemy(state.board[mv.to as usize], white);
        let ep = state.ep_square != 255 && mv.to == state.ep_square;
        if captures_enemy || ep {
            return promotion_ok(mv, tr, promo_rank);
        }
    }
    false
}

fn valid_knight(state: &GameState, mv: &Move) -> (ok: bool)
    requires
        mv.from < 64,
        mv.to < 64,
    ensures
        ok == knight_move_ok(*state, *mv),
{
    let dr = diff(rank(mv.from), rank(mv.to));
    let df = diff(file(mv.from), file(mv.to));
    ((dr == 2 && df == 1) || (dr == 1 && df == 2)) && !is_friendly(
        state.board[mv.to as usize],
        state.white_to_move,
    )
}

fn valid_bishop(board: &[u8; 64], mv: &Move, white: bool) -> (ok: bool)
    requires
        mv.from < 64,
        mv.to < 64,
    ensures
        ok == bishop_move_ok(board@, *mv, white),
{
    let dr = diff(rank(mv.from), rank(mv.to));
    let df = diff(file(mv.from), file(mv.to));
    if dr != df || dr == 0 {
        return false;
    }
    if is_friendly(board[mv.to as usize], white) {
        return false;
    }
    let rs: i8 = if rank(mv.to) > rank(mv.from) { 1 } else { -1 };
    let fs: i8 = if file(mv.to) > file(mv.from) { 1 } else { -1 };
    !sliding_blocked(board, rank(mv.from), file(mv.from), rs, fs, dr)
}

fn valid_rook(board: &[u8; 64], mv: &Move, white: bool) -> (ok: bool)
    requires
        mv.from < 64,
        mv.to < 64,
    ensures
        ok == rook_move_ok(board@, *mv, white),
{
    if is_friendly(board[mv.to as usize], white) {
        return false;
    }
    let same_rank = rank(mv.from) == rank(mv.to);
    let same_file = file(mv.from) == file(mv.to);
    if !same_rank && !same_file {
        return false;
    }
    if same_rank {
        !rank_blocked(board, rank(mv.from), file(mv.from), file(mv.to))
    } else {
        !file_blocked(board, file(mv.from), rank(mv.from), rank(mv.to))
    }
}

fn valid_king(state: &GameState, mv: &Move) -> (ok: bool)
    requires
        mv.from < 64,
        mv.to < 64,
        // castling looks for the mover's king, to see whether it stands in check
        (mv.from / 8 == mv.to / 8 && dist(mv.from as int % 8, mv.to as int % 8) == 2 && mv.from
            == (if state.white_to_move { 4int } else { 60int })) ==> has_king(state.board@, state.white_to_move),
    ensures
        ok == king_move_ok(*state, *mv),
{
    let white = state.white_to_move;
    let dr = diff(rank(mv.from), rank(mv.to));
    let df = diff(file(mv.from), file(mv.to));

    // Castling
    if dr == 0 && df == 2 {
        let home_rank: u8 = if white { 0 } else { 7 };
        if rank(mv.from) != home_rank || file(mv.from) != 4 {
            return false;
        }
        if is_in_check(&state.board, white) {
            return false;
        }
        let tf = file(mv.to);
        if tf == 6 {
            let right = if white { state.castling & 1 != 0 } else { state.castling & 4 != 0 };
            return right && is_empty(state.board[sq(home_rank, 5) as usize]) && is_empty(
                state.board[sq(home_rank, 6) as usize],
            ) && !is_attacked_by(&state.board, sq(home_rank, 5), !white);
        } else if tf == 2 {
            let right = if white { state.castling & 2 != 0 } else { state.castling & 8 != 0 };
            return right && is_empty(state.board[sq(home_rank, 1) as usize]) && is_empty(
                state.board[sq(home_rank, 2) as usize],
            ) && is_empty(state.board[sq(home_rank, 3) as usize]) && !is_attacked_by(
                &state.board,
                sq(home_rank, 3),
                !white,
            );
        } else {
            return false;
        }
    }
    // Normal king move
    dr <= 1 && df <= 1 && (dr + df) > 0 && !is_friendly(state.board[mv.to as usize], white)
}

/// Whether the piece on `mv.from`, of the side to move, may go to `mv.to` by
/// the rule of its kind.
fn piece_may_move(state: &GameState, mv: &Move) -> (ok: bool)
    requires
        mv.from < 64,
        mv.to < 64,
        own_piece(state.board@[mv.from as int], state.white_to_move),
        !(!state.white_to_move && state.board@[mv.from as int] == 7 && mv.from < 8),
    ensures
        ok == piece_rule(*state, *mv),
{
    let white = state.white_to_move;
    match piece_type(state.board[mv.from as usize]) {
        1 => valid_pawn(state, mv),
        2 => valid_knight(state, mv),
        3 => valid_bishop(&state.board, mv, white),
        4 => valid_rook(&state.board, mv, white),
        5 => valid_bishop(&state.board, mv, white) || valid_rook(&state.board, mv, white),
        6 => {
            assert(has_king(state.board@, white)) by {
                assert(state.board@[mv.from as int] == king_of(white));
            }
            valid_king(state, mv)
        },
        _ => false,
    }
}

/// Whether `mv` is a legal move of the side to move in `state`.
pub fn is_valid_move(state: &GameState, mv: &Move) -> (res: bool)
    requires
        can_judge(*state, *mv),
    ensures
        res == move_is_valid(*state, *mv),
        res ==> can_play(*state, *mv),
{
    let piece = state.board[mv.from as usize];
    if piece == 0 {
        return false;
    }
    if state.white_to_move && !is_white(piece) {
        return false;
    }
    if !state.white_to_move && !is_black(piece) {
        return false;
    }
    let white = state.white_to_move;
    if !piece_may_move(state, mv) {
        return false;
    }
    // The move must not leave the mover's own king in check
    let new_board = apply_move(state, mv);
    !is_in_check(&new_board, white)
}

fn has_own_king(board: &[u8; 64], white: bool) -> (found: bool)
    ensures
        found == has_king(board@, white),
{
    let king = if white { 6u8 } else { 12u8 };
    let mut i: usize = 0;
    while i < 64
        invariant
            i <= 64,
            king == king_of(white),
            forall|j: int| 0 <= j < i ==> #[trigger] board@[j] != king_of(white),
        decreases 64 - i,
    {
        if board[i] == king {
            return true;
        }
        i = i + 1;
    }
    false
}

/// Whether `mv` can be played from `state` by `apply_move` and `next_state`
/// (see `can_play`).
pub fn move_can_be_played(state: &GameState, mv: &Move) -> (ok: bool)
    ensures
        ok == can_play(*state, *mv),
{
    if mv.from >= 64 || mv.to >= 64 {
        return false;
    }
    let piece = state.board[mv.from as usize];
    let pt = piece_type(piece);
    if pt == 1 && mv.to == state.ep_square && state.ep_square != 255 {
        let on_board = if state.white_to_move { mv.to >= 8 } else { mv.to < 56 };
        if !on_board {
            return false;
        }
    }
    !(pt == 1 && mv.promotion != 0 && !state.white_to_move && mv.promotion > 249)
}

/// Whether `mv` can be judged in `state` by `is_valid_move` and
/// `validate_transition` (see `can_judge`).
pub fn move_can_be_judged(state: &GameState, mv: &Move) -> (ok: bool)
    ensures
        ok == can_judge(*state, *mv),
{
    if mv.from >= 64 || mv.to >= 64 {
        return false;
    }
    let piece = state.board[mv.from as usize];
    let white = state.white_to_move;
    if !white && piece == 7 && mv.from < 8 {
        return false;
    }
    if !is_friendly(piece, white) || !piece_may_move(state, mv) {
        return true;
    }
    let new_board = apply_move(state, mv);
    has_own_king(&new_board, white)
}

} // verus!
