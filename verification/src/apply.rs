//! Playing a move: the board after it, the new en passant target, the
//! castling rights that remain, and the whole next state.
use vstd::prelude::*;

use crate::board::{dist, kind_of, file, piece_type, rank, sq};
use crate::{GameState, Move};

verus! {

/// The moving pawn takes en passant: a pawn moves onto the en passant target.
pub open spec fn takes_en_passant(st: GameState, mv: Move) -> bool {
    &&& kind_of(st.board@[mv.from as int]) == 1
    &&& mv.to == st.ep_square
    &&& st.ep_square != 255
}

/// The square of the pawn taken en passant: the one behind the target square,
/// seen from the side to move.
pub open spec fn en_passant_victim(st: GameState, mv: Move) -> int {
    if st.white_to_move { mv.to - 8 } else { mv.to + 8 }
}

/// A king moves from the e-file, which brings a rook along when it lands on
/// the c- or the g-file.
pub open spec fn king_from_e_file(st: GameState, mv: Move) -> bool {
    kind_of(st.board@[mv.from as int]) == 6 && mv.from % 8 == 4
}

/// What the moving pawn becomes on its target square.
pub open spec fn promoted_piece(st: GameState, mv: Move) -> u8 {
    if st.white_to_move { mv.promotion } else { (mv.promotion + 6) as u8 }
}

/// The board after `mv`: an en passant victim is removed, a castling rook
/// jumps over the king, the piece leaves its square for the target square, and
/// a promoting pawn is replaced.
pub open spec fn board_after(st: GameState, mv: Move) -> Seq<u8> {
    let b0 = st.board@;
    let from = mv.from as int;
    let to = mv.to as int;
    let piece = b0[from];
    let b1 = if takes_en_passant(st, mv) { b0.update(en_passant_victim(st, mv), 0) } else { b0 };
    let r = from / 8;
    let b2 = if king_from_e_file(st, mv) && to % 8 == 6 {
        b1.update(r * 8 + 5, b1[r * 8 + 7]).update(r * 8 + 7, 0)
    } else if king_from_e_file(st, mv) && to % 8 == 2 {
        b1.update(r * 8 + 3, b1[r * 8]).update(r * 8, 0)
    } else {
        b1
    };
    let b3 = b2.update(to, piece).update(from, 0);
    if kind_of(piece) == 1 && mv.promotion != 0 {
        b3.update(to, promoted_piece(st, mv))
    } else {
        b3
    }
}

/// The inputs on which playing `mv` stays on the board and in range: both
/// squares exist, a pawn taken en passant stands on the board, and the byte of
/// a black promotion piece fits.
pub open spec fn can_play(st: GameState, mv: Move) -> bool {
    &&& mv.from < 64
    &&& mv.to < 64
    &&& takes_en_passant(st, mv) ==> 0 <= en_passant_victim(st, mv) < 64
    &&& (kind_of(st.board@[mv.from as int]) == 1 && mv.promotion != 0 && !st.white_to_move)
        ==> mv.promotion + 6 <= u8::MAX
}

/// A move changes no square other than its start and target squares, the
/// square of a pawn taken en passant, and the corner a castling rook leaves
/// and the square it lands on.
pub proof fn lemma_board_after_frame(st: GameState, mv: Move, s: int)
    requires
        can_play(st, mv),
        0 <= s < 64,
        s != mv.from,
        s != mv.to,
        takes_en_passant(st, mv) ==> s != en_passant_victim(st, mv),
        king_from_e_file(st, mv) ==> (s / 8 != mv.from / 8 || (s % 8 != 0 && s % 8 != 3 && s % 8 != 5 && s % 8 != 7)),
    ensures
        board_after(st, mv)[s] == st.board@[s],
{
}

/// The en passant target after `mv`: the square a pawn passed over with a
/// double step, or 255.
pub open spec fn ep_after(mv: Move, b: Seq<u8>) -> u8 {
    if kind_of(b[mv.from as int]) == 1 && dist(mv.from as int / 8, mv.to as int / 8) == 2 {
        (((mv.from / 8 + mv.to / 8) / 2) * 8 + mv.from % 8) as u8
    } else {
        255
    }
}

/// A move starts or ends on square `s`.
pub open spec fn touches(mv: Move, s: u8) -> bool {
    mv.from == s || mv.to == s
}

/// The castling rights tied to square `s`: both rights of a side on its
/// king's home square, and one right on each rook corner.
pub open spec fn rights_of_square(s: u8) -> u8 {
    if s == 4 {
        0b0011
    } else if s == 60 {
        0b1100
    } else if s == 0 {
        0b0010
    } else if s == 7 {
        0b0001
    } else if s == 56 {
        0b1000
    } else if s == 63 {
        0b0100
    } else {
        0
    }
}

/// The castling rights after `mv`: the rights tied to the squares the move
/// starts and ends on are dropped; when some right is dropped, only the four
/// right bits of the byte are kept.
pub open spec fn castling_after(c: u8, mv: Move) -> u8 {
    let lost = rights_of_square(mv.from) | rights_of_square(mv.to);
    if lost == 0 { c } else { c & !lost & 0b1111 }
}

/// The rights after `mv`, one square of a king or rook at a time.
spec fn castling_stepwise(c: u8, mv: Move) -> u8 {
    let c1 = if touches(mv, 4) { c & 0b1100 } else { c };
    let c2 = if touches(mv, 60) { c1 & 0b0011 } else { c1 };
    let c3 = if touches(mv, 0) { c2 & 0b1101 } else { c2 };
    let c4 = if touches(mv, 7) { c3 & 0b1110 } else { c3 };
    let c5 = if touches(mv, 56) { c4 & 0b0111 } else { c4 };
    if touches(mv, 63) { c5 & 0b1011 } else { c5 }
}

proof fn lemma_castling_stepwise(c: u8, mv: Move)
    ensures
        castling_stepwise(c, mv) == castling_after(c, mv),
{
    let f = mv.from;
    let t = mv.to;
    let rf = rights_of_square(f);
    let rt = rights_of_square(t);
    let c1 = if f == 4 || t == 4 { c & 0b1100 } else { c };
    let c2 = if f == 60 || t == 60 { c1 & 0b0011 } else { c1 };
    let c3 = if f == 0 || t == 0 { c2 & 0b1101 } else { c2 };
    let c4 = if f == 7 || t == 7 { c3 & 0b1110 } else { c3 };
    let c5 = if f == 56 || t == 56 { c4 & 0b0111 } else { c4 };
    let c6 = if f == 63 || t == 63 { c5 & 0b1011 } else { c5 };
    assert(c6 == castling_stepwise(c, mv));
    assert(c6 == (if rf | rt == 0 { c } else { c & !(rf | rt) & 0b1111 })) by (bit_vector)
        requires
            rf == (if f == 4 { 3u8 } else if f == 60 { 12u8 } else if f == 0 { 2u8 } else if f == 7 { 1u8 } else if f == 56 { 8u8 } else if f == 63 { 4u8 } else { 0u8 }),
            rt == (if t == 4 { 3u8 } else if t == 60 { 12u8 } else if t == 0 { 2u8 } else if t == 7 { 1u8 } else if t == 56 { 8u8 } else if t == 63 { 4u8 } else { 0u8 }),
            c1 == (if f == 4 || t == 4 { c & 0b1100 } else { c }),
            c2 == (if f == 60 || t == 60 { c1 & 0b0011 } else { c1 }),
            c3 == (if f == 0 || t == 0 { c2 & 0b1101 } else { c2 }),
            c4 == (if f == 7 || t == 7 { c3 & 0b1110 } else { c3 }),
            c5 == (if f == 56 || t == 56 { c4 & 0b0111 } else { c4 }),
            c6 == (if f == 63 || t == 63 { c5 & 0b1011 } else { c5 }),
    ;
}

/// The board after playing `mv` from `state`.
pub fn apply_move(state: &GameState, mv: &Move) -> (b: [u8; 64])
    requires
        can_play(*state, *mv),
    ensures
        b@ == board_after(*state, *mv),
{
    let mut b = state.board;
    let piece = b[mv.from as usize];
    let pt = piece_type(piece);

    // En passant capture
    if pt == 1 && mv.to == state.ep_square && state.ep_square != 255 {
        let cap_rank = if state.white_to_move { rank(mv.to) - 1 } else { rank(mv.to) + 1 };
        b[sq(cap_rank, file(mv.to)) as usize] = 0;
    }
    // Castling: move the rook
    if pt == 6 && file(mv.from) == 4 {
        let r = rank(mv.from);
        let tf = file(mv.to);
        if tf == 6 {
            b[sq(r, 5) as usize] = b[sq(r, 7) as usize];
            b[sq(r, 7) as usize] = 0;
        } else if tf == 2 {
            b[sq(r, 3) as usize] = b[sq(r, 0) as usize];
            b[sq(r, 0) as usize] = 0;
        }
    }
    b[mv.to as usize] = piece;
    b[mv.from as usize] = 0;

    // Promotion
    if pt == 1 && mv.promotion != 0 {
        b[mv.to as usize] = if state.white_to_move { mv.promotion } else { mv.promotion + 6 };
    }
    assert(b@ =~= board_after(*state, *mv));
    b
}

/// The en passant target after `mv`: the square a pawn passes over with a
/// double step, or 255 after any other move.
pub fn new_ep_square(mv: &Move, board: &[u8; 64]) -> (ep: u8)
    requires
        mv.from < 64,
    ensures
        ep == ep_after(*mv, board@),
{
    let piece = board[mv.from as usize];
    let fr = rank(mv.from);
    let tr = rank(mv.to);
    let d = if fr >= tr { fr - tr } else { tr - fr };
    if piece_type(piece) == 1 && d == 2 {
        sq((fr + tr) / 2, file(mv.from))
    } else {
        255
    }
}

/// The castling rights after a move are among those before it, and the
/// rights tied to a square the move starts or ends on are gone.
pub proof fn lemma_castling_rights_only_drop(c: u8, mv: Move)
    ensures
        castling_after(c, mv) & !c == 0,
        touches(mv, 4) ==> castling_after(c, mv) & 0b0011 == 0,
        touches(mv, 60) ==> castling_after(c, mv) & 0b1100 == 0,
        touches(mv, 0) ==> castling_after(c, mv) & 0b0010 == 0,
        touches(mv, 7) ==> castling_after(c, mv) & 0b0001 == 0,
        touches(mv, 56) ==> castling_after(c, mv) & 0b1000 == 0,
        touches(mv, 63) ==> castling_after(c, mv) & 0b0100 == 0,
{
    let t4 = touches(mv, 4);
    let t60 = touches(mv, 60);
    let t0 = touches(mv, 0);
    let t7 = touches(mv, 7);
    let t56 = touches(mv, 56);
    let t63 = touches(mv, 63);
    let c1 = if t4 { c & 0b1100 } else { c };
    let c2 = if t60 { c1 & 0b0011 } else { c1 };
    let c3 = if t0 { c2 & 0b1101 } else { c2 };
    let c4 = if t7 { c3 & 0b1110 } else { c3 };
    let c5 = if t56 { c4 & 0b0111 } else { c4 };
    let c6 = if t63 { c5 & 0b1011 } else { c5 };
    assert(c6 == castling_stepwise(c, mv));
    lemma_castling_stepwise(c, mv);
    assert({
        &&& c6 & !c == 0
        &&& t4 ==> c6 & 0b0011 == 0
        &&& t60 ==> c6 & 0b1100 == 0
        &&& t0 ==> c6 & 0b0010 == 0
        &&& t7 ==> c6 & 0b0001 == 0
        &&& t56 ==> c6 & 0b1000 == 0
        &&& t63 ==> c6 & 0b0100 == 0
    }) by (bit_vector)
        requires
            c1 == (if t4 { c & 0b1100 } else { c }),
            c2 == (if t60 { c1 & 0b0011 } else { c1 }),
            c3 == (if t0 { c2 & 0b1101 } else { c2 }),
            c4 == (if t7 { c3 & 0b1110 } else { c3 }),
            c5 == (if t56 { c4 & 0b0111 } else { c4 }),
            c6 == (if t63 { c5 & 0b1011 } else { c5 }),
    ;
}

/// The castling rights that remain after `mv`. The rights are read from the
/// squares the move starts and ends on, not from the piece, so that taking a
/// rook on its corner drops its right too.
pub fn new_castling(castling: u8, mv: &Move) -> (c: u8)
    ensures
        c == castling_after(castling, *mv),
        // no right is ever gained
        c & !castling == 0,
        touches(*mv, 4) ==> c & 0b0011 == 0,
        touches(*mv, 60) ==> c & 0b1100 == 0,
        touches(*mv, 0) ==> c & 0b0010 == 0,
        touches(*mv, 7) ==> c & 0b0001 == 0,
        touches(*mv, 56) ==> c & 0b1000 == 0,
        touches(*mv, 63) ==> c & 0b0100 == 0,
{
    let mut c = castling;
    if mv.from == 4 || mv.to == 4 {
        c &= 0b1100;  // white king moved
    }
    if mv.from == 60 || mv.to == 60 {
        c &= 0b0011;  // black king moved
    }
    if mv.from == 0 || mv.to == 0 {
        c &= 0b1101;  // a1 rook
    }
    if mv.from == 7 || mv.to == 7 {
        c &= 0b1110;  // h1 rook
    }
    if mv.from == 56 || mv.to == 56 {
        c &= 0b0111;  // a8 rook
    }
    if mv.from == 63 || mv.to == 63 {
        c &= 0b1011;  // h8 rook
    }
    proof {
        assert(c == castling_stepwise(castling, *mv));
        lemma_castling_stepwise(castling, *mv);
        lemma_castling_rights_only_drop(castling, *mv);
    }
    c
}

/// The state after playing `mv` from `old`: the moved board, the other side
/// to move, the remaining castling rights and the new en passant target.
pub fn next_state(old: &GameState, mv: &Move) -> (new: GameState)
    requires
        can_play(*old, *mv),
    ensures
        new.board@ == board_after(*old, *mv),
        new.castling == castling_after(old.castling, *mv),
        new.ep_square == ep_after(*mv, old.board@),
        new.white_to_move == !old.white_to_move,
{
    let board = apply_move(old, mv);
    GameState {
        board,
        castling: new_castling(old.castling, mv),
        ep_square: new_ep_square(mv, &old.board),
        white_to_move: !old.white_to_move,
    }
}

} // verus!
