//! The rules treat both colours alike: turning the board upside down and
//! exchanging the colours of all pieces turns every attack, every played move
//! and every legal move of one side into those of the other.
use vstd::prelude::*;

use crate::attack::{
    at, attacked, attacks_from, diagonal_clear, diagonal_hits, file_clear, line_hits, rank_clear,
    toward, walk,
};
use crate::apply::{
    board_after, can_play, en_passant_victim, king_from_e_file, promoted_piece, takes_en_passant,
};
use crate::attack::{first_king, in_check, king_unique};
use crate::board::{dist, enemy_piece, king_of, kind_of, own_piece};
use crate::rules::{
    bishop_move_ok, has_castling_right, king_move_ok, move_is_valid, pawn_move_ok, piece_rule,
    rook_move_ok,
};
use crate::{GameState, Move};

verus! {

/// The square on the same file and the opposite rank: a1 <-> a8, e2 <-> e7.
pub open spec fn mirror(i: int) -> int {
    (7 - i / 8) * 8 + i % 8
}

/// The same piece of the other colour; empty squares and other bytes stay.
pub open spec fn swap_colour(p: u8) -> u8 {
    if 1 <= p <= 6 {
        (p + 6) as u8
    } else if 7 <= p <= 12 {
        (p - 6) as u8
    } else {
        p
    }
}

/// The board turned upside down, with the colours of all pieces exchanged.
pub open spec fn flip_board(b: Seq<u8>) -> Seq<u8> {
    Seq::new(64, |i: int| swap_colour(b[mirror(i)]))
}

/// Mirroring keeps squares on the board, exchanges the ranks, keeps the file,
/// and undoes itself.
pub proof fn lemma_mirror(i: int)
    requires
        0 <= i < 64,
    ensures
        0 <= mirror(i) < 64,
        mirror(i) / 8 == 7 - i / 8,
        mirror(i) % 8 == i % 8,
        mirror(mirror(i)) == i,
{
    let r = i / 8;
    let f = i % 8;
    assert(i == r * 8 + f);
    assert(0 <= r < 8);
    assert(mirror(i) == (7 - r) * 8 + f);
    assert(((7 - r) * 8 + f) / 8 == 7 - r);
    assert(((7 - r) * 8 + f) % 8 == f);
}

/// Exchanging colours keeps a piece's kind, makes own pieces enemy ones and
/// back, keeps empty squares empty, and undoes itself.
pub proof fn lemma_swap_colour(p: u8, white: bool)
    ensures
        kind_of(swap_colour(p)) == kind_of(p),
        own_piece(swap_colour(p), !white) == own_piece(p, white),
        enemy_piece(swap_colour(p), !white) == enemy_piece(p, white),
        (swap_colour(p) == 0) == (p == 0),
        swap_colour(swap_colour(p)) == p,
{
}

/// The byte on a square of the flipped board.
proof fn lemma_at_flip(b: Seq<u8>, r: int, f: int)
    requires
        b.len() == 64,
        0 <= r < 8,
        0 <= f < 8,
    ensures
        at(flip_board(b), 7 - r, f) == swap_colour(at(b, r, f)),
        at(flip_board(b), r, f) == swap_colour(at(b, 7 - r, f)),
{
    lemma_mirror(r * 8 + f);
    lemma_mirror((7 - r) * 8 + f);
}

proof fn lemma_flip_index(b: Seq<u8>, i: int)
    requires
        b.len() == 64,
        0 <= i < 64,
    ensures
        flip_board(b)[mirror(i)] == swap_colour(b[i]),
        flip_board(b)[i] == swap_colour(b[mirror(i)]),
{
    lemma_mirror(i);
}

proof fn lemma_rank_clear_flip(b: Seq<u8>, r: int, f: int, tf: int)
    requires
        b.len() == 64,
        0 <= r < 8,
        0 <= f < 8,
        0 <= tf < 8,
    ensures
        rank_clear(flip_board(b), 7 - r, f, tf) == rank_clear(b, r, f, tf),
{
    if rank_clear(b, r, f, tf) {
        assert forall|mf: int| (f < mf < tf || tf < mf < f) implies #[trigger] at(flip_board(b), 7 - r, mf) == 0 by {
            lemma_at_flip(b, r, mf);
            assert(at(b, r, mf) == 0);
            lemma_swap_colour(at(b, r, mf), true);
        }
    }
    if rank_clear(flip_board(b), 7 - r, f, tf) {
        assert forall|mf: int| (f < mf < tf || tf < mf < f) implies #[trigger] at(b, r, mf) == 0 by {
            lemma_at_flip(b, r, mf);
            assert(at(flip_board(b), 7 - r, mf) == 0);
            lemma_swap_colour(at(b, r, mf), true);
        }
    }
}

proof fn lemma_file_clear_flip(b: Seq<u8>, f: int, r: int, tr: int)
    requires
        b.len() == 64,
        0 <= r < 8,
        0 <= f < 8,
        0 <= tr < 8,
    ensures
        file_clear(flip_board(b), f, 7 - r, 7 - tr) == file_clear(b, f, r, tr),
{
    if file_clear(b, f, r, tr) {
        assert forall|mr: int| (7 - r < mr < 7 - tr || 7 - tr < mr < 7 - r) implies #[trigger] at(flip_board(b), mr, f) == 0 by {
            lemma_at_flip(b, 7 - mr, f);
            assert(at(b, 7 - mr, f) == 0);
            lemma_swap_colour(at(b, 7 - mr, f), true);
        }
    }
    if file_clear(flip_board(b), f, 7 - r, 7 - tr) {
        assert forall|mr: int| (r < mr < tr || tr < mr < r) implies #[trigger] at(b, mr, f) == 0 by {
            lemma_at_flip(b, mr, f);
            assert(at(flip_board(b), 7 - mr, f) == 0);
            lemma_swap_colour(at(b, mr, f), true);
        }
    }
}

proof fn lemma_diagonal_flip(b: Seq<u8>, r: int, f: int, tr: int, tf: int)
    requires
        b.len() == 64,
        0 <= r < 8,
        0 <= f < 8,
        0 <= tr < 8,
        0 <= tf < 8,
    ensures
        diagonal_hits(flip_board(b), 7 - r, f, 7 - tr, tf) == diagonal_hits(b, r, f, tr, tf),
{
    let d = dist(r, tr);
    let rs = toward(r, tr);
    let fs = toward(f, tf);
    let rs2 = toward(7 - r, 7 - tr);
    if d == dist(f, tf) && d > 0 {
        assert forall|s: int| 1 <= s < d implies walk(7 - r, rs2, s) == 7 - walk(r, rs, s) && 0 <= walk(r, rs, s) < 8 && 0 <= walk(f, fs, s) < 8 by {}
        if diagonal_clear(b, r, f, rs, fs, d) {
            assert forall|s: int| 1 <= s < d implies #[trigger] at(flip_board(b), walk(7 - r, rs2, s), walk(f, fs, s)) == 0 by {
                lemma_at_flip(b, walk(r, rs, s), walk(f, fs, s));
                assert(at(b, walk(r, rs, s), walk(f, fs, s)) == 0);
                lemma_swap_colour(at(b, walk(r, rs, s), walk(f, fs, s)), true);
            }
        }
        if diagonal_clear(flip_board(b), 7 - r, f, rs2, fs, d) {
            assert forall|s: int| 1 <= s < d implies #[trigger] at(b, walk(r, rs, s), walk(f, fs, s)) == 0 by {
                lemma_at_flip(b, walk(r, rs, s), walk(f, fs, s));
                assert(at(flip_board(b), walk(7 - r, rs2, s), walk(f, fs, s)) == 0);
                lemma_swap_colour(at(b, walk(r, rs, s), walk(f, fs, s)), true);
            }
        }
    }
}

/// A piece attacks a square exactly when its flipped image, of the other
/// colour, attacks the flipped square.
pub proof fn lemma_attacks_from_flip(b: Seq<u8>, i: int, t: int, by_white: bool)
    requires
        b.len() == 64,
        0 <= i < 64,
        0 <= t < 64,
    ensures
        attacks_from(flip_board(b), mirror(i), mirror(t), !by_white) == attacks_from(b, i, t, by_white),
{
    lemma_mirror(i);
    lemma_mirror(t);
    lemma_flip_index(b, i);
    lemma_swap_colour(b[i], by_white);
    let r = i / 8;
    let f = i % 8;
    let tr = t / 8;
    let tf = t % 8;
    lemma_diagonal_flip(b, r, f, tr, tf);
    if r == tr {
        lemma_rank_clear_flip(b, r, f, tf);
    }
    if f == tf {
        lemma_file_clear_flip(b, f, r, tr);
    }
    assert(line_hits(flip_board(b), 7 - r, f, 7 - tr, tf) == line_hits(b, r, f, tr, tf));
}

/// Colour symmetry of attacks: a side attacks a square exactly when, on the
/// board turned upside down with the colours exchanged, the other side
/// attacks the mirrored square.
pub proof fn lemma_attacked_colour_symmetry(b: Seq<u8>, t: int, by_white: bool)
    requires
        b.len() == 64,
        0 <= t < 64,
    ensures
        attacked(flip_board(b), mirror(t), !by_white) == attacked(b, t, by_white),
{
    if attacked(b, t, by_white) {
        let i = choose|i: int| 0 <= i < 64 && own_piece(b[i], by_white) && #[trigger] attacks_from(b, i, t, by_white);
        lemma_attacks_from_flip(b, i, t, by_white);
        lemma_flip_index(b, i);
        lemma_mirror(i);
        lemma_swap_colour(b[i], by_white);
    }
    let other = !by_white;
    if attacked(flip_board(b), mirror(t), other) {
        let j = choose|j: int| 0 <= j < 64 && own_piece(flip_board(b)[j], other) && #[trigger] attacks_from(flip_board(b), j, mirror(t), other);
        lemma_mirror(j);
        let i = mirror(j);
        lemma_attacks_from_flip(b, i, t, by_white);
        lemma_flip_index(b, i);
        lemma_swap_colour(b[i], by_white);
    }
}

/// The mirrored square of a square on the board; any other byte (such as 255
/// for "no en passant target") stays.
pub open spec fn flip_square(s: u8) -> u8 {
    if s < 64 { mirror(s as int) as u8 } else { s }
}

/// The castling rights with white's and black's exchanged.
pub open spec fn flip_castling(c: u8) -> u8 {
    ((c & 0b0011) << 2) | ((c & 0b1100) >> 2) | (c & 0b1111_0000)
}

/// `ms` is `st` turned upside down with the colours exchanged: the flipped
/// board, the rights and the en passant target of the other side, and the
/// other side to move.
pub open spec fn mirrored_state(st: GameState, ms: GameState) -> bool {
    &&& ms.board@ == flip_board(st.board@)
    &&& ms.castling == flip_castling(st.castling)
    &&& ms.ep_square == flip_square(st.ep_square)
    &&& ms.white_to_move == !st.white_to_move
}

/// The same move on the flipped board.
pub open spec fn mirror_move(mv: Move) -> Move {
    Move { from: flip_square(mv.from), to: flip_square(mv.to), promotion: mv.promotion }
}

proof fn lemma_flip_update(b: Seq<u8>, i: int, v: u8)
    requires
        b.len() == 64,
        0 <= i < 64,
    ensures
        flip_board(b.update(i, v)) == flip_board(b).update(mirror(i), swap_colour(v)),
{
    lemma_mirror(i);
    assert forall|j: int| 0 <= j < 64 implies #[trigger] flip_board(b.update(i, v))[j] == flip_board(b).update(mirror(i), swap_colour(v))[j] by {
        lemma_mirror(j);
    }
    assert(flip_board(b.update(i, v)) =~= flip_board(b).update(mirror(i), swap_colour(v)));
}

/// Colour symmetry of playing a move: playing the mirrored move on the
/// mirrored state gives the mirrored board.
#[verifier::spinoff_prover]
#[verifier::rlimit(50)]
pub proof fn lemma_board_after_colour_symmetry(st: GameState, ms: GameState, mv: Move)
    requires
        mirrored_state(st, ms),
        can_play(st, mv),
        mv.promotion <= 5,
    ensures
        can_play(ms, mirror_move(mv)),
        board_after(ms, mirror_move(mv)) == flip_board(board_after(st, mv)),
{
    let mm = mirror_move(mv);
    let from = mv.from as int;
    let to = mv.to as int;
    lemma_mirror(from);
    lemma_mirror(to);
    assert(mm.from == mirror(from));
    assert(mm.to == mirror(to));
    let b0 = st.board@;
    let piece = b0[from];
    lemma_flip_index(b0, from);
    lemma_swap_colour(piece, st.white_to_move);
    assert(ms.board@[mm.from as int] == swap_colour(piece));
    assert(takes_en_passant(ms, mm) == takes_en_passant(st, mv));
    let b1 = if takes_en_passant(st, mv) { b0.update(en_passant_victim(st, mv), 0) } else { b0 };
    let b1m = if takes_en_passant(ms, mm) { ms.board@.update(en_passant_victim(ms, mm), 0) } else { ms.board@ };
    if takes_en_passant(st, mv) {
        let v = en_passant_victim(st, mv);
        lemma_mirror(v);
        assert(en_passant_victim(ms, mm) == mirror(v));
        lemma_flip_update(b0, v, 0);
    }
    assert(b1m == flip_board(b1));
    assert(king_from_e_file(ms, mm) == king_from_e_file(st, mv));
    let r = from / 8;
    let rm = mm.from as int / 8;
    assert(rm == 7 - r);
    let b2 = if king_from_e_file(st, mv) && to % 8 == 6 {
        b1.update(r * 8 + 5, b1[r * 8 + 7]).update(r * 8 + 7, 0)
    } else if king_from_e_file(st, mv) && to % 8 == 2 {
        b1.update(r * 8 + 3, b1[r * 8]).update(r * 8, 0)
    } else {
        b1
    };
    let b2m = if king_from_e_file(ms, mm) && mm.to as int % 8 == 6 {
        b1m.update(rm * 8 + 5, b1m[rm * 8 + 7]).update(rm * 8 + 7, 0)
    } else if king_from_e_file(ms, mm) && mm.to as int % 8 == 2 {
        b1m.update(rm * 8 + 3, b1m[rm * 8]).update(rm * 8, 0)
    } else {
        b1m
    };
    if king_from_e_file(st, mv) && to % 8 == 6 {
        lemma_mirror(r * 8 + 5);
        lemma_mirror(r * 8 + 7);
        lemma_flip_index(b1, r * 8 + 7);
        lemma_flip_update(b1, r * 8 + 5, b1[r * 8 + 7]);
        lemma_flip_update(b1.update(r * 8 + 5, b1[r * 8 + 7]), r * 8 + 7, 0);
    } else if king_from_e_file(st, mv) && to % 8 == 2 {
        lemma_mirror(r * 8 + 3);
        lemma_mirror(r * 8);
        lemma_flip_index(b1, r * 8);
        lemma_flip_update(b1, r * 8 + 3, b1[r * 8]);
        lemma_flip_update(b1.update(r * 8 + 3, b1[r * 8]), r * 8, 0);
    }
    assert(b2m == flip_board(b2));
    let b3 = b2.update(to, piece).update(from, 0);
    lemma_flip_update(b2, to, piece);
    lemma_flip_update(b2.update(to, piece), from, 0);
    let b3m = b2m.update(mm.to as int, swap_colour(piece)).update(mm.from as int, 0);
    assert(b3m == flip_board(b3));
    if kind_of(piece) == 1 && mv.promotion != 0 {
        lemma_flip_update(b3, to, promoted_piece(st, mv));
        assert(promoted_piece(ms, mm) == swap_colour(promoted_piece(st, mv)));
    }
}

proof fn lemma_king_unique_flip(b: Seq<u8>, white: bool)
    requires
        b.len() == 64,
        king_unique(b, white),
    ensures
        king_unique(flip_board(b), !white),
{
    assert forall|i: int, j: int|
        0 <= i < 64 && 0 <= j < 64 && flip_board(b)[i] == king_of(!white) && flip_board(b)[j]
            == king_of(!white) implies i == j by {
        lemma_flip_index(b, mirror(i));
        lemma_flip_index(b, mirror(j));
        lemma_mirror(i);
        lemma_mirror(j);
        lemma_swap_colour(b[mirror(i)], white);
        lemma_swap_colour(b[mirror(j)], white);
        assert(b[mirror(i)] == king_of(white));
        assert(b[mirror(j)] == king_of(white));
    }
}

/// With one king of a side at most, that side is in check exactly when the
/// other colour is in check on the flipped board.
pub proof fn lemma_in_check_colour_symmetry(b: Seq<u8>, white: bool)
    requires
        b.len() == 64,
        king_unique(b, white),
    ensures
        in_check(flip_board(b), !white) == in_check(b, white),
{
    let fb = flip_board(b);
    if in_check(b, white) {
        let k = choose|k: int| #[trigger] first_king(b, k, white) && attacked(b, k, !white);
        lemma_mirror(k);
        lemma_flip_index(b, k);
        assert forall|j: int| 0 <= j < mirror(k) implies #[trigger] fb[j] != king_of(!white) by {
            lemma_mirror(j);
            lemma_flip_index(b, mirror(j));
            lemma_swap_colour(b[mirror(j)], white);
        }
        assert(first_king(fb, mirror(k), !white));
        lemma_attacked_colour_symmetry(b, k, !white);
        assert(attacked(fb, mirror(k), !!white));
    }
    let black = !white;
    if in_check(fb, black) {
        let k2 = choose|k: int| #[trigger] first_king(fb, k, black) && attacked(fb, k, !black);
        lemma_mirror(k2);
        let k = mirror(k2);
        lemma_flip_index(b, k);
        lemma_swap_colour(b[k], white);
        assert(b[k] == king_of(white));
        assert forall|j: int| 0 <= j < k implies #[trigger] b[j] != king_of(white) by {}
        assert(first_king(b, k, white));
        lemma_attacked_colour_symmetry(b, k, !white);
    }
}

/// Playing a move adds no second king of a side: the moving piece leaves its
/// square, a castling rook leaves its corner, and a promoted pawn is not a
/// king.
pub proof fn lemma_board_after_keeps_king_unique(st: GameState, mv: Move, white: bool)
    requires
        can_play(st, mv),
        king_unique(st.board@, white),
        kind_of(st.board@[mv.from as int]) == 1 && mv.promotion != 0 ==> promoted_piece(st, mv) != king_of(white),
    ensures
        king_unique(board_after(st, mv), white),
{
    let a = board_after(st, mv);
    let b0 = st.board@;
    let k = king_of(white);
    let from = mv.from as int;
    let to = mv.to as int;
    let r = from / 8;
    let ks = king_from_e_file(st, mv) && to % 8 == 6;
    let qs = king_from_e_file(st, mv) && to % 8 == 2;
    assert forall|i: int| 0 <= i < 64 && #[trigger] a[i] == k implies
        (i == to && b0[from] == k)
        || (ks && i == r * 8 + 5 && b0[r * 8 + 7] == k)
        || (qs && i == r * 8 + 3 && b0[r * 8] == k)
        || (b0[i] == k && i != from && i != to && !(ks && (i == r * 8 + 7 || i == r * 8 + 5)) && !(qs && (i == r * 8 || i == r * 8 + 3)))
    by {}
}

proof fn lemma_castling_rights_flip(c: u8)
    ensures
        (flip_castling(c) & 4 != 0) == (c & 1 != 0),
        (flip_castling(c) & 8 != 0) == (c & 2 != 0),
        (flip_castling(c) & 1 != 0) == (c & 4 != 0),
        (flip_castling(c) & 2 != 0) == (c & 8 != 0),
{
    assert({
        &&& (flip_castling(c) & 4 != 0) == (c & 1 != 0)
        &&& (flip_castling(c) & 8 != 0) == (c & 2 != 0)
        &&& (flip_castling(c) & 1 != 0) == (c & 4 != 0)
        &&& (flip_castling(c) & 2 != 0) == (c & 8 != 0)
    }) by (bit_vector);
}

proof fn lemma_squares_mirror(mv: Move)
    requires
        mv.from < 64,
        mv.to < 64,
    ensures
        mirror_move(mv).from < 64,
        mirror_move(mv).to < 64,
        mirror_move(mv).from as int == mirror(mv.from as int),
        mirror_move(mv).to as int == mirror(mv.to as int),
        mirror_move(mv).from as int / 8 == 7 - mv.from as int / 8,
        mirror_move(mv).to as int / 8 == 7 - mv.to as int / 8,
        mirror_move(mv).from as int % 8 == mv.from as int % 8,
        mirror_move(mv).to as int % 8 == mv.to as int % 8,
{
    lemma_mirror(mv.from as int);
    lemma_mirror(mv.to as int);
}

proof fn lemma_pawn_flip(st: GameState, ms: GameState, mv: Move)
    requires
        mirrored_state(st, ms),
        mv.from < 64,
        mv.to < 64,
    ensures
        pawn_move_ok(ms, mirror_move(mv)) == pawn_move_ok(st, mv),
{
    let mm = mirror_move(mv);
    let b = st.board@;
    lemma_squares_mirror(mv);
    lemma_flip_index(b, mv.to as int);
    lemma_swap_colour(b[mv.to as int], st.white_to_move);
    let fr = mv.from as int / 8;
    let ff = mv.from as int % 8;
    let one = if st.white_to_move { fr + 1 } else { fr - 1 };
    if 0 <= one < 8 {
        lemma_at_flip(b, one, ff);
        lemma_swap_colour(at(b, one, ff), true);
    }
    assert(ms.ep_square == flip_square(st.ep_square));
    assert((ms.ep_square != 255 && mm.to == ms.ep_square) == (st.ep_square != 255 && mv.to == st.ep_square)) by {
        if st.ep_square < 64 {
            lemma_mirror(st.ep_square as int);
            lemma_mirror(mv.to as int);
        }
    }
}

proof fn lemma_bishop_flip(b: Seq<u8>, mv: Move, white: bool)
    requires
        b.len() == 64,
        mv.from < 64,
        mv.to < 64,
    ensures
        bishop_move_ok(flip_board(b), mirror_move(mv), !white) == bishop_move_ok(b, mv, white),
{
    lemma_squares_mirror(mv);
    lemma_flip_index(b, mv.to as int);
    lemma_swap_colour(b[mv.to as int], white);
    lemma_diagonal_flip(b, mv.from as int / 8, mv.from as int % 8, mv.to as int / 8, mv.to as int % 8);
}

proof fn lemma_rook_flip(b: Seq<u8>, mv: Move, white: bool)
    requires
        b.len() == 64,
        mv.from < 64,
        mv.to < 64,
    ensures
        rook_move_ok(flip_board(b), mirror_move(mv), !white) == rook_move_ok(b, mv, white),
{
    lemma_squares_mirror(mv);
    lemma_flip_index(b, mv.to as int);
    lemma_swap_colour(b[mv.to as int], white);
    lemma_rank_clear_flip(b, mv.from as int / 8, mv.from as int % 8, mv.to as int % 8);
    lemma_file_clear_flip(b, mv.from as int % 8, mv.from as int / 8, mv.to as int / 8);
}

proof fn lemma_king_flip(st: GameState, ms: GameState, mv: Move)
    requires
        mirrored_state(st, ms),
        mv.from < 64,
        mv.to < 64,
        king_unique(st.board@, st.white_to_move),
    ensures
        king_move_ok(ms, mirror_move(mv)) == king_move_ok(st, mv),
{
    let b = st.board@;
    let w = st.white_to_move;
    let home = if w { 0int } else { 7int };
    lemma_squares_mirror(mv);
    lemma_flip_index(b, mv.to as int);
    lemma_swap_colour(b[mv.to as int], w);
    lemma_in_check_colour_symmetry(b, w);
    lemma_castling_rights_flip(st.castling);
    lemma_at_flip(b, home, 1);
    lemma_at_flip(b, home, 2);
    lemma_at_flip(b, home, 3);
    lemma_at_flip(b, home, 5);
    lemma_at_flip(b, home, 6);
    lemma_swap_colour(at(b, home, 1), true);
    lemma_swap_colour(at(b, home, 2), true);
    lemma_swap_colour(at(b, home, 3), true);
    lemma_swap_colour(at(b, home, 5), true);
    lemma_swap_colour(at(b, home, 6), true);
    lemma_attacked_colour_symmetry(b, home * 8 + 5, !w);
    lemma_attacked_colour_symmetry(b, home * 8 + 3, !w);
    assert(mirror(home * 8 + 5) == (7 - home) * 8 + 5);
    assert(mirror(home * 8 + 3) == (7 - home) * 8 + 3);
    assert(has_castling_right(ms, true) == has_castling_right(st, true));
    assert(has_castling_right(ms, false) == has_castling_right(st, false));
}

/// Colour symmetry of the piece rules: a piece may make a move exactly when
/// its flipped image, of the other colour, may make the mirrored move.
pub proof fn lemma_piece_rule_colour_symmetry(st: GameState, ms: GameState, mv: Move)
    requires
        mirrored_state(st, ms),
        mv.from < 64,
        mv.to < 64,
        king_unique(st.board@, st.white_to_move),
    ensures
        piece_rule(ms, mirror_move(mv)) == piece_rule(st, mv),
{
    let b = st.board@;
    lemma_squares_mirror(mv);
    lemma_flip_index(b, mv.from as int);
    lemma_swap_colour(b[mv.from as int], st.white_to_move);
    lemma_flip_index(b, mv.to as int);
    lemma_swap_colour(b[mv.to as int], st.white_to_move);
    lemma_pawn_flip(st, ms, mv);
    lemma_bishop_flip(b, mv, st.white_to_move);
    lemma_rook_flip(b, mv, st.white_to_move);
    lemma_king_flip(st, ms, mv);
}

/// Colour symmetry of legality: with one king of the side to move at most, a
/// move is legal exactly when the mirrored move is legal in the state turned
/// upside down with the colours exchanged.
pub proof fn lemma_legality_colour_symmetry(st: GameState, ms: GameState, mv: Move)
    requires
        mirrored_state(st, ms),
        mv.from < 64,
        mv.to < 64,
        mv.promotion <= 5,
        king_unique(st.board@, st.white_to_move),
    ensures
        move_is_valid(ms, mirror_move(mv)) == move_is_valid(st, mv),
{
    let w = st.white_to_move;
    let mm = mirror_move(mv);
    let b = st.board@;
    lemma_squares_mirror(mv);
    lemma_flip_index(b, mv.from as int);
    lemma_swap_colour(b[mv.from as int], w);
    lemma_piece_rule_colour_symmetry(st, ms, mv);
    if own_piece(b[mv.from as int], w) && piece_rule(st, mv) {
        assert(can_play(st, mv));
        lemma_board_after_colour_symmetry(st, ms, mv);
        lemma_board_after_keeps_king_unique(st, mv, w);
        lemma_in_check_colour_symmetry(board_after(st, mv), w);
    }
}

} // verus!
