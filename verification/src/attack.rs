//! Which squares a side attacks, and whether a king stands in check.
use vstd::prelude::*;

use crate::board::{dist, king_of, kind_of, own_piece, is_empty, is_friendly, piece_type, file, rank, sq};

verus! {

/// The byte on rank `r`, file `f` of a board.
pub open spec fn at(b: Seq<u8>, r: int, f: int) -> u8 {
    b[r * 8 + f]
}

/// The coordinate `s` steps away from `x`, upwards when `d` is positive and
/// downwards otherwise.
pub open spec fn walk(x: int, d: int, s: int) -> int {
    if d > 0 { x + s } else { x - s }
}

/// The direction, `1` or `-1`, in which `y` lies from `x`.
pub open spec fn toward(x: int, y: int) -> int {
    if y > x { 1 } else { -1 }
}

/// The squares passed over by `steps` diagonal steps from (`r`, `f`) in
/// direction (`rs`, `fs`), not counting the first and the last one, are empty.
pub open spec fn diagonal_clear(b: Seq<u8>, r: int, f: int, rs: int, fs: int, steps: int) -> bool {
    forall|s: int| 1 <= s < steps ==> #[trigger] at(b, walk(r, rs, s), walk(f, fs, s)) == 0
}

/// The squares of rank `r` strictly between files `f` and `tf` are empty.
pub open spec fn rank_clear(b: Seq<u8>, r: int, f: int, tf: int) -> bool {
    forall|mf: int| (f < mf < tf || tf < mf < f) ==> #[trigger] at(b, r, mf) == 0
}

/// The squares of file `f` strictly between ranks `r` and `tr` are empty.
pub open spec fn file_clear(b: Seq<u8>, f: int, r: int, tr: int) -> bool {
    forall|mr: int| (r < mr < tr || tr < mr < r) ==> #[trigger] at(b, mr, f) == 0
}

/// A knight's jump: two squares one way and one square the other.
pub open spec fn knight_jump(r: int, f: int, tr: int, tf: int) -> bool {
    (dist(r, tr) == 2 && dist(f, tf) == 1) || (dist(r, tr) == 1 && dist(f, tf) == 2)
}

/// One step of a king in any direction.
pub open spec fn king_step(r: int, f: int, tr: int, tf: int) -> bool {
    dist(r, tr) <= 1 && dist(f, tf) <= 1 && (r != tr || f != tf)
}

/// A pawn of the given side on (`r`, `f`) attacks (`tr`, `tf`).
pub open spec fn pawn_hits(r: int, f: int, tr: int, tf: int, white: bool) -> bool {
    (if white { r + 1 } else { r - 1 }) == tr && dist(f, tf) == 1
}

/// (`tr`, `tf`) lies on a diagonal of (`r`, `f`), and the squares between
/// them are empty.
pub open spec fn diagonal_hits(b: Seq<u8>, r: int, f: int, tr: int, tf: int) -> bool {
    &&& dist(r, tr) == dist(f, tf)
    &&& dist(r, tr) > 0
    &&& diagonal_clear(b, r, f, toward(r, tr), toward(f, tf), dist(r, tr))
}

/// (`tr`, `tf`) lies on the rank or the file of (`r`, `f`), is another
/// square, and the squares between them are empty.
pub open spec fn line_hits(b: Seq<u8>, r: int, f: int, tr: int, tf: int) -> bool {
    ||| (r == tr && f != tf && rank_clear(b, r, f, tf))
    ||| (f == tf && r != tr && file_clear(b, f, r, tr))
}

/// The piece on square `i` attacks square `t`, moving for the given side.
pub open spec fn attacks_from(b: Seq<u8>, i: int, t: int, by_white: bool) -> bool {
    let r = i / 8;
    let f = i % 8;
    let tr = t / 8;
    let tf = t % 8;
    let k = kind_of(b[i]);
    if k == 1 {
        pawn_hits(r, f, tr, tf, by_white)
    } else if k == 2 {
        knight_jump(r, f, tr, tf)
    } else if k == 3 {
        diagonal_hits(b, r, f, tr, tf)
    } else if k == 4 {
        line_hits(b, r, f, tr, tf)
    } else if k == 5 {
        diagonal_hits(b, r, f, tr, tf) || line_hits(b, r, f, tr, tf)
    } else if k == 6 {
        king_step(r, f, tr, tf)
    } else {
        false
    }
}

/// Some piece of the given side attacks square `t`.
pub open spec fn attacked(b: Seq<u8>, t: int, by_white: bool) -> bool {
    exists|i: int| 0 <= i < 64 && own_piece(b[i], by_white) && #[trigger] attacks_from(b, i, t, by_white)
}

/// The king of the given side stands somewhere on the board.
pub open spec fn has_king(b: Seq<u8>, white: bool) -> bool {
    exists|k: int| 0 <= k < 64 && #[trigger] b[k] == king_of(white)
}

/// At most one square holds the king of the given side.
pub open spec fn king_unique(b: Seq<u8>, white: bool) -> bool {
    forall|i: int, j: int|
        #![trigger b[i], b[j]]
        0 <= i < 64 && 0 <= j < 64 && b[i] == king_of(white) && b[j] == king_of(white) ==> i == j
}

/// `k` is the lowest square holding the king of the given side.
pub open spec fn first_king(b: Seq<u8>, k: int, white: bool) -> bool {
    &&& 0 <= k < 64
    &&& b[k] == king_of(white)
    &&& forall|j: int| 0 <= j < k ==> #[trigger] b[j] != king_of(white)
}

/// The king of the given side (the first one, counting from a1) is attacked
/// by the other side.
pub open spec fn in_check(b: Seq<u8>, white: bool) -> bool {
    exists|k: int| #[trigger] first_king(b, k, white) && attacked(b, k, !white)
}

/// There is one lowest king square at most.
pub proof fn lemma_first_king_unique(b: Seq<u8>, k1: int, k2: int, white: bool)
    requires
        first_king(b, k1, white),
        first_king(b, k2, white),
    ensures
        k1 == k2,
{
    if k1 < k2 {
        assert(b[k1] != king_of(white));
    } else if k2 < k1 {
        assert(b[k2] != king_of(white));
    }
}

/// The distance between two bytes.
pub(crate) fn diff(a: u8, b: u8) -> (d: u8)
    ensures
        d == dist(a as int, b as int),
{
    if a >= b {
        a - b
    } else {
        b - a
    }
}

/// The square of the king of the given side: the first one, counting from a1.
pub fn find_king(board: &[u8; 64], white: bool) -> (k: u8)
    requires
        has_king(board@, white),
    ensures
        first_king(board@, k as int, white),
{
    let king = if white { 6u8 } else { 12u8 };
    let mut i: u8 = 0;
    while i < 64
        invariant
            i <= 64,
            king == king_of(white),
            has_king(board@, white),
            forall|j: int| 0 <= j < i ==> #[trigger] board@[j] != king_of(white),
        decreases 64 - i,
    {
        if board[i as usize] == king {
            return i;
        }
        i = i + 1;
    }
    assert(false);
    0
}

/// Some square passed over by `steps` diagonal steps from (`r`, `f`) in
/// direction (`rs`, `fs`), first and last square left out, is occupied.
pub(crate) fn sliding_blocked(board: &[u8; 64], r: u8, f: u8, rs: i8, fs: i8, steps: u8) -> (blocked: bool)
    requires
        r < 8,
        f < 8,
        rs == 1 || rs == -1,
        fs == 1 || fs == -1,
        rs == 1 ==> r + steps < 8,
        rs == -1 ==> steps <= r,
        fs == 1 ==> f + steps < 8,
        fs == -1 ==> steps <= f,
    ensures
        blocked == !diagonal_clear(board@, r as int, f as int, rs as int, fs as int, steps as int),
{
    let mut s: u8 = 1;
    while s < steps
        invariant
            1 <= s,
            s <= steps || steps == 0,
            r < 8,
            f < 8,
            rs == 1 || rs == -1,
            fs == 1 || fs == -1,
            rs == 1 ==> r + steps < 8,
            rs == -1 ==> steps <= r,
            fs == 1 ==> f + steps < 8,
            fs == -1 ==> steps <= f,
            forall|k: int|
                1 <= k < s ==> #[trigger] at(board@, walk(r as int, rs as int, k), walk(f as int, fs as int, k)) == 0,
        decreases steps - s,
    {
        let mr: u8 = if rs > 0 { r + s } else { r - s };
        let mf: u8 = if fs > 0 { f + s } else { f - s };
        if !is_empty(board[sq(mr, mf) as usize]) {
            assert(at(board@, walk(r as int, rs as int, s as int), walk(f as int, fs as int, s as int)) != 0);
            return true;
        }
        s = s + 1;
    }
    false
}

/// Some square of rank `r` strictly between files `f` and `tf` is occupied.
pub(crate) fn rank_blocked(board: &[u8; 64], r: u8, f: u8, tf: u8) -> (blocked: bool)
    requires
        r < 8,
        f < 8,
        tf < 8,
    ensures
        blocked == !rank_clear(board@, r as int, f as int, tf as int),
{
    let (mn, mx) = if f < tf { (f, tf) } else { (tf, f) };
    let mut mf: u8 = mn + 1;
    while mf < mx
        invariant
            mn < mf,
            mf <= mx || mx == mn,
            mx < 8,
            r < 8,
            (mn == f && mx == tf) || (mn == tf && mx == f),
            forall|k: int| mn < k < mf ==> #[trigger] at(board@, r as int, k) == 0,
        decreases mx - mf,
    {
        if !is_empty(board[sq(r, mf) as usize]) {
            assert(at(board@, r as int, mf as int) != 0);
            return true;
        }
        mf = mf + 1;
    }
    false
}

/// Some square of file `f` strictly between ranks `r` and `tr` is occupied.
pub(crate) fn file_blocked(board: &[u8; 64], f: u8, r: u8, tr: u8) -> (blocked: bool)
    requires
        r < 8,
        f < 8,
        tr < 8,
    ensures
        blocked == !file_clear(board@, f as int, r as int, tr as int),
{
    let (mn, mx) = if r < tr { (r, tr) } else { (tr, r) };
    let mut mr: u8 = mn + 1;
    while mr < mx
        invariant
            mn < mr,
            mr <= mx || mx == mn,
            mx < 8,
            f < 8,
            (mn == r && mx == tr) || (mn == tr && mx == r),
            forall|k: int| mn < k < mr ==> #[trigger] at(board@, k, f as int) == 0,
        decreases mx - mr,
    {
        if !is_empty(board[sq(mr, f) as usize]) {
            assert(at(board@, mr as int, f as int) != 0);
            return true;
        }
        mr = mr + 1;
    }
    false
}

/// Sets `found` when a rook-like piece on (`r`, `f`) reaches (`tr`, `tf`)
/// along its rank or its file.
fn fallthrough_rook(board: &[u8; 64], r: u8, f: u8, tr: u8, tf: u8, found: &mut bool)
    requires
        r < 8,
        f < 8,
        tr < 8,
        tf < 8,
    ensures
        *final(found) == (*old(found) || line_hits(board@, r as int, f as int, tr as int, tf as int)),
{
    if r == tr && f != tf && !rank_blocked(board, r, f, tf) {
        *found = true;
    }
    if f == tf && r != tr && !file_blocked(board, f, r, tr) {
        *found = true;
    }
}

/// Whether some piece of the side `by_white` attacks square `target`.
///
/// A pawn attacks the two squares diagonally in front of it, a knight the
/// squares of its jump, a king its neighbours; a bishop attacks along its
/// diagonals, a rook along its rank and file, and a queen along all of them,
/// each up to and including the first occupied square.
pub fn is_attacked_by(board: &[u8; 64], target: u8, by_white: bool) -> (res: bool)
    requires
        target < 64,
    ensures
        res == attacked(board@, target as int, by_white),
{
    let tr = rank(target);
    let tf = file(target);
    let mut i: u8 = 0;
    while i < 64
        invariant
            i <= 64,
            target < 64,
            tr == target / 8,
            tf == target % 8,
            forall|j: int|
                0 <= j < i ==> !(own_piece(board@[j], by_white) && #[trigger] attacks_from(
                    board@,
                    j,
                    target as int,
                    by_white,
                )),
        decreases 64 - i,
    {
        let p = board[i as usize];
        if is_friendly(p, by_white) {
            let pt = piece_type(p);
            let r = rank(i);
            let f = file(i);
            let dr = diff(r, tr);
            let df = diff(f, tf);
            let hit = if pt == 1 {
                (if by_white { r + 1 == tr } else { r == tr + 1 }) && df == 1
            } else if pt == 2 {
                (dr == 2 && df == 1) || (dr == 1 && df == 2)
            } else if pt == 3 || pt == 5 {
                let mut h = false;
                if dr == df && dr > 0 {
                    let rs: i8 = if tr > r { 1 } else { -1 };
                    let fs: i8 = if tf > f { 1 } else { -1 };
                    h = !sliding_blocked(board, r, f, rs, fs, dr);
                }
                if pt == 5 {
                    fallthrough_rook(board, r, f, tr, tf, &mut h);
                }
                h
            } else if pt == 4 {
                if r == tr && f != tf {
                    !rank_blocked(board, r, f, tf)
                } else if f == tf && r != tr {
                    !file_blocked(board, f, r, tr)
                } else {
                    false
                }
            } else if pt == 6 {
                dr <= 1 && df <= 1 && (r != tr || f != tf)
            } else {
                false
            };
            assert(hit == attacks_from(board@, i as int, target as int, by_white));
            if hit {
                return true;
            }
        }
        i = i + 1;
    }
    false
}

/// Whether the king of the given side (the first one, counting from a1) is
/// attacked by the other side.
pub fn is_in_check(board: &[u8; 64], white: bool) -> (res: bool)
    requires
        has_king(board@, white),
    ensures
        res == in_check(board@, white),
{
    let k = find_king(board, white);
    let res = is_attacked_by(board, k, !white);
    proof {
        if !res {
            assert forall|k2: int| #[trigger] first_king(board@, k2, white) implies !attacked(board@, k2, !white) by {
                lemma_first_king_unique(board@, k as int, k2, white);
            }
        }
    }
    res
}

} // verus!
