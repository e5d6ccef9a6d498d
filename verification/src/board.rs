//! Squares and pieces: how a square number splits into rank and file, and what
//! a byte on the board says about the piece standing there.
use vstd::prelude::*;

verus! {

/// The piece byte of the king of the given side.
pub open spec fn king_of(white: bool) -> u8 {
    if white { 6 } else { 12 }
}

/// A byte that stands for a white piece.
pub open spec fn white_piece(p: u8) -> bool {
    1 <= p <= 6
}

/// A byte that stands for a black piece.
pub open spec fn black_piece(p: u8) -> bool {
    7 <= p <= 12
}

/// The kind of a piece, the same for both colours: 1 = pawn .. 6 = king.
pub open spec fn kind_of(p: u8) -> u8 {
    if p > 6 { (p - 6) as u8 } else { p }
}

/// A piece of the given side.
pub open spec fn own_piece(p: u8, white: bool) -> bool {
    if white { white_piece(p) } else { black_piece(p) }
}

/// A piece of the side opposite to the given one.
pub open spec fn enemy_piece(p: u8, white: bool) -> bool {
    if white { black_piece(p) } else { white_piece(p) }
}

/// The distance between two integers.
pub open spec fn dist(a: int, b: int) -> int {
    if a >= b { a - b } else { b - a }
}

/// The rank (row) of a square.
pub fn rank(sq: u8) -> (r: u8)
    ensures
        r == sq / 8,
{
    sq / 8
}

/// The file (column) of a square.
pub fn file(sq: u8) -> (f: u8)
    ensures
        f == sq % 8,
{
    sq % 8
}

/// The square on rank `r` and file `f`.
pub fn sq(r: u8, f: u8) -> (s: u8)
    requires
        r * 8 + f <= u8::MAX,
    ensures
        s == r * 8 + f,
{
    r * 8 + f
}

pub fn is_white(p: u8) -> (b: bool)
    ensures
        b == white_piece(p),
{
    p >= 1 && p <= 6
}

pub fn is_black(p: u8) -> (b: bool)
    ensures
        b == black_piece(p),
{
    p >= 7 && p <= 12
}

pub fn piece_type(p: u8) -> (t: u8)
    ensures
        t == kind_of(p),
{
    if p > 6 {
        p - 6
    } else {
        p
    }
}

pub fn is_empty(p: u8) -> (b: bool)
    ensures
        b == (p == 0),
{
    p == 0
}

pub fn is_friendly(p: u8, white: bool) -> (b: bool)
    ensures
        b == own_piece(p, white),
{
    if white {
        is_white(p)
    } else {
        is_black(p)
    }
}

pub fn is_enemy(p: u8, white: bool) -> (b: bool)
    ensures
        b == enemy_piece(p, white),
{
    if white {
        is_black(p)
    } else {
        is_white(p)
    }
}

/// Splitting a square into rank and file and joining them again gives the
/// square back; joining a rank and a file on the board and splitting the
/// square gives them back.
pub proof fn lemma_square_roundtrip(s: u8, r: u8, f: u8)
    requires
        f < 8,
        r * 8 + f <= u8::MAX,
    ensures
        (s / 8) * 8 + s % 8 == s,
        (r * 8 + f) / 8 == r,
        (r * 8 + f) % 8 == f,
{
}

/// Every piece has exactly one colour, the pieces of one side are the enemies
/// of the other, and the kind of a coloured piece is one of the six kinds.
pub proof fn lemma_colours(p: u8, white: bool)
    ensures
        !(white_piece(p) && black_piece(p)),
        own_piece(p, white) == enemy_piece(p, !white),
        p == 0 ==> !own_piece(p, white) && !enemy_piece(p, white),
        own_piece(p, white) || enemy_piece(p, white) ==> 1 <= kind_of(p) <= 6,
        own_piece(king_of(white), white) && kind_of(king_of(white)) == 6,
{
}

} // verus!
