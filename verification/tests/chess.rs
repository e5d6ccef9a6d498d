use kaspa_chess_core::board;
use kaspa_chess_core::{
    apply_move, find_king, is_attacked_by, is_black, is_empty, is_enemy, is_friendly,
    is_in_check, is_valid_move, move_can_be_judged, move_can_be_played, is_white, new_castling, new_ep_square, next_state, piece_type,
    rank, sq, validate_transition, GameState, Move, TransitionError,
};

fn start_board() -> [u8; 64] {
    [
        4, 2, 3, 5, 6, 3, 2, 4, //
        1, 1, 1, 1, 1, 1, 1, 1, //
        0, 0, 0, 0, 0, 0, 0, 0, //
        0, 0, 0, 0, 0, 0, 0, 0, //
        0, 0, 0, 0, 0, 0, 0, 0, //
        0, 0, 0, 0, 0, 0, 0, 0, //
        7, 7, 7, 7, 7, 7, 7, 7, //
        10, 8, 9, 11, 12, 9, 8, 10,
    ]
}

fn start() -> GameState {
    GameState { board: start_board(), castling: 15, ep_square: 255, white_to_move: true }
}

fn empty_with(pieces: &[(u8, u8)]) -> [u8; 64] {
    let mut b = [0u8; 64];
    for &(s, p) in pieces {
        b[s as usize] = p;
    }
    b
}

fn mv(from: u8, to: u8) -> Move {
    Move { from, to, promotion: 0 }
}

fn promo(from: u8, to: u8, promotion: u8) -> Move {
    Move { from, to, promotion }
}

// ---- board helpers ----

#[test]
fn square_helpers() {
    assert_eq!(rank(28), 3);
    assert_eq!(board::file(28), 4);
    assert_eq!(sq(3, 4), 28);
    assert_eq!(rank(63), 7);
    assert_eq!(board::file(63), 7);
    assert_eq!(sq(0, 0), 0);
    for s in 0u8..64 {
        assert_eq!(sq(rank(s), board::file(s)), s);
    }
}

#[test]
fn piece_helpers() {
    assert!(is_white(1) && is_white(6) && !is_white(0) && !is_white(7));
    assert!(is_black(7) && is_black(12) && !is_black(6) && !is_black(13));
    assert_eq!(piece_type(1), 1);
    assert_eq!(piece_type(12), 6);
    assert_eq!(piece_type(9), 3);
    assert_eq!(piece_type(0), 0);
    assert!(is_empty(0) && !is_empty(3));
    assert!(is_friendly(3, true) && !is_friendly(9, true) && is_friendly(9, false));
    assert!(is_enemy(9, true) && !is_enemy(3, true) && is_enemy(3, false));
    assert!(!is_friendly(0, true) && !is_enemy(0, true));
}

#[test]
fn colours_law_on_all_bytes() {
    for p in 0u8..=255 {
        assert!(!(is_white(p) && is_black(p)));
        for w in [true, false] {
            assert_eq!(is_friendly(p, w), is_enemy(p, !w));
        }
    }
}

// ---- kings and attacks ----

#[test]
fn find_king_start() {
    let b = start_board();
    assert_eq!(find_king(&b, true), 4);
    assert_eq!(find_king(&b, false), 60);
}

#[test]
fn find_king_takes_lowest_square() {
    let b = empty_with(&[(40, 6), (10, 6), (50, 12)]);
    assert_eq!(find_king(&b, true), 10);
}

#[test]
fn attacks_in_start_position() {
    let b = start_board();
    // e3 is covered by the d2 and f2 pawns
    assert!(is_attacked_by(&b, 20, true));
    // f3 is covered by the g1 knight
    assert!(is_attacked_by(&b, 21, true));
    // e4 is not covered by white
    assert!(!is_attacked_by(&b, 28, true));
    // e6 is covered by black pawns
    assert!(is_attacked_by(&b, 44, false));
    assert!(!is_attacked_by(&b, 36, false));
}

#[test]
fn pawn_attacks_only_forward_diagonals() {
    let b = empty_with(&[(27, 1)]); // white pawn d4
    assert!(is_attacked_by(&b, 34, true)); // c5
    assert!(is_attacked_by(&b, 36, true)); // e5
    assert!(!is_attacked_by(&b, 35, true)); // d5
    assert!(!is_attacked_by(&b, 18, true)); // c3
    let b = empty_with(&[(35, 7)]); // black pawn d5
    assert!(is_attacked_by(&b, 26, false)); // c4
    assert!(!is_attacked_by(&b, 42, false)); // c6
}

#[test]
fn bishop_attack_is_blocked() {
    let b = empty_with(&[(0, 3)]); // white bishop a1
    assert!(is_attacked_by(&b, 63, true));
    let b = empty_with(&[(0, 3), (27, 7)]); // black pawn on d4 in the way
    assert!(is_attacked_by(&b, 27, true));
    assert!(!is_attacked_by(&b, 63, true));
}

#[test]
fn rook_attack_along_rank_and_file() {
    let b = empty_with(&[(0, 4)]); // white rook a1
    assert!(is_attacked_by(&b, 7, true));
    assert!(is_attacked_by(&b, 56, true));
    assert!(!is_attacked_by(&b, 9, true));
    let b = empty_with(&[(0, 4), (3, 2)]);
    assert!(!is_attacked_by(&b, 7, true));
    assert!(is_attacked_by(&b, 3, true));
}

#[test]
fn queen_attacks_diagonally_and_straight() {
    let b = empty_with(&[(27, 11)]); // black queen d4
    assert!(is_attacked_by(&b, 63, false)); // h8 diagonal
    assert!(is_attacked_by(&b, 59, false)); // d8 file
    assert!(is_attacked_by(&b, 24, false)); // a4 rank
    assert!(!is_attacked_by(&b, 44, false)); // e6: no line
}

#[test]
fn knight_and_king_attacks() {
    let b = empty_with(&[(6, 2), (60, 12)]);
    assert!(is_attacked_by(&b, 21, true)); // g1 knight -> f3
    assert!(is_attacked_by(&b, 12, true)); // g1 -> e2
    assert!(!is_attacked_by(&b, 14, true));
    assert!(is_attacked_by(&b, 51, false)); // e8 king -> d7
    assert!(!is_attacked_by(&b, 44, false)); // e6 too far
}

#[test]
fn check_detection() {
    assert!(!is_in_check(&start_board(), true));
    // white king e1, black rook e8
    let b = empty_with(&[(4, 6), (60, 10), (63, 12)]);
    assert!(is_in_check(&b, true));
    // a piece in between blocks it
    let b = empty_with(&[(4, 6), (60, 10), (63, 12), (12, 1)]);
    assert!(!is_in_check(&b, true));
    // a queen gives check along the file
    let b = empty_with(&[(4, 6), (60, 11), (63, 12)]);
    assert!(is_in_check(&b, true));
}

// ---- applying moves ----

#[test]
fn apply_pawn_double_step() {
    let b = apply_move(&start(), &mv(12, 28));
    assert_eq!(b[12], 0);
    assert_eq!(b[28], 1);
    let mut expected = start_board();
    expected[12] = 0;
    expected[28] = 1;
    assert_eq!(b, expected);
}

#[test]
fn apply_castling_moves_rook() {
    let st = GameState {
        board: empty_with(&[(4, 6), (7, 4), (0, 4), (60, 12)]),
        castling: 15,
        ep_square: 255,
        white_to_move: true,
    };
    let b = apply_move(&st, &mv(4, 6));
    assert_eq!((b[4], b[5], b[6], b[7]), (0, 4, 6, 0));
    let b = apply_move(&st, &mv(4, 2));
    assert_eq!((b[0], b[2], b[3], b[4]), (0, 6, 4, 0));
}

#[test]
fn apply_en_passant_removes_pawn() {
    // white pawn e5, black pawn d5 just double-stepped, target d6
    let st = GameState {
        board: empty_with(&[(4, 6), (60, 12), (36, 1), (35, 7)]),
        castling: 0,
        ep_square: 43,
        white_to_move: true,
    };
    let b = apply_move(&st, &mv(36, 43));
    assert_eq!(b[43], 1);
    assert_eq!(b[35], 0);
    assert_eq!(b[36], 0);
}

#[test]
fn apply_promotion() {
    let st = GameState {
        board: empty_with(&[(4, 6), (60, 12), (48, 1)]),
        castling: 0,
        ep_square: 255,
        white_to_move: true,
    };
    let b = apply_move(&st, &promo(48, 56, 5));
    assert_eq!(b[56], 5);
    assert_eq!(b[48], 0);
    let st = GameState {
        board: empty_with(&[(4, 6), (60, 12), (9, 7)]),
        castling: 0,
        ep_square: 255,
        white_to_move: false,
    };
    let b = apply_move(&st, &promo(9, 1, 2));
    assert_eq!(b[1], 8);
    assert_eq!(b[9], 0);
}

#[test]
fn ep_square_after_moves() {
    let b = start_board();
    assert_eq!(new_ep_square(&mv(12, 28), &b), 20);
    assert_eq!(new_ep_square(&mv(51, 35), &b), 43);
    assert_eq!(new_ep_square(&mv(12, 20), &b), 255);
    assert_eq!(new_ep_square(&mv(6, 21), &b), 255);
}

#[test]
fn castling_rights_after_moves() {
    assert_eq!(new_castling(15, &mv(4, 12)), 0b1100);
    assert_eq!(new_castling(15, &mv(60, 52)), 0b0011);
    assert_eq!(new_castling(15, &mv(0, 8)), 0b1101);
    assert_eq!(new_castling(15, &mv(7, 15)), 0b1110);
    assert_eq!(new_castling(15, &mv(56, 48)), 0b0111);
    // a capture on h8 drops black's kingside right
    assert_eq!(new_castling(15, &mv(54, 63)), 0b1011);
    assert_eq!(new_castling(15, &mv(12, 28)), 15);
    assert_eq!(new_castling(0, &mv(4, 6)), 0);
}

#[test]
fn castling_rights_never_grow() {
    for c in 0u8..=255 {
        for (f, t) in [(4u8, 5u8), (60, 61), (0, 1), (7, 6), (56, 57), (63, 62), (12, 28)] {
            let n = new_castling(c, &mv(f, t));
            assert_eq!(n & !c, 0);
        }
    }
}

// ---- legality ----

#[test]
fn opening_moves() {
    let st = start();
    assert!(is_valid_move(&st, &mv(12, 28))); // e2e4
    assert!(is_valid_move(&st, &mv(12, 20))); // e2e3
    assert!(!is_valid_move(&st, &mv(12, 36))); // e2e5
    assert!(is_valid_move(&st, &mv(6, 21))); // Ng1f3
    assert!(!is_valid_move(&st, &mv(6, 12))); // onto own pawn
    assert!(!is_valid_move(&st, &mv(5, 26))); // bishop blocked
    assert!(!is_valid_move(&st, &mv(0, 16))); // rook blocked
    assert!(!is_valid_move(&st, &mv(52, 44))); // black piece, white to move
    assert!(!is_valid_move(&st, &mv(20, 28))); // empty square
}

#[test]
fn black_replies() {
    let mut st = next_state(&start(), &mv(12, 28));
    assert!(!st.white_to_move);
    assert!(is_valid_move(&st, &mv(52, 36))); // e7e5
    assert!(is_valid_move(&st, &mv(62, 45))); // Ng8f6
    assert!(!is_valid_move(&st, &mv(12, 20)));
    st = next_state(&st, &mv(52, 36));
    assert!(is_valid_move(&st, &mv(3, 39))); // Qd1h5
    assert!(is_valid_move(&st, &mv(5, 26))); // Bf1c4
}

#[test]
fn pinned_piece_cannot_move() {
    // white king e1, white knight e2, black rook e8
    let st = GameState {
        board: empty_with(&[(4, 6), (12, 2), (60, 10), (63, 12)]),
        castling: 0,
        ep_square: 255,
        white_to_move: true,
    };
    assert!(!is_valid_move(&st, &mv(12, 29)));
    // the king may step aside
    assert!(is_valid_move(&st, &mv(4, 3)));
    // but not along the file
    assert!(!is_valid_move(&st, &mv(4, 12)));
}

#[test]
fn castling_rules() {
    let mut st = GameState {
        board: empty_with(&[(4, 6), (7, 4), (0, 4), (60, 12)]),
        castling: 15,
        ep_square: 255,
        white_to_move: true,
    };
    assert!(is_valid_move(&st, &mv(4, 6)));
    assert!(is_valid_move(&st, &mv(4, 2)));
    st.castling = 0b1110;
    assert!(!is_valid_move(&st, &mv(4, 6)));
    assert!(is_valid_move(&st, &mv(4, 2)));
    st.castling = 15;
    // a black rook on f8 covers f1: no kingside castling
    st.board[61] = 10;
    assert!(!is_valid_move(&st, &mv(4, 6)));
    assert!(is_valid_move(&st, &mv(4, 2)));
    // in check: no castling at all
    st.board[61] = 0;
    st.board[52] = 10;
    assert!(!is_valid_move(&st, &mv(4, 6)));
    assert!(!is_valid_move(&st, &mv(4, 2)));
    // a piece in the way
    st.board[52] = 0;
    st.board[1] = 2;
    assert!(!is_valid_move(&st, &mv(4, 2)));
}

#[test]
fn black_castling() {
    let st = GameState {
        board: empty_with(&[(4, 6), (60, 12), (63, 10), (56, 10)]),
        castling: 0b1100,
        ep_square: 255,
        white_to_move: false,
    };
    assert!(is_valid_move(&st, &mv(60, 62)));
    assert!(is_valid_move(&st, &mv(60, 58)));
    let st2 = GameState { castling: 0b0011, ..st };
    assert!(!is_valid_move(&st2, &mv(60, 62)));
}

#[test]
fn en_passant_capture() {
    let st = GameState {
        board: empty_with(&[(4, 6), (60, 12), (36, 1), (35, 7)]),
        castling: 0,
        ep_square: 43,
        white_to_move: true,
    };
    assert!(is_valid_move(&st, &mv(36, 43)));
    let no_ep = GameState { ep_square: 255, ..st.clone() };
    assert!(!is_valid_move(&no_ep, &mv(36, 43)));
}

#[test]
fn promotion_choices() {
    let st = GameState {
        board: empty_with(&[(4, 6), (60, 12), (48, 1)]),
        castling: 0,
        ep_square: 255,
        white_to_move: true,
    };
    assert!(is_valid_move(&st, &promo(48, 56, 5)));
    assert!(is_valid_move(&st, &promo(48, 56, 2)));
    assert!(!is_valid_move(&st, &promo(48, 56, 0)));
    assert!(!is_valid_move(&st, &promo(48, 56, 1)));
    assert!(!is_valid_move(&st, &promo(48, 56, 6)));
    // no promotion field away from the last rank
    let st2 = GameState { board: empty_with(&[(4, 6), (60, 12), (40, 1)]), ..st };
    assert!(is_valid_move(&st2, &mv(40, 48)));
    assert!(!is_valid_move(&st2, &promo(40, 48, 5)));
}

#[test]
fn king_cannot_step_into_check() {
    let st = GameState {
        board: empty_with(&[(4, 6), (60, 12), (51, 11)]),
        castling: 0,
        ep_square: 255,
        white_to_move: true,
    };
    // d-file is covered by the queen on d7
    assert!(!is_valid_move(&st, &mv(4, 3)));
    assert!(is_valid_move(&st, &mv(4, 5)));
}

// ---- transitions ----

#[test]
fn next_state_after_e4() {
    let n = next_state(&start(), &mv(12, 28));
    assert_eq!(n.ep_square, 20);
    assert_eq!(n.castling, 15);
    assert!(!n.white_to_move);
    assert_eq!(n.board, apply_move(&start(), &mv(12, 28)));
}

#[test]
fn successor_is_accepted() {
    let old = start();
    let m = mv(12, 28);
    let new = next_state(&old, &m);
    assert_eq!(validate_transition(&old, &m, &new), Ok(()));
}

#[test]
fn transition_errors() {
    let old = start();
    let m = mv(12, 28);
    let good = next_state(&old, &m);

    assert_eq!(
        validate_transition(&old, &mv(12, 36), &good),
        Err(TransitionError::IllegalMove)
    );

    let mut bad_board = good.clone();
    bad_board.board[28] = 0;
    assert_eq!(validate_transition(&old, &m, &bad_board), Err(TransitionError::BoardMismatch));

    let bad_turn = GameState { white_to_move: true, ..good.clone() };
    assert_eq!(validate_transition(&old, &m, &bad_turn), Err(TransitionError::TurnNotFlipped));

    let bad_castling = GameState { castling: 3, ..good.clone() };
    assert_eq!(
        validate_transition(&old, &m, &bad_castling),
        Err(TransitionError::CastlingMismatch)
    );

    let bad_ep = GameState { ep_square: 255, ..good.clone() };
    assert_eq!(
        validate_transition(&old, &m, &bad_ep),
        Err(TransitionError::EnPassantMismatch)
    );
}

#[test]
fn error_messages() {
    assert_eq!(TransitionError::IllegalMove.message(), "illegal move");
    assert_eq!(TransitionError::BoardMismatch.message(), "new board state mismatch");
    assert_eq!(TransitionError::TurnNotFlipped.message(), "turn did not flip");
    assert_eq!(TransitionError::CastlingMismatch.message(), "castling rights mismatch");
    assert_eq!(TransitionError::EnPassantMismatch.message(), "en passant square mismatch");
}

#[test]
fn accepted_transition_shape() {
    let old = start();
    for m in [mv(12, 28), mv(6, 21), mv(11, 19)] {
        assert!(is_valid_move(&old, &m));
        let new = next_state(&old, &m);
        assert_eq!(validate_transition(&old, &m, &new), Ok(()));
        assert_eq!(new.board[m.from as usize], 0);
        assert!(is_friendly(new.board[m.to as usize], true));
        assert!(!is_in_check(&new.board, true));
        assert_eq!(new.castling & !old.castling, 0);
        assert_ne!(new.white_to_move, old.white_to_move);
    }
}

#[test]
fn short_game_through_transitions() {
    // 1. e4 e5 2. Bc4 Nc6 3. Qh5 Nf6 4. Qxf7#
    let moves = [
        mv(12, 28),
        mv(52, 36),
        mv(5, 26),
        mv(57, 42),
        mv(3, 39),
        mv(62, 45),
        mv(39, 53),
    ];
    let mut st = start();
    for m in moves.iter() {
        assert!(is_valid_move(&st, m));
        let n = next_state(&st, m);
        assert_eq!(validate_transition(&st, m, &n), Ok(()));
        st = n;
    }
    assert!(is_in_check(&st.board, false));
    // the king cannot take the protected queen
    assert!(!is_valid_move(&st, &mv(60, 53)));
}

// ---- domains ----

#[test]
fn playable_moves() {
    let st = start();
    assert!(move_can_be_played(&st, &mv(12, 28)));
    assert!(!move_can_be_played(&st, &mv(64, 28)));
    assert!(!move_can_be_played(&st, &mv(12, 64)));
    // a white pawn "taking en passant" onto the first rank has no victim square
    let st = GameState {
        board: empty_with(&[(4, 6), (60, 12), (9, 1)]),
        castling: 0,
        ep_square: 0,
        white_to_move: true,
    };
    assert!(!move_can_be_played(&st, &mv(9, 0)));
    // a black promotion byte must stay in range
    let st = GameState {
        board: empty_with(&[(4, 6), (60, 12), (9, 7)]),
        castling: 0,
        ep_square: 255,
        white_to_move: false,
    };
    assert!(move_can_be_played(&st, &promo(9, 1, 5)));
    assert!(!move_can_be_played(&st, &promo(9, 1, 250)));
}

#[test]
fn judgeable_moves() {
    let st = start();
    assert!(move_can_be_judged(&st, &mv(12, 28)));
    assert!(move_can_be_judged(&st, &mv(12, 36)));
    assert!(!move_can_be_judged(&st, &mv(12, 64)));
    // a black pawn on the first rank
    let st = GameState {
        board: empty_with(&[(4, 6), (60, 12), (3, 7)]),
        castling: 0,
        ep_square: 255,
        white_to_move: false,
    };
    assert!(!move_can_be_judged(&st, &mv(3, 11)));
    // no white king: a move its piece may make leaves nothing to look at
    let st = GameState {
        board: empty_with(&[(60, 12), (12, 1)]),
        castling: 0,
        ep_square: 255,
        white_to_move: true,
    };
    assert!(!move_can_be_judged(&st, &mv(12, 20)));
    // but a move its piece may not make is judged (and refused)
    assert!(move_can_be_judged(&st, &mv(12, 44)));
    assert!(!is_valid_move(&st, &mv(12, 44)));
}

#[test]
fn move_changes_only_its_squares() {
    let st = GameState {
        board: empty_with(&[(4, 6), (7, 4), (0, 4), (60, 12), (20, 2)]),
        castling: 15,
        ep_square: 255,
        white_to_move: true,
    };
    let b = apply_move(&st, &mv(4, 6));
    for s in 0..64usize {
        if ![4, 5, 6, 7].contains(&s) {
            assert_eq!(b[s], st.board[s]);
        }
    }
}

// ---- colour symmetry and kings ----

fn mirror_sq(s: u8) -> u8 {
    (7 - s / 8) * 8 + s % 8
}

fn swap_colour(p: u8) -> u8 {
    match p {
        1..=6 => p + 6,
        7..=12 => p - 6,
        _ => p,
    }
}

fn flip_state(st: &GameState) -> GameState {
    let mut board = [0u8; 64];
    for i in 0..64u8 {
        board[mirror_sq(i) as usize] = swap_colour(st.board[i as usize]);
    }
    let c = st.castling;
    GameState {
        board,
        castling: ((c & 0b0011) << 2) | ((c & 0b1100) >> 2) | (c & 0xF0),
        ep_square: if st.ep_square < 64 { mirror_sq(st.ep_square) } else { st.ep_square },
        white_to_move: !st.white_to_move,
    }
}

fn flip_move(m: &Move) -> Move {
    Move { from: mirror_sq(m.from), to: mirror_sq(m.to), promotion: m.promotion }
}

#[test]
fn attacks_are_colour_symmetric() {
    let st = next_state(&next_state(&start(), &mv(12, 28)), &mv(51, 35));
    let fs = flip_state(&st);
    for t in 0u8..64 {
        for w in [true, false] {
            assert_eq!(
                is_attacked_by(&fs.board, mirror_sq(t), !w),
                is_attacked_by(&st.board, t, w)
            );
        }
    }
}

#[test]
fn moves_are_colour_symmetric() {
    let st = next_state(&next_state(&start(), &mv(12, 28)), &mv(51, 35));
    let fs = flip_state(&st);
    for from in 0u8..64 {
        for to in 0u8..64 {
            let m = mv(from, to);
            if !move_can_be_judged(&st, &m) {
                continue;
            }
            let fm = flip_move(&m);
            assert_eq!(is_valid_move(&fs, &fm), is_valid_move(&st, &m));
            if is_valid_move(&st, &m) {
                let a = apply_move(&st, &m);
                let fa = apply_move(&fs, &fm);
                for i in 0u8..64 {
                    assert_eq!(fa[mirror_sq(i) as usize], swap_colour(a[i as usize]));
                }
            }
        }
    }
}

#[test]
fn kings_survive_accepted_transitions() {
    let mut st = start();
    for m in [mv(12, 28), mv(52, 36), mv(6, 21), mv(57, 42), mv(5, 26), mv(62, 45), mv(4, 6)] {
        let n = next_state(&st, &m);
        assert_eq!(validate_transition(&st, &m, &n), Ok(()));
        assert_eq!(n.board.iter().filter(|&&p| p == 6).count(), 1);
        assert_eq!(n.board.iter().filter(|&&p| p == 12).count(), 1);
        st = n;
    }
    // white has castled: king on g1, rook on f1
    assert_eq!((st.board[5], st.board[6], st.board[7]), (4, 6, 0));
}
