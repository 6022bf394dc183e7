use chess_attacks::{
    king_attacks, knight_attacks, mask_king_attacks, mask_knight_attacks, mask_pawn_attacks,
    pawn_attacks, Color, Square,
};

fn bits(squares: &[Square]) -> u64 {
    let mut b = 0u64;
    for s in squares {
        b |= 1u64 << s.index();
    }
    b
}

fn file_of(s: u64) -> i64 {
    (s % 8) as i64
}

fn row_of(s: u64) -> i64 {
    (s / 8) as i64
}

#[test]
fn knight_from_a1_corner() {
    let r = mask_knight_attacks(Square::A1.index());
    assert_eq!(r, bits(&[Square::B3, Square::C2]));
    assert_eq!(r, (1u64 << 41) | (1u64 << 50));
    assert_eq!(r.count_ones(), 2);
}

#[test]
fn king_from_a1_corner() {
    let r = mask_king_attacks(Square::A1.index());
    assert_eq!(r, bits(&[Square::A2, Square::B1, Square::B2]));
    assert_eq!(r, (1u64 << 48) | (1u64 << 57) | (1u64 << 49));
    assert_eq!(r.count_ones(), 3);
}

#[test]
fn white_pawn_from_e4() {
    let r = mask_pawn_attacks(Color::White, Square::E4.index());
    assert_eq!(r, bits(&[Square::D5, Square::F5]));
    assert_eq!(r, (1u64 << 27) | (1u64 << 29));
}

#[test]
fn black_pawn_from_e4() {
    let r = mask_pawn_attacks(Color::Black, Square::E4.index());
    assert_eq!(r, bits(&[Square::D3, Square::F3]));
    assert_eq!(r, (1u64 << 43) | (1u64 << 45));
}

#[test]
fn knight_from_d4_interior() {
    let d4 = Square::D4.index();
    let r = mask_knight_attacks(d4);
    assert_eq!(r.count_ones(), 8);
    assert_eq!(r & (1u64 << d4), 0);
    assert_eq!(
        r,
        bits(&[
            Square::C6,
            Square::E6,
            Square::B5,
            Square::F5,
            Square::B3,
            Square::F3,
            Square::C2,
            Square::E2
        ])
    );
}

#[test]
fn king_from_h1_corner() {
    let r = mask_king_attacks(Square::H1.index());
    assert_eq!(r, bits(&[Square::G1, Square::G2, Square::H2]));
    assert_eq!(r.count_ones(), 3);
}

#[test]
fn no_square_attacks_itself() {
    for s in 0..64u64 {
        let own = 1u64 << s;
        assert_eq!(mask_knight_attacks(s) & own, 0);
        assert_eq!(mask_king_attacks(s) & own, 0);
        assert_eq!(mask_pawn_attacks(Color::White, s) & own, 0);
        assert_eq!(mask_pawn_attacks(Color::Black, s) & own, 0);
    }
}

#[test]
fn no_attack_wraps_between_edge_files() {
    let a_file: u64 = 0x0101_0101_0101_0101;
    let h_file: u64 = 0x8080_8080_8080_8080;
    for s in 0..64u64 {
        let all = mask_knight_attacks(s)
            | mask_king_attacks(s)
            | mask_pawn_attacks(Color::White, s)
            | mask_pawn_attacks(Color::Black, s);
        if file_of(s) == 0 {
            assert_eq!(all & h_file, 0, "square {}", s);
        }
        if file_of(s) == 7 {
            assert_eq!(all & a_file, 0, "square {}", s);
        }
        for t in 0..64u64 {
            if all & (1u64 << t) != 0 {
                assert!((file_of(t) - file_of(s)).abs() <= 2);
            }
        }
    }
}

#[test]
fn knight_counts_by_region() {
    for s in 0..64u64 {
        let n = mask_knight_attacks(s).count_ones();
        let (r, f) = (row_of(s), file_of(s));
        let corner = (r == 0 || r == 7) && (f == 0 || f == 7);
        let edge = r == 0 || r == 7 || f == 0 || f == 7;
        if corner {
            assert_eq!(n, 2);
        } else if edge {
            assert!(n == 3 || n == 4);
        }
        if (2..=5).contains(&r) && (2..=5).contains(&f) {
            assert_eq!(n, 8);
        }
    }
    assert_eq!(mask_knight_attacks(Square::A2.index()).count_ones(), 3);
    assert_eq!(mask_knight_attacks(Square::A3.index()).count_ones(), 4);
}

#[test]
fn king_counts_by_region() {
    for s in 0..64u64 {
        let n = mask_king_attacks(s).count_ones();
        let (r, f) = (row_of(s), file_of(s));
        let corner = (r == 0 || r == 7) && (f == 0 || f == 7);
        let edge = r == 0 || r == 7 || f == 0 || f == 7;
        if corner {
            assert_eq!(n, 3);
        } else if edge {
            assert_eq!(n, 5);
        } else {
            assert_eq!(n, 8);
        }
    }
}

#[test]
fn knight_attacks_are_symmetric() {
    for s in 0..64u64 {
        for t in 0..64u64 {
            let st = mask_knight_attacks(s) & (1u64 << t) != 0;
            let ts = mask_knight_attacks(t) & (1u64 << s) != 0;
            assert_eq!(st, ts);
        }
    }
}

#[test]
fn generators_and_tables_are_deterministic() {
    for s in 0..64u64 {
        assert_eq!(mask_knight_attacks(s), mask_knight_attacks(s));
        assert_eq!(mask_king_attacks(s), mask_king_attacks(s));
        assert_eq!(mask_pawn_attacks(Color::White, s), mask_pawn_attacks(Color::White, s));
    }
    let (k1, k2) = (knight_attacks(), knight_attacks());
    let (g1, g2) = (king_attacks(), king_attacks());
    let (p1, p2) = (pawn_attacks(), pawn_attacks());
    for s in 0..64u64 {
        assert_eq!(k1.get(s), k2.get(s));
        assert_eq!(g1.get(s), g2.get(s));
        assert_eq!(p1.get(Color::White, s), p2.get(Color::White, s));
        assert_eq!(p1.get(Color::Black, s), p2.get(Color::Black, s));
    }
}

#[test]
fn pawns_attack_forward() {
    for s in 0..64u64 {
        for t in 0..64u64 {
            if mask_pawn_attacks(Color::White, s) & (1u64 << t) != 0 {
                assert_eq!(row_of(t), row_of(s) - 1);
            }
            if mask_pawn_attacks(Color::Black, s) & (1u64 << t) != 0 {
                assert_eq!(row_of(t), row_of(s) + 1);
            }
        }
    }
    assert_eq!(mask_pawn_attacks(Color::White, Square::E8.index()), 0);
    assert_eq!(mask_pawn_attacks(Color::Black, Square::E1.index()), 0);
    assert_eq!(mask_pawn_attacks(Color::White, Square::A2.index()), bits(&[Square::B3]));
    assert_eq!(mask_pawn_attacks(Color::Black, Square::H7.index()), bits(&[Square::G6]));
}

#[test]
fn tables_match_generators() {
    let knights = knight_attacks();
    let kings = king_attacks();
    let pawns = pawn_attacks();
    for s in 0..64u64 {
        assert_eq!(knights.get(s), mask_knight_attacks(s));
        assert_eq!(kings.get(s), mask_king_attacks(s));
        assert_eq!(pawns.get(Color::White, s), mask_pawn_attacks(Color::White, s));
        assert_eq!(pawns.get(Color::Black, s), mask_pawn_attacks(Color::Black, s));
        assert_eq!(pawns.side(Color::Black).get(s), mask_pawn_attacks(Color::Black, s));
    }
    assert_eq!(knights.get(Square::A1.index()), bits(&[Square::B3, Square::C2]));
}

#[test]
fn edge_cases_of_mask_generators() {
    assert_eq!(mask_knight_attacks(0), bits(&[Square::C7, Square::B6]));
    assert_eq!(mask_knight_attacks(63), bits(&[Square::F2, Square::G3]));
    assert_eq!(mask_king_attacks(7), bits(&[Square::G8, Square::G7, Square::H7]));
    assert_eq!(
        mask_king_attacks(Square::E4.index()),
        bits(&[
            Square::D5,
            Square::E5,
            Square::F5,
            Square::D4,
            Square::F4,
            Square::D3,
            Square::E3,
            Square::F3
        ])
    );
    assert_eq!(mask_knight_attacks(Square::H4.index()).count_ones(), 4);
}
