use chess_attacks::{get_bit, pop_bit, set_bit, Color, Square};

#[test]
fn set_get_and_pop_bits() {
    let mut b = 0u64;
    set_bit(&mut b, 36);
    assert_eq!(b, 1u64 << 36);
    assert_eq!(get_bit(&b, 36), 1u64 << 36);
    assert_eq!(get_bit(&b, 35), 0);
    set_bit(&mut b, 0);
    set_bit(&mut b, 63);
    assert_eq!(b, (1u64 << 36) | 1 | (1u64 << 63));
    set_bit(&mut b, 63);
    assert_eq!(b.count_ones(), 3);
    pop_bit(&mut b, 36);
    assert_eq!(b, 1 | (1u64 << 63));
    pop_bit(&mut b, 36);
    assert_eq!(b, 1 | (1u64 << 63));
    assert_ne!(get_bit(&b, 63), 0);
}

#[test]
fn square_numbering() {
    assert_eq!(Square::A8.index(), 0);
    assert_eq!(Square::H8.index(), 7);
    assert_eq!(Square::A1.index(), 56);
    assert_eq!(Square::H1.index(), 63);
    assert_eq!(Square::E4.index(), 36);
    assert_eq!(u64::from(Square::D5), 27);
    assert_eq!(u64::from(Square::C2), 50);
}

#[test]
fn color_conversions() {
    assert!(bool::from(Color::White));
    assert!(!bool::from(Color::Black));
    assert_eq!(Color::White.slot(), 0);
    assert_eq!(Color::Black.slot(), 1);
}
