use vstd::prelude::*;

verus! {

/// The squares of the board, numbered row by row from a8 (0) to h1 (63).
#[derive(Clone, Copy, Debug, PartialEq, Eq, Structural)]
pub enum Square {
    A8,
    B8,
    C8,
    D8,
    E8,
    F8,
    G8,
    H8,
    A7,
    B7,
    C7,
    D7,
    E7,
    F7,
    G7,
    H7,
    A6,
    B6,
    C6,
    D6,
    E6,
    F6,
    G6,
    H6,
    A5,
    B5,
    C5,
    D5,
    E5,
    F5,
    G5,
    H5,
    A4,
    B4,
    C4,
    D4,
    E4,
    F4,
    G4,
    H4,
    A3,
    B3,
    C3,
    D3,
    E3,
    F3,
    G3,
    H3,
    A2,
    B2,
    C2,
    D2,
    E2,
    F2,
    G2,
    H2,
    A1,
    B1,
    C1,
    D1,
    E1,
    F1,
    G1,
    H1,
}

/// The number of a square: rank 8 holds 0 to 7, rank 1 holds 56 to 63.
pub open spec fn square_index(square: Square) -> u64 {
    match square {
        Square::A8 => 0,
        Square::B8 => 1,
        Square::C8 => 2,
        Square::D8 => 3,
        Square::E8 => 4,
        Square::F8 => 5,
        Square::G8 => 6,
        Square::H8 => 7,
        Square::A7 => 8,
        Square::B7 => 9,
        Square::C7 => 10,
        Square::D7 => 11,
        Square::E7 => 12,
        Square::F7 => 13,
        Square::G7 => 14,
        Square::H7 => 15,
        Square::A6 => 16,
        Square::B6 => 17,
        Square::C6 => 18,
        Square::D6 => 19,
        Square::E6 => 20,
        Square::F6 => 21,
        Square::G6 => 22,
        Square::H6 => 23,
        Square::A5 => 24,
        Square::B5 => 25,
        Square::C5 => 26,
        Square::D5 => 27,
        Square::E5 => 28,
        Square::F5 => 29,
        Square::G5 => 30,
        Square::H5 => 31,
        Square::A4 => 32,
        Square::B4 => 33,
        Square::C4 => 34,
        Square::D4 => 35,
        Square::E4 => 36,
        Square::F4 => 37,
        Square::G4 => 38,
        Square::H4 => 39,
        Square::A3 => 40,
        Square::B3 => 41,
        Square::C3 => 42,
        Square::D3 => 43,
        Square::E3 => 44,
        Square::F3 => 45,
        Square::G3 => 46,
        Square::H3 => 47,
        Square::A2 => 48,
        Square::B2 => 49,
        Square::C2 => 50,
        Square::D2 => 51,
        Square::E2 => 52,
        Square::F2 => 53,
        Square::G2 => 54,
        Square::H2 => 55,
        Square::A1 => 56,
        Square::B1 => 57,
        Square::C1 => 58,
        Square::D1 => 59,
        Square::E1 => 60,
        Square::F1 => 61,
        Square::G1 => 62,
        Square::H1 => 63,
    }
}

impl Square {
    /// The number of this square, below 64.
    pub fn index(self) -> (r: u64)
        ensures
            r == square_index(self),
            r < 64,
    {
        match self {
            Square::A8 => 0,
            Square::B8 => 1,
            Square::C8 => 2,
            Square::D8 => 3,
            Square::E8 => 4,
            Square::F8 => 5,
            Square::G8 => 6,
            Square::H8 => 7,
            Square::A7 => 8,
            Square::B7 => 9,
            Square::C7 => 10,
            Square::D7 => 11,
            Square::E7 => 12,
            Square::F7 => 13,
            Square::G7 => 14,
            Square::H7 => 15,
            Square::A6 => 16,
            Square::B6 => 17,
            Square::C6 => 18,
            Square::D6 => 19,
            Square::E6 => 20,
            Square::F6 => 21,
            Square::G6 => 22,
            Square::H6 => 23,
            Square::A5 => 24,
            Square::B5 => 25,
            Square::C5 => 26,
            Square::D5 => 27,
            Square::E5 => 28,
            Square::F5 => 29,
            Square::G5 => 30,
            Square::H5 => 31,
            Square::A4 => 32,
            Square::B4 => 33,
            Square::C4 => 34,
            Square::D4 => 35,
            Square::E4 => 36,
            Square::F4 => 37,
            Square::G4 => 38,
            Square::H4 => 39,
            Square::A3 => 40,
            Square::B3 => 41,
            Square::C3 => 42,
            Square::D3 => 43,
            Square::E3 => 44,
            Square::F3 => 45,
            Square::G3 => 46,
            Square::H3 => 47,
            Square::A2 => 48,
            Square::B2 => 49,
            Square::C2 => 50,
            Square::D2 => 51,
            Square::E2 => 52,
            Square::F2 => 53,
            Square::G2 => 54,
            Square::H2 => 55,
            Square::A1 => 56,
            Square::B1 => 57,
            Square::C1 => 58,
            Square::D1 => 59,
            Square::E1 => 60,
            Square::F1 => 61,
            Square::G1 => 62,
            Square::H1 => 63,
        }
    }
}

impl From<Square> for u64 {
    fn from(square: Square) -> u64 {
        square.index()
    }
}

impl vstd::std_specs::convert::FromSpecImpl<Square> for u64 {
    open spec fn obeys_from_spec() -> bool {
        true
    }

    open spec fn from_spec(v: Square) -> u64 {
        square_index(v)
    }
}

} // verus!
