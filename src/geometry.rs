use vstd::prelude::*;

use crate::piece::Color;

verus! {

/// Whether `s` numbers a square of the board.
pub open spec fn is_square(s: int) -> bool {
    0 <= s < 64
}

/// The row of a square, 0 for rank 8 down to 7 for rank 1.
pub open spec fn row(s: int) -> int {
    s / 8
}

/// The file of a square, 0 for the a-file up to 7 for the h-file.
pub open spec fn file(s: int) -> int {
    s % 8
}

pub open spec fn abs(x: int) -> int {
    if x < 0 {
        -x
    } else {
        x
    }
}

/// A knight on `s` reaches `t`: two rows and one file apart, or one row and two files.
pub open spec fn knight_jump(s: int, t: int) -> bool {
    let dr = abs(row(t) - row(s));
    let df = abs(file(t) - file(s));
    (dr == 1 && df == 2) || (dr == 2 && df == 1)
}

/// A king on `s` reaches `t`: a neighbouring square, at most one row and one file apart.
pub open spec fn king_step(s: int, t: int) -> bool {
    let dr = abs(row(t) - row(s));
    let df = abs(file(t) - file(s));
    dr <= 1 && df <= 1 && !(dr == 0 && df == 0)
}

/// The row a pawn of `side` captures toward: White toward row 0, Black toward row 7.
pub open spec fn forward(side: Color) -> int {
    match side {
        Color::White => -1,
        Color::Black => 1,
    }
}

/// A pawn of `side` on `s` captures on `t`: one row forward and one file aside.
pub open spec fn pawn_capture(side: Color, s: int, t: int) -> bool {
    row(t) - row(s) == forward(side) && abs(file(t) - file(s)) == 1
}

/// The squares a knight on `s` attacks on an empty board.
pub open spec fn knight_targets(s: int) -> Set<int> {
    Set::new(|t: int| is_square(t) && knight_jump(s, t))
}

/// The squares a king on `s` attacks.
pub open spec fn king_targets(s: int) -> Set<int> {
    Set::new(|t: int| is_square(t) && king_step(s, t))
}

/// The squares a pawn of `side` on `s` attacks.
pub open spec fn pawn_targets(side: Color, s: int) -> Set<int> {
    Set::new(|t: int| is_square(t) && pawn_capture(side, s, t))
}

} // verus!
