use vstd::prelude::*;

use crate::bitboard::{
    lemma_squares_of_or, lemma_squares_of_single, lemma_squares_of_zero, set_bit, squares_of,
    Bitboard,
};
use crate::geometry::{
    file, is_square, king_step, king_targets, knight_jump, knight_targets, pawn_targets,
};
use crate::piece::{color_slot, Color};

verus! {

/// Every square but those of the a-file.
pub const NOT_A_FILE: u64 = 18374403900871474942;

/// Every square but those of the h-file.
pub const NOT_H_FILE: u64 = 9187201950435737471;

/// Every square but those of the g- and h-files.
pub const NOT_HG_FILE: u64 = 4557430888798830399;

/// Every square but those of the a- and b-files.
pub const NOT_AB_FILE: u64 = 18229723555195321596;

/// Whether an edge guard lets a square of file `f` through.
pub open spec fn guard_keeps(guard: u64, f: int) -> bool {
    if guard == NOT_A_FILE {
        f != 0
    } else if guard == NOT_H_FILE {
        f != 7
    } else if guard == NOT_HG_FILE {
        f < 6
    } else {
        f >= 2
    }
}

pub open spec fn is_guard(guard: u64) -> bool {
    guard == NOT_A_FILE || guard == NOT_H_FILE || guard == NOT_HG_FILE || guard == NOT_AB_FILE
}

proof fn lemma_guard_single(guard: u64, a: u64)
    requires
        is_guard(guard),
        a < 64,
    ensures
        ((1u64 << a) & guard != 0) == guard_keeps(guard, file(a as int)),
{
    assert(((1u64 << a) & 18374403900871474942u64 != 0) == (a % 8 != 0)) by (bit_vector)
        requires
            a < 64,
    ;
    assert(((1u64 << a) & 9187201950435737471u64 != 0) == (a % 8 != 7)) by (bit_vector)
        requires
            a < 64,
    ;
    assert(((1u64 << a) & 4557430888798830399u64 != 0) == (a % 8 < 6)) by (bit_vector)
        requires
            a < 64,
    ;
    assert(((1u64 << a) & 18229723555195321596u64 != 0) == (a % 8 >= 2)) by (bit_vector)
        requires
            a < 64,
    ;
}

/// Shifting the single bit of square `s` down by `k` leaves the bit of square `s - k`, if any.
proof fn lemma_shift_down(attacks: u64, s: u64, k: u64)
    requires
        s < 64,
        0 < k < 64,
    ensures
        (1u64 << s) >> k == (if k <= s {
            1u64 << ((s - k) as u64)
        } else {
            0u64
        }),
        ((1u64 << s) >> k != 0) == (k <= s),
        k <= s ==> squares_of(attacks | ((1u64 << s) >> k)) == squares_of(attacks).insert(s - k),
{
    assert((1u64 << s) >> k == (if k <= s {
        1u64 << ((s - k) as u64)
    } else {
        0u64
    }) && ((1u64 << s) >> k != 0) == (k <= s)) by (bit_vector)
        requires
            s < 64,
            0 < k < 64,
    ;
    if k <= s {
        let a = (s - k) as u64;
        lemma_squares_of_or(attacks, 1u64 << a);
        lemma_squares_of_single(a);
        assert(squares_of(attacks) + set![a as int] =~= squares_of(attacks).insert(a as int));
    }
}

/// Shifting the single bit of square `s` up by `k` leaves the bit of square `s + k`, if any.
proof fn lemma_shift_up(attacks: u64, s: u64, k: u64)
    requires
        s < 64,
        0 < k < 64,
    ensures
        (1u64 << s) << k == (if s + k < 64 {
            1u64 << ((s + k) as u64)
        } else {
            0u64
        }),
        ((1u64 << s) << k != 0) == (s + k < 64),
        s + k < 64 ==> squares_of(attacks | ((1u64 << s) << k)) == squares_of(attacks).insert(
            s + k,
        ),
{
    assert((1u64 << s) << k == (if s + k < 64 {
        1u64 << ((s + k) as u64)
    } else {
        0u64
    }) && ((1u64 << s) << k != 0) == (s + k < 64)) by (bit_vector)
        requires
            s < 64,
            0 < k < 64,
    ;
    if s + k < 64 {
        let a = (s + k) as u64;
        lemma_squares_of_or(attacks, 1u64 << a);
        lemma_squares_of_single(a);
        assert(squares_of(attacks) + set![a as int] =~= squares_of(attacks).insert(a as int));
    }
}

/// A downward shift of the bit of square `s` by `k` survives `guard` exactly when square
/// `s - k` exists and lies on a file that the guard keeps.
proof fn lemma_candidate_down(attacks: u64, s: u64, k: u64, guard: u64)
    requires
        s < 64,
        0 < k < 64,
        is_guard(guard),
    ensures
        (((1u64 << s) >> k) & guard != 0) == (k <= s && guard_keeps(guard, file(s - k))),
        k <= s ==> squares_of(attacks | ((1u64 << s) >> k)) == squares_of(attacks).insert(s - k),
{
    lemma_shift_down(attacks, s, k);
    assert(0u64 & guard == 0u64) by (bit_vector);
    if k <= s {
        lemma_guard_single(guard, (s - k) as u64);
    }
}

/// An upward shift of the bit of square `s` by `k` survives `guard` exactly when square
/// `s + k` exists and lies on a file that the guard keeps.
proof fn lemma_candidate_up(attacks: u64, s: u64, k: u64, guard: u64)
    requires
        s < 64,
        0 < k < 64,
        is_guard(guard),
    ensures
        (((1u64 << s) << k) & guard != 0) == (s + k < 64 && guard_keeps(guard, file(s + k))),
        s + k < 64 ==> squares_of(attacks | ((1u64 << s) << k)) == squares_of(attacks).insert(
            s + k,
        ),
{
    lemma_shift_up(attacks, s, k);
    assert(0u64 & guard == 0u64) by (bit_vector);
    if s + k < 64 {
        lemma_guard_single(guard, (s + k) as u64);
    }
}

/// The knight's jumps as offsets of the square number, each with the files it must not
/// wrap onto.
proof fn lemma_knight_jump_offsets(s: int, t: int)
    requires
        is_square(s),
        is_square(t),
    ensures
        knight_jump(s, t) == ((t == s - 17 && file(t) != 7) || (t == s - 15 && file(t) != 0) || (t
            == s - 10 && file(t) < 6) || (t == s - 6 && file(t) >= 2) || (t == s + 17 && file(t)
            != 0) || (t == s + 15 && file(t) != 7) || (t == s + 10 && file(t) >= 2) || (t == s + 6
            && file(t) < 6)),
{
}

/// The squares a knight on `square` attacks.
pub fn mask_knight_attacks(square: u64) -> (r: Bitboard)
    requires
        square < 64,
    ensures
        squares_of(r) == knight_targets(square as int),
{
    let mut attacks: u64 = 0;
    let mut bitboard: u64 = 0;
    set_bit(&mut bitboard, square);
    proof {
        assert(0u64 | (1u64 << square) == 1u64 << square) by (bit_vector);
        lemma_squares_of_zero();
    }
    let ghost s = square as int;

    proof { lemma_candidate_down(attacks, square, 17, NOT_H_FILE); }
    if ((bitboard >> 17) & NOT_H_FILE) != 0 {
        attacks |= bitboard >> 17;
    }
    proof { lemma_candidate_down(attacks, square, 15, NOT_A_FILE); }
    if ((bitboard >> 15) & NOT_A_FILE) != 0 {
        attacks |= bitboard >> 15;
    }
    proof { lemma_candidate_down(attacks, square, 10, NOT_HG_FILE); }
    if ((bitboard >> 10) & NOT_HG_FILE) != 0 {
        attacks |= bitboard >> 10;
    }
    proof { lemma_candidate_down(attacks, square, 6, NOT_AB_FILE); }
    if ((bitboard >> 6) & NOT_AB_FILE) != 0 {
        attacks |= bitboard >> 6;
    }
    proof { lemma_candidate_up(attacks, square, 17, NOT_A_FILE); }
    if ((bitboard << 17) & NOT_A_FILE) != 0 {
        attacks |= bitboard << 17;
    }
    proof { lemma_candidate_up(attacks, square, 15, NOT_H_FILE); }
    if ((bitboard << 15) & NOT_H_FILE) != 0 {
        attacks |= bitboard << 15;
    }
    proof { lemma_candidate_up(attacks, square, 10, NOT_AB_FILE); }
    if ((bitboard << 10) & NOT_AB_FILE) != 0 {
        attacks |= bitboard << 10;
    }
    proof { lemma_candidate_up(attacks, square, 6, NOT_HG_FILE); }
    if ((bitboard << 6) & NOT_HG_FILE) != 0 {
        attacks |= bitboard << 6;
    }
    proof {
        assert forall|t: int| #[trigger] squares_of(attacks).contains(t) == knight_targets(
            s,
        ).contains(t) by {
            if is_square(t) {
                lemma_knight_jump_offsets(s, t);
            }
        }
        assert(squares_of(attacks) =~= knight_targets(s));
    }
    attacks
}

/// The king's steps as offsets of the square number, each with the file it must not
/// wrap onto.
proof fn lemma_king_step_offsets(s: int, t: int)
    requires
        is_square(s),
        is_square(t),
    ensures
        king_step(s, t) == ((t == s - 8) || (t == s - 9 && file(t) != 7) || (t == s - 7 && file(t)
            != 0) || (t == s - 1 && file(t) != 7) || (t == s + 8) || (t == s + 9 && file(t) != 0)
            || (t == s + 7 && file(t) != 7) || (t == s + 1 && file(t) != 0)),
{
}

/// The squares a king on `square` attacks.
pub fn mask_king_attacks(square: u64) -> (r: Bitboard)
    requires
        square < 64,
    ensures
        squares_of(r) == king_targets(square as int),
{
    let mut attacks: u64 = 0;
    let mut bitboard: u64 = 0;
    set_bit(&mut bitboard, square);
    proof {
        assert(0u64 | (1u64 << square) == 1u64 << square) by (bit_vector);
        lemma_squares_of_zero();
    }
    let ghost s = square as int;

    proof { lemma_shift_down(attacks, square, 8); }
    if (bitboard >> 8) != 0 {
        attacks |= bitboard >> 8;
    }
    proof { lemma_candidate_down(attacks, square, 9, NOT_H_FILE); }
    if ((bitboard >> 9) & NOT_H_FILE) != 0 {
        attacks |= bitboard >> 9;
    }
    proof { lemma_candidate_down(attacks, square, 7, NOT_A_FILE); }
    if ((bitboard >> 7) & NOT_A_FILE) != 0 {
        attacks |= bitboard >> 7;
    }
    proof { lemma_candidate_down(attacks, square, 1, NOT_H_FILE); }
    if ((bitboard >> 1) & NOT_H_FILE) != 0 {
        attacks |= bitboard >> 1;
    }
    proof { lemma_shift_up(attacks, square, 8); }
    if (bitboard << 8) != 0 {
        attacks |= bitboard << 8;
    }
    proof { lemma_candidate_up(attacks, square, 9, NOT_A_FILE); }
    if ((bitboard << 9) & NOT_A_FILE) != 0 {
        attacks |= bitboard << 9;
    }
    proof { lemma_candidate_up(attacks, square, 7, NOT_H_FILE); }
    if ((bitboard << 7) & NOT_H_FILE) != 0 {
        attacks |= bitboard << 7;
    }
    proof { lemma_candidate_up(attacks, square, 1, NOT_A_FILE); }
    if ((bitboard << 1) & NOT_A_FILE) != 0 {
        attacks |= bitboard << 1;
    }
    proof {
        assert forall|t: int| #[trigger] squares_of(attacks).contains(t) == king_targets(s).contains(t) by {
            if is_square(t) {
                lemma_king_step_offsets(s, t);
            }
        }
        assert(squares_of(attacks) =~= king_targets(s));
    }
    attacks
}

/// The squares a pawn of `side` on `square` attacks: White toward lower numbers, Black
/// toward higher ones.
pub fn mask_pawn_attacks(side: Color, square: u64) -> (r: Bitboard)
    requires
        square < 64,
    ensures
        squares_of(r) == pawn_targets(side, square as int),
{
    let mut attacks: u64 = 0;
    let mut bitboard: u64 = 0;
    set_bit(&mut bitboard, square);
    proof {
        assert(0u64 | (1u64 << square) == 1u64 << square) by (bit_vector);
        lemma_squares_of_zero();
    }
    let ghost s = square as int;

    if bool::from(side) {
        proof { lemma_candidate_down(attacks, square, 7, NOT_A_FILE); }
        if ((bitboard >> 7) & NOT_A_FILE) != 0 {
            attacks |= bitboard >> 7;
        }
        proof { lemma_candidate_down(attacks, square, 9, NOT_H_FILE); }
        if ((bitboard >> 9) & NOT_H_FILE) != 0 {
            attacks |= bitboard >> 9;
        }
    } else {
        proof { lemma_candidate_up(attacks, square, 7, NOT_H_FILE); }
        if ((bitboard << 7) & NOT_H_FILE) != 0 {
            attacks |= bitboard << 7;
        }
        proof { lemma_candidate_up(attacks, square, 9, NOT_A_FILE); }
        if ((bitboard << 9) & NOT_A_FILE) != 0 {
            attacks |= bitboard << 9;
        }
    }
    proof {
        assert(squares_of(attacks) =~= pawn_targets(side, s));
    }
    attacks
}

/// For each square, the bitboard of the squares attacked from it.
pub struct AttackTable {
    attacks: [Bitboard; 64],
}

impl View for AttackTable {
    type V = Seq<Bitboard>;

    closed spec fn view(&self) -> Seq<Bitboard> {
        self.attacks@
    }
}

impl AttackTable {
    /// Fills a table with the attacks that `mask_attack_function` gives for each square.
    fn generate_attack_table<F: Fn(u64) -> Bitboard>(mask_attack_function: F) -> (r: Self)
        requires
            forall|square: u64| square < 64 ==> #[trigger] mask_attack_function.requires((square,)),
        ensures
            r@.len() == 64,
            forall|square: u64|
                square < 64 ==> mask_attack_function.ensures((square,), #[trigger] r@[square as int]),
    {
        let mut attacks: [Bitboard; 64] = [0u64; 64];
        let mut square: u64 = 0;
        while square < 64
            invariant
                square <= 64,
                attacks@.len() == 64,
                forall|s: u64| square <= 64 && s < 64 ==> #[trigger] mask_attack_function.requires((s,)),
                forall|s: u64|
                    s < square ==> mask_attack_function.ensures((s,), #[trigger] attacks@[s as int]),
            decreases 64 - square,
        {
            attacks[square as usize] = mask_attack_function(square);
            square = square + 1;
        }
        AttackTable { attacks }
    }

    /// The attacks from `square`.
    pub fn get(&self, square: u64) -> (r: Bitboard)
        requires
            square < 64,
        ensures
            r == self@[square as int],
    {
        self.attacks[square as usize]
    }
}

/// For each side, the table of the squares its pawns attack.
pub struct PawnAttackTable {
    attacks: [AttackTable; 2],
}

impl PawnAttackTable {
    /// The table of `side`.
    pub closed spec fn table_of(&self, side: Color) -> Seq<Bitboard> {
        self.attacks@[color_slot(side)]@
    }

    fn new(white: [Bitboard; 64], black: [Bitboard; 64]) -> (r: Self)
        ensures
            r.table_of(Color::White) == white@,
            r.table_of(Color::Black) == black@,
    {
        PawnAttackTable { attacks: [AttackTable { attacks: white }, AttackTable { attacks: black }] }
    }

    /// The table of `side`.
    pub fn side(&self, side: Color) -> (r: &AttackTable)
        ensures
            r@ == self.table_of(side),
    {
        &self.attacks[side.slot()]
    }

    /// The attacks of a pawn of `side` from `square`.
    pub fn get(&self, side: Color, square: u64) -> (r: Bitboard)
        requires
            square < 64,
        ensures
            r == self.table_of(side)[square as int],
    {
        self.side(side).get(square)
    }
}

/// Whether `table` holds, for each square, the knight attacks from it.
pub open spec fn is_knight_table(table: Seq<Bitboard>) -> bool {
    table.len() == 64 && forall|s: int|
        0 <= s < 64 ==> squares_of(#[trigger] table[s]) == knight_targets(s)
}

/// Whether `table` holds, for each square, the king attacks from it.
pub open spec fn is_king_table(table: Seq<Bitboard>) -> bool {
    table.len() == 64 && forall|s: int|
        0 <= s < 64 ==> squares_of(#[trigger] table[s]) == king_targets(s)
}

/// Whether `table` holds, for each square, the attacks of a pawn of `side` from it.
pub open spec fn is_pawn_table(side: Color, table: Seq<Bitboard>) -> bool {
    table.len() == 64 && forall|s: int|
        0 <= s < 64 ==> squares_of(#[trigger] table[s]) == pawn_targets(side, s)
}

/// Builds the knight table.
pub fn knight_attacks() -> (r: AttackTable)
    ensures
        is_knight_table(r@),
{
    let r = AttackTable::generate_attack_table(mask_knight_attacks);
    assert forall|s: int| 0 <= s < 64 implies squares_of(#[trigger] r@[s]) == knight_targets(s) by {
        assert(mask_knight_attacks.ensures(((s as u64),), r@[(s as u64) as int]));
    }
    r
}

/// Builds the king table.
pub fn king_attacks() -> (r: AttackTable)
    ensures
        is_king_table(r@),
{
    let r = AttackTable::generate_attack_table(mask_king_attacks);
    assert forall|s: int| 0 <= s < 64 implies squares_of(#[trigger] r@[s]) == king_targets(s) by {
        assert(mask_king_attacks.ensures(((s as u64),), r@[(s as u64) as int]));
    }
    r
}

/// Builds the pawn tables of both sides.
pub fn pawn_attacks() -> (r: PawnAttackTable)
    ensures
        is_pawn_table(Color::White, r.table_of(Color::White)),
        is_pawn_table(Color::Black, r.table_of(Color::Black)),
{
    let mut white_attacks: [Bitboard; 64] = [0u64; 64];
    let mut black_attacks: [Bitboard; 64] = [0u64; 64];
    let mut square: u64 = 0;
    while square < 64
        invariant
            square <= 64,
            white_attacks@.len() == 64,
            black_attacks@.len() == 64,
            forall|s: int|
                0 <= s < square ==> squares_of(#[trigger] white_attacks@[s]) == pawn_targets(
                    Color::White,
                    s,
                ),
            forall|s: int|
                0 <= s < square ==> squares_of(#[trigger] black_attacks@[s]) == pawn_targets(
                    Color::Black,
                    s,
                ),
        decreases 64 - square,
    {
        white_attacks[square as usize] = mask_pawn_attacks(Color::White, square);
        black_attacks[square as usize] = mask_pawn_attacks(Color::Black, square);
        square = square + 1;
    }
    PawnAttackTable::new(white_attacks, black_attacks)
}

} // verus!
