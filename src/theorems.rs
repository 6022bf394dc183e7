use vstd::prelude::*;

use crate::attacks::{is_king_table, is_knight_table, is_pawn_table};
use crate::bitboard::{lemma_squares_of_injective, squares_of, Bitboard};
use crate::geometry::{
    abs,
    file,
    is_square,
    king_targets,
    knight_targets,
    pawn_targets,
    row,
};
use crate::piece::Color;

verus! {

/// No piece attacks the square it stands on.
pub proof fn lemma_attacks_exclude_origin(s: int)
    requires
        is_square(s),
    ensures
        !knight_targets(s).contains(s),
        !king_targets(s).contains(s),
        !pawn_targets(Color::White, s).contains(s),
        !pawn_targets(Color::Black, s).contains(s),
{
}

/// Every attacked square lies at most two files from the origin, so no attack wraps from
/// one edge file to the other: from the a-file nothing on the h-file is attacked, and from
/// the h-file nothing on the a-file.
pub proof fn lemma_no_wraparound(s: int)
    requires
        is_square(s),
    ensures
        forall|t: int|
            #![trigger knight_targets(s).contains(t)]
            #![trigger king_targets(s).contains(t)]
            #![trigger pawn_targets(Color::White, s).contains(t)]
            #![trigger pawn_targets(Color::Black, s).contains(t)]
            knight_targets(s).contains(t) || king_targets(s).contains(t) || pawn_targets(
                Color::White,
                s,
            ).contains(t) || pawn_targets(Color::Black, s).contains(t) ==> {
                &&& abs(file(t) - file(s)) <= 2
                &&& file(s) == 0 ==> file(t) != 7
                &&& file(s) == 7 ==> file(t) != 0
            },
{
}

/// A knight on `s` attacks `t` exactly when a knight on `t` attacks `s`.
pub proof fn lemma_knight_symmetric(s: int, t: int)
    requires
        is_square(s),
        is_square(t),
    ensures
        knight_targets(s).contains(t) == knight_targets(t).contains(s),
{
}

/// White pawns attack toward the lower rows (lower square numbers), Black pawns toward the
/// higher ones.
pub proof fn lemma_pawn_direction(s: int)
    requires
        is_square(s),
    ensures
        forall|t: int|
            #[trigger] pawn_targets(Color::White, s).contains(t) ==> row(t) == row(s) - 1 && t < s,
        forall|t: int|
            #[trigger] pawn_targets(Color::Black, s).contains(t) ==> row(t) == row(s) + 1 && t > s,
{
}

/// Two bitboards that meet the contract of the same mask generator on the same input are
/// identical.
pub proof fn lemma_mask_outputs_identical(side: Color, s: int, r1: Bitboard, r2: Bitboard)
    requires
        is_square(s),
        (squares_of(r1) == knight_targets(s) && squares_of(r2) == knight_targets(s)) || (
        squares_of(r1) == king_targets(s) && squares_of(r2) == king_targets(s)) || (squares_of(r1)
            == pawn_targets(side, s) && squares_of(r2) == pawn_targets(side, s)),
    ensures
        r1 == r2,
{
    lemma_squares_of_injective(r1, r2);
}

/// Two tables that meet the contract of the same table builder are identical.
pub proof fn lemma_tables_identical(side: Color, a: Seq<Bitboard>, b: Seq<Bitboard>)
    requires
        (is_knight_table(a) && is_knight_table(b)) || (is_king_table(a) && is_king_table(b)) || (
        is_pawn_table(side, a) && is_pawn_table(side, b)),
    ensures
        a == b,
{
    assert forall|s: int| 0 <= s < 64 implies a[s] == b[s] by {
        lemma_squares_of_injective(a[s], b[s]);
    }
    assert(a =~= b);
}

/// Whether `s` is one of the four corners.
pub open spec fn is_corner(s: int) -> bool {
    (row(s) == 0 || row(s) == 7) && (file(s) == 0 || file(s) == 7)
}

/// Whether `s` lies on the outer ring of the board.
pub open spec fn on_edge(s: int) -> bool {
    row(s) == 0 || row(s) == 7 || file(s) == 0 || file(s) == 7
}

/// `set` with `t` added when `keep` holds.
spec fn with_if(set: Set<int>, keep: bool, t: int) -> Set<int> {
    if keep {
        set.insert(t)
    } else {
        set
    }
}

/// Adding a new element when `keep` holds grows a finite set by one exactly then.
proof fn lemma_with_if_len(set: Set<int>, keep: bool, t: int)
    requires
        set.finite(),
        !set.contains(t),
    ensures
        with_if(set, keep, t).finite(),
        with_if(set, keep, t).len() == set.len() + if keep {
            1int
        } else {
            0int
        },
{
}

/// A knight attacks two squares from a corner, three or four from the other squares of
/// the edge, and eight from every square at least two rows and two files from each edge.
pub proof fn lemma_knight_attack_counts(s: int)
    requires
        is_square(s),
    ensures
        knight_targets(s).finite(),
        is_corner(s) ==> knight_targets(s).len() == 2,
        on_edge(s) && !is_corner(s) ==> knight_targets(s).len() == 3 || knight_targets(s).len()
            == 4,
        2 <= row(s) <= 5 && 2 <= file(s) <= 5 ==> knight_targets(s).len() == 8,
{
    let r = row(s);
    let f = file(s);
    let s0 = Set::<int>::empty();
    let s1 = with_if(s0, r >= 2 && f >= 1, s - 17);
    lemma_with_if_len(s0, r >= 2 && f >= 1, s - 17);
    let s2 = with_if(s1, r >= 2 && f <= 6, s - 15);
    lemma_with_if_len(s1, r >= 2 && f <= 6, s - 15);
    let s3 = with_if(s2, r >= 1 && f >= 2, s - 10);
    lemma_with_if_len(s2, r >= 1 && f >= 2, s - 10);
    let s4 = with_if(s3, r >= 1 && f <= 5, s - 6);
    lemma_with_if_len(s3, r >= 1 && f <= 5, s - 6);
    let s5 = with_if(s4, r <= 5 && f <= 6, s + 17);
    lemma_with_if_len(s4, r <= 5 && f <= 6, s + 17);
    let s6 = with_if(s5, r <= 5 && f >= 1, s + 15);
    lemma_with_if_len(s5, r <= 5 && f >= 1, s + 15);
    let s7 = with_if(s6, r <= 6 && f <= 5, s + 10);
    lemma_with_if_len(s6, r <= 6 && f <= 5, s + 10);
    let s8 = with_if(s7, r <= 6 && f >= 2, s + 6);
    lemma_with_if_len(s7, r <= 6 && f >= 2, s + 6);
    assert(knight_targets(s) =~= s8);
}

/// A king attacks three squares from a corner, five from the other squares of the edge,
/// and eight from every other square.
pub proof fn lemma_king_attack_counts(s: int)
    requires
        is_square(s),
    ensures
        king_targets(s).finite(),
        is_corner(s) ==> king_targets(s).len() == 3,
        on_edge(s) && !is_corner(s) ==> king_targets(s).len() == 5,
        !on_edge(s) ==> king_targets(s).len() == 8,
{
    let r = row(s);
    let f = file(s);
    let s0 = Set::<int>::empty();
    let s1 = with_if(s0, r >= 1 && f >= 1, s - 9);
    lemma_with_if_len(s0, r >= 1 && f >= 1, s - 9);
    let s2 = with_if(s1, r >= 1, s - 8);
    lemma_with_if_len(s1, r >= 1, s - 8);
    let s3 = with_if(s2, r >= 1 && f <= 6, s - 7);
    lemma_with_if_len(s2, r >= 1 && f <= 6, s - 7);
    let s4 = with_if(s3, f >= 1, s - 1);
    lemma_with_if_len(s3, f >= 1, s - 1);
    let s5 = with_if(s4, f <= 6, s + 1);
    lemma_with_if_len(s4, f <= 6, s + 1);
    let s6 = with_if(s5, r <= 6 && f >= 1, s + 7);
    lemma_with_if_len(s5, r <= 6 && f >= 1, s + 7);
    let s7 = with_if(s6, r <= 6, s + 8);
    lemma_with_if_len(s6, r <= 6, s + 8);
    let s8 = with_if(s7, r <= 6 && f <= 6, s + 9);
    lemma_with_if_len(s7, r <= 6 && f <= 6, s + 9);
    assert(king_targets(s) =~= s8);
}

} // verus!
