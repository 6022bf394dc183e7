use vstd::prelude::*;

verus! {

/// A set of squares: bit `i` stands for square `i`.
pub type Bitboard = u64;

/// Whether bit `square` of `bitboard` is set.
pub open spec fn bit_set(bitboard: u64, square: u64) -> bool {
    (bitboard >> square) & 1u64 == 1u64
}

/// The squares a bitboard holds.
pub open spec fn squares_of(bitboard: u64) -> Set<int> {
    Set::new(|i: int| 0 <= i < 64 && bit_set(bitboard, i as u64))
}

/// A bitboard with a single bit holds that one square.
pub proof fn lemma_squares_of_single(a: u64)
    requires
        a < 64,
    ensures
        squares_of(1u64 << a) == set![a as int],
{
    assert forall|i: int| 0 <= i < 64 implies #[trigger] bit_set(1u64 << a, i as u64) == (i == a) by {
        let t = i as u64;
        assert(((1u64 << a) >> t) & 1u64 == 1u64 <==> a == t) by (bit_vector)
            requires
                a < 64,
                t < 64,
        ;
    }
    assert(squares_of(1u64 << a) =~= set![a as int]);
}

/// The empty bitboard holds no square.
pub proof fn lemma_squares_of_zero()
    ensures
        squares_of(0u64) == Set::<int>::empty(),
{
    assert forall|i: int| 0 <= i < 64 implies !#[trigger] bit_set(0u64, i as u64) by {
        let t = i as u64;
        assert((0u64 >> t) & 1u64 == 0u64) by (bit_vector);
    }
    assert(squares_of(0u64) =~= Set::<int>::empty());
}

/// Bitwise or is union of the squares held.
pub proof fn lemma_squares_of_or(x: u64, y: u64)
    ensures
        squares_of(x | y) == squares_of(x) + squares_of(y),
{
    assert forall|i: int| 0 <= i < 64 implies #[trigger] bit_set(x | y, i as u64) == (bit_set(x, i as u64)
        || bit_set(y, i as u64)) by {
        let t = i as u64;
        assert((((x | y) >> t) & 1u64 == 1u64) == (((x >> t) & 1u64 == 1u64) || ((y >> t) & 1u64
            == 1u64))) by (bit_vector);
    }
    assert(squares_of(x | y) =~= squares_of(x) + squares_of(y));
}

/// Clearing one bit removes that one square.
pub proof fn lemma_squares_of_clear(x: u64, a: u64)
    requires
        a < 64,
    ensures
        squares_of(x & !(1u64 << a)) == squares_of(x).remove(a as int),
{
    assert forall|i: int| 0 <= i < 64 implies #[trigger] bit_set(x & !(1u64 << a), i as u64) == (bit_set(
        x,
        i as u64,
    ) && i != a) by {
        let t = i as u64;
        assert((((x & !(1u64 << a)) >> t) & 1u64 == 1u64) == (((x >> t) & 1u64 == 1u64) && t
            != a)) by (bit_vector)
            requires
                a < 64,
                t < 64,
        ;
    }
    assert(squares_of(x & !(1u64 << a)) =~= squares_of(x).remove(a as int));
}

proof fn lemma_high_bits_agree(x: u64, y: u64, n: u64)
    requires
        n < 64,
        squares_of(x) == squares_of(y),
    ensures
        x >> n == y >> n,
    decreases 64 - n,
{
    assert(squares_of(x).contains(n as int) == bit_set(x, n));
    assert(squares_of(y).contains(n as int) == bit_set(y, n));
    if n == 63 {
        assert(((x >> 63u64) & 1u64 == 1u64) == ((y >> 63u64) & 1u64 == 1u64) ==> x >> 63u64 == y
            >> 63u64) by (bit_vector);
    } else {
        lemma_high_bits_agree(x, y, (n + 1) as u64);
        let m = (n + 1) as u64;
        assert(x >> m == y >> m && ((x >> n) & 1u64 == 1u64) == ((y >> n) & 1u64 == 1u64) ==> x
            >> n == y >> n) by (bit_vector)
            requires
                n < 63,
                m == n + 1,
        ;
    }
}

/// A bitboard is determined by the squares it holds.
pub proof fn lemma_squares_of_injective(x: u64, y: u64)
    requires
        squares_of(x) == squares_of(y),
    ensures
        x == y,
{
    lemma_high_bits_agree(x, y, 0);
    assert(x >> 0u64 == x && y >> 0u64 == y) by (bit_vector);
}

/// Returns the bit for `square` as it stands in `bitboard`: nonzero exactly when it is set.
pub fn get_bit(bitboard: &Bitboard, square: u64) -> (r: Bitboard)
    requires
        square < 64,
    ensures
        r == *bitboard & (1u64 << square),
        (r != 0) == squares_of(*bitboard).contains(square as int),
{
    let r = *bitboard & (1u64 << square);
    proof {
        let b = *bitboard;
        assert((b & (1u64 << square) != 0) == ((b >> square) & 1u64 == 1u64)) by (bit_vector)
            requires
                square < 64,
        ;
    }
    r
}

/// Adds `square` to `bitboard`.
pub fn set_bit(bitboard: &mut Bitboard, square: u64)
    requires
        square < 64,
    ensures
        *final(bitboard) == *old(bitboard) | (1u64 << square),
        squares_of(*final(bitboard)) == squares_of(*old(bitboard)).insert(square as int),
{
    proof {
        lemma_squares_of_or(*bitboard, 1u64 << square);
        lemma_squares_of_single(square);
        assert(squares_of(*bitboard) + set![square as int] =~= squares_of(*bitboard).insert(
            square as int,
        ));
    }
    *bitboard = *bitboard | (1u64 << square);
}

/// Removes `square` from `bitboard`.
pub fn pop_bit(bitboard: &mut Bitboard, square: u64)
    requires
        square < 64,
    ensures
        *final(bitboard) == *old(bitboard) & !(1u64 << square),
        squares_of(*final(bitboard)) == squares_of(*old(bitboard)).remove(square as int),
{
    proof {
        lemma_squares_of_clear(*bitboard, square);
    }
    *bitboard = *bitboard & !(1u64 << square);
}

} // verus!
