use vstd::prelude::*;

pub mod attacks;
pub mod bitboard;
pub mod geometry;
pub mod piece;
pub mod square;
pub mod theorems;

pub use attacks::{
    king_attacks, knight_attacks, mask_king_attacks, mask_knight_attacks, mask_pawn_attacks,
    pawn_attacks, AttackTable, PawnAttackTable,
};
pub use bitboard::{get_bit, pop_bit, set_bit, Bitboard};
pub use piece::Color;
pub use square::Square;

verus! {

} // verus!
