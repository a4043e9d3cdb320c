//! The draw of the next piece.

use crate::geometry::TetrominoType;
use rand::Rng;
use vstd::prelude::*;

verus! {

/// Draws a number with `gen_range(0..7)` on `rand::thread_rng()`. That call
/// returns a value of the half-open range it is given, so here one of 0 to 6;
/// which one is left to chance, and nothing more is claimed.
#[verifier::external_body]
fn draw_index() -> (n: i32)
    ensures
        0 <= n < 7,
{
    rand::thread_rng().gen_range(0..7)
}

/// Draws the kind of a piece, each of the seven with the same chance. There
/// is no guard against the same kind coming many times in a row.
pub fn random_piece_type() -> (t: TetrominoType)
    ensures
        t.is_standard(),
{
    TetrominoType::from_index(draw_index())
}

} // verus!
