//! Chance. The simulation draws its few random choices from the `rand`
//! crate; everything that is made of a draw is a plain function of it.
use vstd::prelude::*;
use crate::fixed::MICRO;

verus! {

/// One draw from `rand::random::<u32>()`, which asks the thread's generator
/// for its next `u32`. Nothing is claimed of the value that comes back.
#[verifier::external_body]
fn draw() -> (r: u32) {
    rand::random::<u32>()
}

/// The fraction that a draw stands for, in millionths: the draw's share of
/// the whole range of a `u32`.
pub open spec fn fraction(draw: int) -> int {
    (draw * MICRO) / 0x1_0000_0000
}

/// Computes the fraction that a draw stands for: at least zero and less than
/// one.
pub fn fraction_of(draw: u32) -> (s: u32)
    ensures
        s == fraction(draw as int),
        s < MICRO,
{
    assert(0 <= draw * MICRO < 0x1_0000_0000 * 1_000_000) by (nonlinear_arith)
        requires
            0 <= draw < 0x1_0000_0000,
            MICRO == 1_000_000,
    ;
    (((draw as u64) * (MICRO as u64)) / 0x1_0000_0000) as u32
}

/// Draws a fraction at random: at least zero and less than one, in
/// millionths.
pub fn sample() -> (s: u32)
    ensures
        s < MICRO,
{
    fraction_of(draw())
}

} // verus!
