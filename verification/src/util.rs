//! Random construction and the geometric sampler.
//!
//! All randomness of the library comes from the thread-local generator of
//! the `rand` crate, through the two trusted functions of this module. That
//! generator is seeded from the operating system when a thread first asks
//! for it, and panics if the operating system has no randomness to give:
//! this does not depend on any argument, and nothing here excludes it.

use vstd::prelude::*;
use rand::Rng;
use crate::error::GeneError;

verus! {

/// A type of which a random value can be made.
pub trait Create: Sized {
    /// A fresh value, every part of it drawn uniformly from its full range.
    fn create() -> Self;
}

/// The number of equally likely values of one uniform draw: a draw `d`
/// stands for the number `d / DRAW_RESOLUTION` in `[0, 1)`.
pub const DRAW_RESOLUTION: usize = 16_777_216;

/// Calls `gen_range(low..high)` of `rand::Rng` on the generator that
/// `rand::thread_rng()` hands out: a number drawn uniformly from
/// `low .. high`. The outside function panics on an empty range, which
/// `low < high` excludes. All that is claimed of the result is that it lies
/// in the range; that the draws are uniform and independent is not stated.
#[verifier::external_body]
pub(crate) fn random_between(low: usize, high: usize) -> (value: usize)
    requires
        low < high,
    ensures
        low <= value < high,
{
    rand::thread_rng().gen_range(low..high)
}

/// Calls `gen::<u8>()` of `rand::Rng` on the generator that
/// `rand::thread_rng()` hands out: a byte drawn uniformly from all bytes.
/// Nothing is claimed of the result.
#[verifier::external_body]
pub(crate) fn random_byte() -> (value: u8) {
    rand::thread_rng().gen::<u8>()
}

/// Whether the draw `draw / DRAW_RESOLUTION` lies above the success
/// probability `1 - 1 / expected`.
pub open spec fn exceeds_threshold(draw: nat, expected: nat) -> bool {
    draw * expected > DRAW_RESOLUTION * (expected - 1)
}

/// No draw lies above the success probability where `expected` is at least
/// the resolution of a draw.
pub proof fn no_failure_above_resolution(draw: nat, expected: nat)
    requires
        draw < DRAW_RESOLUTION,
        expected >= DRAW_RESOLUTION,
    ensures
        !exceeds_threshold(draw, expected),
{
    assert(draw * expected <= DRAW_RESOLUTION * (expected - 1)) by (nonlinear_arith)
        requires
            draw + 1 <= DRAW_RESOLUTION,
            expected >= DRAW_RESOLUTION,
            DRAW_RESOLUTION > 0,
    ;
}

/// Decides whether a draw counts as a failure of the sampler, that is
/// whether it lies above the success probability `1 - 1 / expected`.
pub fn draw_exceeds(draw: usize, expected: usize) -> (failure: bool)
    requires
        expected > 0,
    ensures
        failure == exceeds_threshold(draw as nat, expected as nat),
{
    assert(draw * expected <= 0xffff_ffff_ffff_ffff * 0xffff_ffff_ffff_ffff) by (nonlinear_arith)
        requires
            0 <= draw <= 0xffff_ffff_ffff_ffff,
            0 <= expected <= 0xffff_ffff_ffff_ffff,
    ;
    assert(DRAW_RESOLUTION * (expected - 1) <= 16_777_216 * 0xffff_ffff_ffff_ffff) by (nonlinear_arith)
        requires
            DRAW_RESOLUTION == 16_777_216,
            0 <= expected - 1 <= 0xffff_ffff_ffff_ffff,
    ;
    let scaled_draw: u128 = (draw as u128) * (expected as u128);
    let threshold: u128 = (DRAW_RESOLUTION as u128) * ((expected - 1) as u128);
    scaled_draw > threshold
}

/// Draws a count from a geometric distribution: the number of draws that
/// lie above `1 - 1 / expected` before the first one that does not.
///
/// `expected` is a tuning knob and not the mean, which is
/// `1 / (expected - 1)` for `expected > 1`. With an `expected` of 1 the
/// success probability is 0: only the draw 0 ends the count, which then is
/// about `DRAW_RESOLUTION` on average and takes as many draws. From an
/// `expected` of `DRAW_RESOLUTION` on every draw succeeds, and the count is
/// 0. A count that reaches `usize::MAX` stops there.
pub fn rnd_exp(expected: usize) -> (count: Result<usize, GeneError>)
    ensures
        count is Err <==> expected == 0,
        count is Err ==> count == Err::<usize, GeneError>(GeneError::InvalidArgument),
        expected >= DRAW_RESOLUTION ==> count == Ok::<usize, GeneError>(0),
{
    if expected == 0 {
        return Err(GeneError::InvalidArgument);
    }
    let mut result: usize = 0;
    loop
        invariant
            expected > 0,
            expected >= DRAW_RESOLUTION ==> result == 0,
        decreases usize::MAX - result,
    {
        let draw = random_between(0, DRAW_RESOLUTION);
        proof {
            if expected >= DRAW_RESOLUTION {
                no_failure_above_resolution(draw as nat, expected as nat);
            }
        }
        if result == usize::MAX || !draw_exceeds(draw, expected) {
            break ;
        }
        result += 1;
    }
    Ok(result)
}

} // verus!
