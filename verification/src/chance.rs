//! The game's source of randomness: draws from the thread's generator.

use rand::Rng;
use vstd::prelude::*;

verus! {

/// Calls `rand::Rng::gen_range` on `rand::thread_rng()` with the inclusive
/// range `lo..=hi`. Believed of it: the number drawn lies in that range.
/// `gen_range` panics on an empty range, which `lo <= hi` rules out.
#[verifier::external_body]
pub(crate) fn draw_between(lo: u32, hi: u32) -> (drawn: u32)
    requires
        lo <= hi,
    ensures
        lo <= drawn <= hi,
{
    rand::thread_rng().gen_range(lo..=hi)
}

/// Draws a rating, an age or another small number between `lo` and `hi`,
/// both included.
pub(crate) fn roll_between(lo: u8, hi: u8) -> (roll: u8)
    requires
        lo <= hi,
    ensures
        lo <= roll <= hi,
{
    draw_between(lo as u32, hi as u32) as u8
}

/// Calls `rand::Rng::gen_ratio` on `rand::thread_rng()`: a coin that shows
/// `true` with probability `numerator / denominator`. Believed of it: a
/// probability of one always gives `true`, one of zero always `false`.
/// `gen_ratio` panics on a zero denominator and on a ratio above one.
#[verifier::external_body]
pub(crate) fn chance(numerator: u32, denominator: u32) -> (hit: bool)
    requires
        0 < denominator,
        numerator <= denominator,
    ensures
        numerator == denominator ==> hit,
        numerator == 0 ==> !hit,
{
    rand::thread_rng().gen_ratio(numerator, denominator)
}

} // verus!
