//! Dice for the game rules: the thread's random generator behind two calls.
use vstd::prelude::*;
use rand::Rng;

verus! {

/// `rand::Rng::gen_range(lo..hi)` on the thread's generator. The crate
/// documents a value drawn from the half-open range, and a panic when the
/// range is empty; nothing is promised of which value comes out.
#[verifier::external_body]
pub(crate) fn roll_below(lo: i64, hi: i64) -> (r: i64)
    requires
        lo < hi,
    ensures
        lo <= r < hi,
{
    rand::thread_rng().gen_range(lo..hi)
}

/// `rand::random::<u32>()`: any 32-bit value; nothing is promised of which.
#[verifier::external_body]
pub(crate) fn random_u32() -> (r: u32)
{
    rand::random::<u32>()
}

/// A value drawn from `lo..hi`.
pub(crate) fn roll_i32_below(lo: i32, hi: i32) -> (r: i32)
    requires
        lo < hi,
    ensures
        lo <= r < hi,
{
    roll_below(lo as i64, hi as i64) as i32
}

/// A value drawn from `lo..=hi`.
pub(crate) fn roll_i32_between(lo: i32, hi: i32) -> (r: i32)
    requires
        lo <= hi,
    ensures
        lo <= r <= hi,
{
    roll_below(lo as i64, hi as i64 + 1) as i32
}

} // verus!
