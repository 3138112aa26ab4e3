//! Random numbers for the game, drawn from `rand`'s thread-local generator.
//!
//! Each function states only what holds of every outcome: the range the
//! value lies in.

use vstd::prelude::*;
use rand::Rng;

verus! {

/// A uniformly random `u32` in `lo..=hi` (`Rng::gen_range` on an inclusive
/// range, which panics on an empty range).
#[verifier::external_body]
pub(crate) fn random_u32_in(lo: u32, hi: u32) -> (r: u32)
    requires
        lo <= hi,
    ensures
        lo <= r <= hi,
{
    rand::thread_rng().gen_range(lo..=hi)
}

/// A uniformly random `usize` in `lo..=hi` (`Rng::gen_range` on an
/// inclusive range, which panics on an empty range).
#[verifier::external_body]
pub(crate) fn random_usize_in(lo: usize, hi: usize) -> (r: usize)
    requires
        lo <= hi,
    ensures
        lo <= r <= hi,
{
    rand::thread_rng().gen_range(lo..=hi)
}

/// A uniformly random `i64` in `lo..=hi` (`Rng::gen_range` on an inclusive
/// range, which panics on an empty range).
#[verifier::external_body]
pub(crate) fn random_i64_in(lo: i64, hi: i64) -> (r: i64)
    requires
        lo <= hi,
    ensures
        lo <= r <= hi,
{
    rand::thread_rng().gen_range(lo..=hi)
}

/// `true` with probability `num / den` (`Rng::gen_ratio`, which panics when
/// `den == 0` or `num > den`; it always returns `true` when `num == den`
/// and `false` when `num == 0`).
#[verifier::external_body]
pub(crate) fn random_ratio(num: u32, den: u32) -> (r: bool)
    requires
        0 < den,
        num <= den,
    ensures
        num == den ==> r,
        num == 0 ==> !r,
{
    rand::thread_rng().gen_ratio(num, den)
}

} // verus!
