//! The thread-local random generator, the one source of chance in the game.
use rand::Rng;
use vstd::prelude::*;

verus! {

/// Relies on rand's `Rng::gen_range` on `thread_rng()`: a value drawn from
/// `lo..hi`. It panics on an empty range, which `requires` rules out.
#[verifier::external_body]
pub(crate) fn random_in(lo: i64, hi: i64) -> (r: i64)
    requires
        lo < hi,
    ensures
        lo <= r < hi,
{
    rand::thread_rng().gen_range(lo..hi)
}

/// Relies on rand's `Rng::gen_ratio` on `thread_rng()`: true with probability
/// `num / den`; never when `num` is zero, always when `num == den`. It panics
/// when `den` is zero or `num > den`, which `requires` rules out.
#[verifier::external_body]
pub(crate) fn random_ratio(num: u32, den: u32) -> (r: bool)
    requires
        0 < den,
        num <= den,
    ensures
        num == 0 ==> !r,
        num == den ==> r,
{
    rand::thread_rng().gen_ratio(num, den)
}

} // verus!
