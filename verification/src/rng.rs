//! Trusted boundary to the random number generator.

use vstd::prelude::*;

verus! {

/// Relies on `rand::Rng::gen_range` on a thread-local generator: the
/// result of sampling `0..n` lies below `n`. Nothing is assumed about
/// the distribution.
#[verifier::external_body]
pub(crate) fn rand_below(n: u64) -> (r: u64)
    requires
        n > 0,
    ensures
        r < n,
{
    rand::Rng::gen_range(&mut rand::thread_rng(), 0..n)
}

} // verus!
