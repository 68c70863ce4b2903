//! The random draws a spawn makes.

use vstd::prelude::*;

verus! {

/// Relies on `rand::random_range`: a value drawn from `0..n` by the thread's
/// generator; it panics on an empty range, which `n > 0` rules out.
#[verifier::external_body]
pub(crate) fn random_below(n: usize) -> (r: usize)
    requires
        n > 0,
    ensures
        r < n,
{
    rand::random_range(0..n)
}

} // verus!
