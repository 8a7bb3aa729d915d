//! The injectable random generator behind the fairness selector.
//!
//! The selector draws one index per attempt from a seedable generator that
//! the caller passes in, so a run is reproducible under a fixed seed.
use vstd::prelude::*;
use rand::Rng;

verus! {

#[verifier::external_type_specification]
#[verifier::external_body]
pub struct ExStdRng(rand::rngs::StdRng);

/// Relies on rand's `Rng::gen_range` over `0..n`: returns a uniformly drawn
/// value of the range. It panics only on an empty range, which the
/// precondition rules out; of the drawn value nothing is promised beyond its
/// bound.
#[verifier::external_body]
pub(crate) fn gen_index(rng: &mut rand::rngs::StdRng, n: usize) -> (r: usize)
    requires
        n >= 1,
    ensures
        r < n,
{
    rng.gen_range(0..n)
}

} // verus!
