//! The random source: the one place the library touches the `rand` crate.

use vstd::prelude::*;

verus! {

/// `rand`'s thread-local generator, carried through the library as an opaque
/// value; every draw the algorithm makes consumes entropy from it.
#[verifier::external_type_specification]
#[verifier::external_body]
pub struct ExThreadRng(rand::rngs::ThreadRng);

/// Relies on `rand`'s `Rng::gen_range`: on the range `0..n` it returns a
/// uniformly distributed value below `n`, and panics only when the range is
/// empty. Nothing can be promised about which value comes back.
#[verifier::external_body]
pub(crate) fn rand_below(rng: &mut rand::rngs::ThreadRng, n: usize) -> (r: usize)
    requires
        n >= 1,
    ensures
        r < n,
{
    rand::Rng::gen_range(rng, 0..n)
}

} // verus!
