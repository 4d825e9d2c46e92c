//! The source of random coordinates.

use vstd::prelude::*;
use rand::distributions::{Distribution, Uniform};
use rand::rngs::StdRng;

verus! {

/// `rand::rngs::StdRng`, the generator that mine placement draws from. Its
/// state is opaque here: nothing is claimed about the values it will yield.
#[verifier::external_type_specification]
#[verifier::external_body]
pub struct ExStdRng(StdRng);

/// Draws one value with `rand`: builds the distribution `Uniform::new(0,
/// bound)` and calls its `Distribution::sample` on the given generator. The
/// body is not verified. What is taken on trust is what the distribution's
/// documentation promises of every draw, and no more: the value lies in the
/// half-open range from zero to `bound`. `Uniform::new` panics on an empty
/// range, hence the precondition.
#[verifier::external_body]
pub(crate) fn sample_below(rng: &mut StdRng, bound: usize) -> (r: usize)
    requires
        bound > 0,
    ensures
        r < bound,
{
    Uniform::new(0usize, bound).sample(rng)
}

} // verus!
