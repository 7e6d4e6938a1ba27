//! The crate's only window onto the random number generator of the `rand`
//! crate. Every caller takes whatever comes back and is verified for every
//! possible outcome; the contracts here state no more than the ranges the
//! generator's documentation promises.

use vstd::prelude::*;

verus! {

#[verifier::external_type_specification]
#[verifier::external_body]
pub struct ExSmallRng(rand::rngs::SmallRng);

/// Relies on SeedableRng::seed_from_u64: builds a small, fast generator
/// from an insecure seed; it never fails. Nothing is assumed about the
/// values it will produce.
#[verifier::external_body]
pub(crate) fn rng_from_seed(seed: u64) -> rand::rngs::SmallRng {
    <rand::rngs::SmallRng as rand::SeedableRng>::seed_from_u64(seed)
}

/// Relies on Rng::gen_range over an `i64` half-open range: it panics only
/// on an empty range (ruled out here) and returns a value of the range.
#[verifier::external_body]
pub(crate) fn rand_range(rng: &mut rand::rngs::SmallRng, lo: i64, hi: i64) -> (r: i64)
    requires
        lo < hi,
    ensures
        lo <= r < hi,
{
    rand::Rng::gen_range(rng, lo..hi)
}

/// The random resource: the simulation's single generator.
pub struct Randoms(pub rand::rngs::SmallRng);

} // verus!
