//! The seedable random source used by the debris generator.
//!
//! Randomness is injected as an explicit dependency (a generator value
//! threaded through the calls) rather than drawn from a global source, so
//! cascade outcomes are reproducible under a fixed seed. The generator
//! itself comes from the `rand` crate; nothing is assumed about the values
//! it yields beyond the requested range.

use vstd::prelude::*;

verus! {

/// The standard random number generator of the `rand` crate, opaque to the
/// kernel's reasoning: no contract ever depends on which values it yields.
#[verifier::external_type_specification]
#[verifier::external_body]
pub struct ExStdRng(rand::rngs::StdRng);

/// Relies on `rand::SeedableRng::seed_from_u64` for `StdRng`: builds a
/// deterministic generator from a 64-bit seed.
#[verifier::external_body]
pub fn rng_from_seed(seed: u64) -> rand::rngs::StdRng {
    <rand::rngs::StdRng as rand::SeedableRng>::seed_from_u64(seed)
}

/// Relies on `rand::Rng::gen_range` over `lo..hi`: yields a value of the
/// half-open range, and panics only on an empty range, which the
/// precondition rules out. Nothing is assumed about which value comes
/// back.
#[verifier::external_body]
pub fn rng_range_u64(rng: &mut rand::rngs::StdRng, lo: u64, hi: u64) -> (r: u64)
    requires
        lo < hi,
    ensures
        lo <= r < hi,
{
    rand::Rng::gen_range(rng, lo..hi)
}

} // verus!
