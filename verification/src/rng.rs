//! Pseudo-random draws for the simulator and the search.
//!
//! The generator is the xorshift crate's `Xorshift128`. Its state is opaque
//! here: nothing is assumed about the values it produces, so every caller is
//! verified for every possible draw.

use vstd::prelude::*;

verus! {

#[verifier::external_type_specification]
#[verifier::external_body]
pub struct ExXorshift128(xorshift::Xorshift128);

/// Relies on xorshift's `SeedableRng::from_seed` for `Xorshift128`, which
/// copies the two seed words into the generator state. The slice passed has
/// length 2, so the call does not panic.
#[verifier::external_body]
pub(crate) fn rng_from_seed(s0: u64, s1: u64) -> xorshift::Xorshift128 {
    let words = [s0, s1];
    <xorshift::Xorshift128 as xorshift::SeedableRng<&[u64]>>::from_seed(&words[..])
}

/// Relies on xorshift's `Rng::next_u32` for `Xorshift128`: it advances the
/// generator state and returns a word. Nothing is assumed of the value.
#[verifier::external_body]
pub(crate) fn rng_next_u32(rng: &mut xorshift::Xorshift128) -> u32 {
    xorshift::Rng::next_u32(rng)
}

} // verus!
