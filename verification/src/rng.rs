//! Trusted boundary to the seeded pseudo-random generator.
//!
//! The simulation owns a `rand::rngs::StdRng`, reseeded only at
//! construction. Nothing is assumed about the values it yields beyond the
//! documented range of `gen_range`; every function of the library that
//! consumes a drawn number is verified for all values the contract admits.

use vstd::prelude::*;

verus! {

/// `rand::rngs::StdRng` is opaque to the verifier; the simulation carries it
/// as a field and draws from it only through the wrappers below.
#[verifier::external_type_specification]
#[verifier::external_body]
pub struct ExStdRng(rand::rngs::StdRng);

/// Relies on `rand::SeedableRng::seed_from_u64`: builds a generator from a
/// 64-bit seed. Nothing is assumed about the generator's future output.
#[verifier::external_body]
pub fn rng_from_seed(seed: u64) -> (r: rand::rngs::StdRng) {
    <rand::rngs::StdRng as rand::SeedableRng>::seed_from_u64(seed)
}

/// Relies on `rand::Rng::gen_range`: a draw from `low..high` lies in that
/// range; the call panics on an empty range, which the precondition rules
/// out. Distinct calls may return distinct values.
#[verifier::external_body]
pub fn rng_below(rng: &mut rand::rngs::StdRng, n: usize) -> (r: usize)
    requires
        n > 0,
    ensures
        r < n,
{
    rand::Rng::gen_range(rng, 0..n)
}

/// Relies on `rand::Rng::gen` with the `Standard` distribution on `usize`:
/// returns an arbitrary machine word, used as an opaque food identifier.
#[verifier::external_body]
pub fn rng_any_id(rng: &mut rand::rngs::StdRng) -> (r: usize) {
    rand::Rng::gen(rng)
}

/// Relies on `rand::random`: an arbitrary 64-bit value, drawn once at
/// configuration time when the caller asked for a random seed.
#[verifier::external_body]
pub fn random_seed() -> (r: u64) {
    rand::random()
}

} // verus!
