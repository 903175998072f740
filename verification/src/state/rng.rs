//! The pseudo-random generator behind random "soup" seeding.
//!
//! The automaton itself is deterministic; randomness only enters when a new
//! soup pattern is drawn. The generator is nanorand's WyRand, kept behind
//! trusted wrappers: nothing is assumed about the drawn values beyond their
//! range.

use nanorand::Rng;
use vstd::prelude::*;

verus! {

/// nanorand's WyRand generator, opaque to verification.
#[verifier::external_type_specification]
#[verifier::external_body]
pub struct ExWyRand(nanorand::WyRand);

/// Relies on nanorand's `WyRand::new`: a fresh generator seeded from system
/// entropy. Nothing is assumed about its state.
#[verifier::external_body]
pub(crate) fn new_rng() -> nanorand::WyRand {
    nanorand::WyRand::new()
}

/// Relies on nanorand's `Rng::generate_range` on an inclusive `i32` range:
/// the drawn value lies within the bounds, and the call panics only on an
/// empty range, which the precondition rules out. Which value comes back is
/// left open — two calls on equal arguments may differ.
#[verifier::external_body]
pub(crate) fn rand_range_i32(rng: &mut nanorand::WyRand, low: i32, high: i32) -> (r: i32)
    requires
        low <= high,
    ensures
        low <= r <= high,
{
    rng.generate_range(low..=high)
}

} // verus!
