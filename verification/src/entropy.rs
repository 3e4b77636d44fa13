//! Random numbers from the operating system.

use rand::rngs::OsRng;
use rand::Rng;
use vstd::prelude::*;

verus! {

/// The random number generator of the operating system. Nothing is known of
/// what is inside it.
#[verifier::external_type_specification]
#[verifier::external_body]
pub struct ExOsRng(rand::rngs::OsRng);

/// The error with which the operating system refuses a generator. Nothing
/// is known of what is inside it.
#[verifier::external_type_specification]
#[verifier::external_body]
pub struct ExRandError(rand::Error);

/// `OsRng::new` of the `rand` crate: opens the random number generator of
/// the operating system, or reports why it cannot be had. Nothing is
/// claimed of which of the two comes back.
#[verifier::external_body]
pub(crate) fn open_rng() -> (opened: Result<OsRng, rand::Error>) {
    OsRng::new()
}

/// `Rng::gen` of the `rand` crate, for `u32`, on the generator of the
/// operating system: any number may come back, so nothing is claimed of it.
/// Whether the operating system can be read is decided by no argument.
#[verifier::external_body]
pub(crate) fn draw(rng: &mut OsRng) -> (drawn: u32) {
    rng.gen()
}

/// `Rng::gen_range` of the `rand` crate, for `u32`, on the generator of the
/// operating system: a number that is at least `low` and below `high`. The
/// outside function panics unless `low` is below `high`, so that is asked of
/// the caller.
#[verifier::external_body]
pub(crate) fn draw_between(rng: &mut OsRng, low: u32, high: u32) -> (drawn: u32)
    requires
        low < high,
    ensures
        low <= drawn < high,
{
    rng.gen_range(low, high)
}

} // verus!
