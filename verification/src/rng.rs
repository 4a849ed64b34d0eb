//! The random source of a run: `rand`'s seeded `StdRng`, reached only through
//! the trusted items below.
use rand::rngs::StdRng;
use rand::RngExt;
use rand::SeedableRng;
use vstd::prelude::*;

verus! {

/// `rand::rngs::StdRng`, carried through the game as an opaque value.
#[verifier::external_type_specification]
#[verifier::external_body]
pub struct ExStdRng(StdRng);

/// Calls `StdRng::seed_from_u64`.  The generator it builds is opaque here,
/// so nothing is stated of it: `rand` documents `StdRng` as non-portable
/// (even from a fixed seed its output may differ between platforms and
/// versions), so what it draws is given no name.
#[verifier::external_body]
pub(crate) fn seeded_rng(seed: u64) -> StdRng {
    StdRng::seed_from_u64(seed)
}

/// Draws a `u64` from the thread-local generator `rand::rng()` with
/// `RngExt::random`.  The value depends on the operating system's entropy,
/// so nothing is stated of it.
#[verifier::external_body]
pub(crate) fn fresh_seed() -> u64 {
    rand::rng().random::<u64>()
}

/// Calls `RngExt::random_range(0..bound)` on `usize`.  `rand` panics on an
/// empty range, so `bound` must be positive; the documented result lies in
/// the half-open range.  Which value comes out depends on the generator's
/// state and is not stated.
#[verifier::external_body]
pub(crate) fn random_index(rng: &mut StdRng, bound: usize) -> (r: usize)
    requires
        bound > 0,
    ensures
        r < bound,
{
    rng.random_range(0..bound)
}

/// Calls `RngExt::random_range(0..bound)` on `u16`, with the same contract
/// as `random_index`.
#[verifier::external_body]
pub(crate) fn random_roll(rng: &mut StdRng, bound: u16) -> (r: u16)
    requires
        bound > 0,
    ensures
        r < bound,
{
    rng.random_range(0..bound)
}

} // verus!
