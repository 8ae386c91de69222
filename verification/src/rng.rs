//! The source of chance, taken from the `rand` crate. Nothing is proved of it:
//! every item here is believed as it is written.

use rand::rngs::StdRng;
use rand::{Rng, SeedableRng};
use vstd::prelude::*;

verus! {

/// The standard generator of `rand`. Nothing of its inside is visible here.
#[verifier::external_type_specification]
#[verifier::external_body]
pub struct ExStdRng(StdRng);

/// A generator seeded by the operating system: `SeedableRng::try_from_os_rng`.
/// `None` where the operating system gives no seed. Nothing is said of the generator.
#[verifier::external_body]
pub(crate) fn os_rng() -> (rng: Option<StdRng>) {
    StdRng::try_from_os_rng().ok()
}

/// A generator made from `seed`: `SeedableRng::seed_from_u64`. Nothing is said of it.
#[verifier::external_body]
pub(crate) fn seeded_rng(seed: u64) -> (rng: StdRng) {
    StdRng::seed_from_u64(seed)
}

/// One byte drawn from the generator: `Rng::random_range` over all of `0..=255`, a
/// range that is never empty. Nothing is said of the byte, nor of the generator
/// afterwards.
#[verifier::external_body]
pub(crate) fn random_byte(rng: &mut StdRng) -> (byte: u8) {
    rng.random_range(0..=255)
}

} // verus!
