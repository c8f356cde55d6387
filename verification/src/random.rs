//! The pseudo-random generator behind the `Random` instruction: ChaCha with
//! eight rounds, from the `rand_chacha` crate.
//!
//! The contracts in this file are taken on trust from the sources of `rand`,
//! `rand_core` and `rand_chacha`; nothing here is proved.

use rand::{Rng, SeedableRng};
use vstd::prelude::*;

verus! {

/// The generator type of `rand_chacha`. Its state is opaque to the proofs.
#[verifier::external_type_specification]
#[verifier::external_body]
pub struct ExChaCha8Rng(rand_chacha::ChaCha8Rng);

/// Calls `SeedableRng::seed_from_u64` for `ChaCha8Rng`, which expands `seed`
/// into a generator state. Nothing is claimed of the generator it returns.
#[verifier::external_body]
pub(crate) fn seeded_generator(seed: u64) -> rand_chacha::ChaCha8Rng {
    rand_chacha::ChaCha8Rng::seed_from_u64(seed)
}

/// Calls `Rng::gen_range` on the inclusive range `low..=high`. The call
/// panics on an empty range, hence the precondition; the only claim is the
/// documented one, that the sample lies in the range.
#[verifier::external_body]
pub(crate) fn random_in_range(rng: &mut rand_chacha::ChaCha8Rng, low: u8, high: u8) -> (byte: u8)
    requires
        low <= high,
    ensures
        low <= byte <= high,
{
    rng.gen_range(low..=high)
}

} // verus!
