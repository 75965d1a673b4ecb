//! The random choices of the protocol, each drawn from a generator that is
//! seeded afresh from the operating system for that one choice.

use crate::color::Color;
use rand::seq::SliceRandom;
use rand::{Rng, RngCore, SeedableRng};
use rand_chacha::{ChaCha12Rng, ChaCha20Rng};
use vstd::prelude::*;

verus! {

/// Seeds a `ChaCha20Rng` with `SeedableRng::from_entropy` and calls
/// `RngCore::fill_bytes` on `secret`.
///
/// Trusted, not proved: the call returns. Nothing is claimed of the bytes
/// that it leaves in `secret`.
#[verifier::external_body]
pub(crate) fn fill_random(secret: &mut [u8; 32]) {
    let mut rng = ChaCha20Rng::from_entropy();
    rng.fill_bytes(secret);
}

/// Seeds a `ChaCha20Rng` with `SeedableRng::from_entropy` and calls
/// `SliceRandom::shuffle` on `colors`.
///
/// Trusted, not proved: the shuffle only swaps entries, so `colors` holds
/// afterwards what it held before, each colour as often as before. Nothing is
/// claimed of the order.
#[verifier::external_body]
pub(crate) fn shuffle_colors(colors: &mut [Color; 3])
    ensures
        final(colors)@.to_multiset() == old(colors)@.to_multiset(),
{
    let mut rng = ChaCha20Rng::from_entropy();
    colors.shuffle(&mut rng);
}

/// Seeds a `ChaCha12Rng` with `SeedableRng::from_entropy` and calls
/// `Rng::gen_range` on the range from zero up to, and without, `bound`.
///
/// Trusted, not proved: the number drawn lies in that range. The range must
/// not be empty, since `gen_range` panics on an empty one.
#[verifier::external_body]
pub(crate) fn random_index(bound: usize) -> (index: usize)
    requires
        bound > 0,
    ensures
        index < bound,
{
    let mut rng = ChaCha12Rng::from_entropy();
    rng.gen_range(0..bound)
}

} // verus!
