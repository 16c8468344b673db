use vstd::prelude::*;
use rand::rngs::SmallRng;
use rand::{Rng, SeedableRng};

verus! {

/// `rand::rngs::SmallRng`, carried through the machine as an opaque value.
#[verifier::external_type_specification]
#[verifier::external_body]
pub struct ExSmallRng(SmallRng);

/// Calls `SmallRng::seed_from_u64`. Nothing is claimed of the generator
/// that comes back: which algorithm it runs depends on the platform.
#[verifier::external_body]
pub(crate) fn seeded_generator(seed: u64) -> SmallRng {
    SmallRng::seed_from_u64(seed)
}

/// Calls `Rng::gen::<u8>` on the generator, which advances it. Nothing is
/// claimed of the byte that comes back: callers are verified for every
/// value of it.
#[verifier::external_body]
pub(crate) fn next_byte(generator: &mut SmallRng) -> u8 {
    generator.gen::<u8>()
}

} // verus!
