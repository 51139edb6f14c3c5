//! The random source of the machine.

use vstd::prelude::*;
use rand::Rng;

verus! {

/// A byte from the `rand` crate's thread-local generator: `rand::rng()`, then
/// `Rng::random::<u8>()`, which samples the standard uniform distribution.
/// Nothing is claimed of the byte; callers are verified for every value of
/// it. The generator seeds itself from the operating system on its first
/// use in a thread and again after every 64 KiB of output, and panics where
/// the operating system's random source fails at either: that failure is
/// taken not to happen.
#[verifier::external_body]
pub(crate) fn random_byte() -> u8 {
    let mut rng = rand::rng();
    rng.random()
}

} // verus!
