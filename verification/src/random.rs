//! The source of random bytes.

use vstd::prelude::*;
use rand::Rng;

verus! {

/// Draws a byte from `rand::thread_rng()` with `Rng::gen_range(0..=255)`.
/// Nothing is claimed of the byte beyond its type: every value from 0 to
/// 255 can come back, and two calls may differ. The range is never empty,
/// so `gen_range` does not panic; `thread_rng` panics only where the
/// operating system gives it no seed.
#[verifier::external_body]
pub(crate) fn random_byte() -> (byte: u8) {
    rand::thread_rng().gen_range(0..=255)
}

} // verus!
