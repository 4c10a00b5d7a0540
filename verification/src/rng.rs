//! The machine's one source of randomness, behind a trusted boundary.

use vstd::prelude::*;

verus! {

/// Relies on `rand::random`: a byte sampled from the thread-local generator.
/// The value depends on the generator's state, so nothing is assumed of it;
/// every caller must be correct for every byte that comes back.
#[verifier::external_body]
pub(crate) fn random_byte() -> u8 {
    rand::random::<u8>()
}

} // verus!
