//! The one place the library touches a source of randomness: drawing a
//! fresh noise seed when a line gesture begins.
use vstd::prelude::*;

verus! {

/// Relies on rand::random with the standard distribution to draw one
/// `u32`. Nothing is assumed of the value: every caller is verified for
/// every possible seed.
#[verifier::external_body]
pub(crate) fn random_seed() -> u32 {
    rand::random()
}

} // verus!
