//! The random source: identifiers and nonces are drawn from it.
use vstd::prelude::*;

verus! {

/// Relies on `rand::random::<u8>` (rand 0.8): a byte drawn from the thread-local generator.
/// Nothing is promised of the value.
#[verifier::external_body]
pub(crate) fn random_byte() -> (r: u8) {
    rand::random::<u8>()
}

/// Relies on `rand::random::<u64>` (rand 0.8): a 64-bit number drawn from the thread-local
/// generator. Nothing is promised of the value.
#[verifier::external_body]
pub(crate) fn random_u64() -> (r: u64) {
    rand::random::<u64>()
}

} // verus!
