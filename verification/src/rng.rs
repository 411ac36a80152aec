//! Random draws, from the `rand` crate's thread-local generator.

use vstd::prelude::*;

verus! {

/// Calls `rand::random::<u32>()`. The number depends on chance: nothing is
/// stated of it.
#[verifier::external_body]
pub(crate) fn random_u32() -> u32 {
    rand::random::<u32>()
}

/// Calls `rand::random::<u8>()`. The number depends on chance: nothing is
/// stated of it.
#[verifier::external_body]
pub(crate) fn random_u8() -> u8 {
    rand::random::<u8>()
}

/// Calls `rand::random::<bool>()`. The value depends on chance: nothing is
/// stated of it.
#[verifier::external_body]
pub(crate) fn random_bool() -> bool {
    rand::random::<bool>()
}

} // verus!
