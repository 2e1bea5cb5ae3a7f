//! Operating-system randomness from `rand`. Each item here is trusted; what it
//! returns depends on chance, so its contract states only what holds of every outcome.

use vstd::prelude::*;
use rand::{Rng, RngCore};

verus! {

/// Calls `rand::rng().random_range(0..bound)`: a uniformly drawn index below `bound`.
#[verifier::external_body]
pub(crate) fn random_index(bound: usize) -> (r: usize)
    requires
        bound > 0,
    ensures
        r < bound,
{
    rand::rng().random_range(0..bound)
}

/// Calls `RngCore::fill_bytes` of `rand::rng()` on a 32-byte buffer.
#[verifier::external_body]
pub(crate) fn random_bytes_32() -> (r: [u8; 32])
{
    let mut bytes = [0u8; 32];
    rand::rng().fill_bytes(&mut bytes);
    bytes
}

} // verus!
