//! Drawing by chance.

use vstd::prelude::*;
use crate::conn::UDP_FLOW_ID_LEN;

verus! {

/// Draws sixteen bytes by `rand::random`, from the thread's generator. Which
/// bytes come is left to chance, so nothing is said of them.
#[verifier::external_body]
pub(crate) fn random_flow_id_bytes() -> (bytes: [u8; UDP_FLOW_ID_LEN]) {
    rand::random()
}

/// Draws an index below `n` by `rand::random_range` over `0..n`, which panics
/// on an empty range. Which index comes is left to chance.
#[verifier::external_body]
pub(crate) fn random_index(n: usize) -> (i: usize)
    requires
        n > 0,
    ensures
        i < n,
{
    rand::random_range(0..n)
}

} // verus!
