//! Epochs: 64-bit monotone logical timestamps labelling barriers.

use vstd::prelude::*;

verus! {

/// The boundary value of the very first barrier: no storage commit is
/// performed for an epoch whose predecessor is invalid.
pub const INVALID_EPOCH: u64 = 0;

/// The successor of an epoch: strictly greater, so that injection order
/// implies epoch order.
pub fn next_epoch(e: u64) -> (r: u64)
    requires
        e < u64::MAX,
    ensures
        r == e + 1,
        r > e,
{
    e + 1
}

} // verus!
