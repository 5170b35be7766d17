//! The wait of the message loop.

use vstd::prelude::*;

verus! {

/// How many milliseconds to wait for a message, for a timeout in nanoseconds.
pub fn wait_millis(timeout: u64) -> (r: u32)
    ensures
        r == crate::arith::min(timeout as int / 1_000_000, u32::MAX as int),
{
    let millis: u64 = timeout / 1_000_000;
    if millis < u32::MAX as u64 {
        millis as u32
    } else {
        u32::MAX
    }
}

} // verus!
