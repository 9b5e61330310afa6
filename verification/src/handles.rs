//! Opaque handles handed to guests: positive `u32` values from a counter
//! that skips zero when it wraps.

use vstd::prelude::*;

verus! {

/// The counter value after handing out `h`: `h + 1`, wrapping past
/// `u32::MAX` to 1 (0 is never a handle).
pub open spec fn next_handle(h: u32) -> u32 {
    if h == u32::MAX {
        1
    } else {
        (h + 1) as u32
    }
}

/// `h.wrapping_add(1).max(1)`.
pub fn advance_handle(h: u32) -> (r: u32)
    ensures
        r == next_handle(h),
{
    let n = h.wrapping_add(1);
    if n < 1 {
        1
    } else {
        n
    }
}

/// A counter that starts above zero never hands out zero.
pub proof fn law_handles_nonzero(h: u32)
    requires
        h >= 1,
    ensures
        next_handle(h) >= 1,
{
}

} // verus!
