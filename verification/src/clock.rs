//! Wall-clock time, the one source of timestamps in the crate.

use vstd::prelude::*;

verus! {

/// Milliseconds since the UNIX epoch (std `SystemTime::now`), or 0 when the
/// clock reads before the epoch. Nothing is promised about the value: it
/// depends on the machine's clock.
#[verifier::external_body]
pub(crate) fn now_ms() -> u64 {
    std::time::SystemTime::now().duration_since(std::time::UNIX_EPOCH).unwrap_or_default().as_millis() as u64
}

/// Whole seconds since the UNIX epoch (std `SystemTime::now`), or 0 when the
/// clock reads before the epoch. Nothing is promised about the value.
#[verifier::external_body]
pub(crate) fn now_secs() -> u64 {
    std::time::SystemTime::now().duration_since(std::time::UNIX_EPOCH).unwrap_or_default().as_secs()
}

} // verus!
