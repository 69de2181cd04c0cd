//! The time of day.

use vstd::prelude::*;

verus! {

/// The seconds since the Unix epoch, from `std::time::SystemTime::now`; 0
/// where the clock stands before it. Nothing is said of the result.
#[verifier::external_body]
pub(crate) fn now_secs() -> (r: u64)
{
    std::time::SystemTime::now().duration_since(std::time::UNIX_EPOCH).unwrap_or_default().as_secs()
}

} // verus!
