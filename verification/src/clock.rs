//! The machine's clock.

use vstd::prelude::*;

verus! {

/// Calls `chrono::Utc::now().timestamp()`.
///
/// Trusted: nothing is claimed of the result, which is the machine's clock
/// in seconds since the Unix epoch. chrono panics where that clock stands
/// before the epoch.
#[verifier::external_body]
pub(crate) fn unix_now() -> i64 {
    chrono::Utc::now().timestamp()
}

} // verus!
