//! The system clock, as milliseconds since the Unix epoch.
use vstd::prelude::*;

verus! {

/// Reads the wall clock through `std::time::SystemTime::now`, as whole
/// milliseconds since the Unix epoch. Nothing is claimed of the value: two
/// reads may differ in either direction.
#[verifier::external_body]
pub(crate) fn unix_millis() -> u64 {
    match std::time::SystemTime::now().duration_since(std::time::UNIX_EPOCH) {
        Ok(elapsed) => u64::try_from(elapsed.as_millis()).unwrap_or(u64::MAX),
        Err(_) => 0,
    }
}

} // verus!
