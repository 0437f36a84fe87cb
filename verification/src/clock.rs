use vstd::prelude::*;

verus! {

/// Reads the wall clock: nanoseconds since the Unix epoch, as
/// `SystemTime::now().duration_since(UNIX_EPOCH)` gives them, or zero when the
/// clock stands before the epoch.  Nothing is promised of the value: it
/// depends on the machine's clock.
#[verifier::external_body]
pub fn unix_time_nanos() -> u128 {
    std::time::SystemTime::now().duration_since(std::time::UNIX_EPOCH).unwrap_or_default().as_nanos()
}

} // verus!
