//! Reading the wall clock. The current time is an input of the freshness
//! check; everything downstream of it is verified for every value the clock
//! may hand back, so nothing is promised about the result here.

use vstd::prelude::*;

verus! {

/// Whole seconds since the Unix epoch, by the system wall clock; zero when
/// the clock reads earlier than the epoch.
///
/// Relies on std::time::SystemTime::now for the current time; nothing can be
/// promised of a clock reading, so the result carries no contract and every
/// caller must handle any value.
#[verifier::external_body]
pub fn timestamp_secs() -> u64 {
    match std::time::SystemTime::now().duration_since(std::time::UNIX_EPOCH) {
        Ok(d) => d.as_secs(),
        Err(_) => 0,
    }
}

} // verus!
