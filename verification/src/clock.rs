//! The wall clock.

use vstd::prelude::*;

verus! {

/// The current time, in milliseconds since the Unix epoch; negative where
/// the clock of the machine reads a time before the epoch.
///
/// Trusted: the body reads the clock with `std::time::SystemTime::now`, turns
/// the reading into a `chrono::DateTime<Utc>` with chrono's conversion from
/// `SystemTime`, which takes a time before the epoch as well as one after it,
/// and converts the date with `DateTime::timestamp_millis`. Nothing is
/// claimed of the result: two readings may differ, and the clock may be set
/// back.
#[verifier::external_body]
pub(crate) fn now_millis() -> (now: i64) {
    chrono::DateTime::<chrono::Utc>::from(std::time::SystemTime::now()).timestamp_millis()
}

} // verus!
