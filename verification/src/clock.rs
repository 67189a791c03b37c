//! Points in time, and the clock they are read from.

use vstd::prelude::*;

verus! {

/// A point in time: whole seconds since the start of 1970 in universal time,
/// and the nanoseconds past that second.
#[derive(Clone, Copy, Debug, PartialEq, Eq, Structural)]
pub struct Timestamp {
    pub seconds: i64,
    pub nanoseconds: u32,
}

/// Reads the system clock through `chrono::Utc::now` and hands on the seconds
/// (`DateTime::timestamp`) and nanoseconds (`DateTime::timestamp_subsec_nanos`)
/// of the moment it returns. Nothing is claimed of the result: two readings
/// may even go backwards where the system clock is set. The outside function
/// panics where the system clock stands before 1970 or beyond the years that
/// `chrono` can hold; nothing that is handed to the library decides either.
#[verifier::external_body]
pub(crate) fn current_time() -> (now: Timestamp) {
    let now = chrono::Utc::now();
    Timestamp { seconds: now.timestamp(), nanoseconds: now.timestamp_subsec_nanos() }
}

} // verus!
