use std::time::{SystemTime, UNIX_EPOCH};
use vstd::prelude::*;

verus! {

/// Reads the wall clock with `std::time::SystemTime::now`, as nanoseconds
/// since the Unix epoch. `None` stands for a clock that is set before the
/// epoch. Nothing is claimed of the value: it is whatever the machine
/// reports at the moment of the call.
#[verifier::external_body]
pub(crate) fn epoch_nanos() -> (now: Option<u128>) {
    match SystemTime::now().duration_since(UNIX_EPOCH) {
        Ok(elapsed) => Some(elapsed.as_nanos()),
        Err(_) => None,
    }
}

/// The nanoseconds of one millisecond.
pub const NANOS_PER_MILLI: u128 = 1_000_000;

/// Whole milliseconds of a time in nanoseconds, as a timestamp; a time too
/// late for a 64-bit timestamp is held at the latest one.
pub fn millis_of(nanos: u128) -> (millis: i64)
    ensures
        millis == if nanos / NANOS_PER_MILLI <= i64::MAX {
            (nanos / NANOS_PER_MILLI) as i64
        } else {
            i64::MAX
        },
{
    let millis = nanos / NANOS_PER_MILLI;
    if millis <= i64::MAX as u128 {
        millis as i64
    } else {
        i64::MAX
    }
}

/// The current time in milliseconds since the Unix epoch; 0 for a clock that
/// is set before the epoch.
pub fn now_millis() -> (millis: i64)
    ensures
        millis >= 0,
{
    match epoch_nanos() {
        Some(nanos) => millis_of(nanos),
        None => 0,
    }
}

} // verus!
