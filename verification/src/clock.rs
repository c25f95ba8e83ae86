//! The wall clock, in seconds since the Unix epoch.
use std::time::{Duration, SystemTime, SystemTimeError};
use vstd::prelude::*;

verus! {

/// A reading of the wall clock.
#[verifier::external_type_specification]
#[verifier::external_body]
pub struct ExSystemTime(SystemTime);

/// What is wrong with a reading before the epoch.
#[verifier::external_type_specification]
#[verifier::external_body]
pub struct ExSystemTimeError(SystemTimeError);

/// `SystemTime::now`: the time now. Nothing is known of it.
pub assume_specification[ SystemTime::now ]() -> (r: SystemTime)
;

/// `Duration::as_secs`: the whole seconds of a span of time. Nothing is said of
/// how many: the spans of this module come from the clock.
pub assume_specification[ Duration::as_secs ](d: &Duration) -> (r: u64)
;

/// `SystemTime::duration_since` the Unix epoch: the time since then, or an error
/// where `time` lies before it. Nothing is known of which.
#[verifier::external_body]
fn since_epoch(time: SystemTime) -> (r: Result<Duration, SystemTimeError>) {
    time.duration_since(std::time::UNIX_EPOCH)
}

/// The seconds since the Unix epoch; none where the clock stands before it. What
/// the clock shows is not known.
pub fn clock_reading() -> (r: Option<u64>) {
    match since_epoch(SystemTime::now()) {
        Ok(elapsed) => Some(elapsed.as_secs()),
        Err(_) => None,
    }
}

/// The seconds of a clock reading; zero where there is none.
pub fn seconds_or_zero(reading: Option<u64>) -> (r: u64)
    ensures
        r == match reading {
            Some(seconds) => seconds,
            None => 0,
        },
{
    match reading {
        Some(seconds) => seconds,
        None => 0,
    }
}

/// The seconds since the Unix epoch; zero where the clock stands before it. What
/// the clock shows is not known.
pub fn unix_time() -> (r: u64) {
    seconds_or_zero(clock_reading())
}

} // verus!
