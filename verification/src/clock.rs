//! The wall clock, read in whole seconds since the Unix epoch.

use std::time::{Duration, SystemTime, SystemTimeError, UNIX_EPOCH};
use vstd::prelude::*;

verus! {

/// `std::time::SystemTime`, a point in time that is opaque here.
#[verifier::external_type_specification]
#[verifier::external_body]
pub struct ExSystemTime(SystemTime);

/// `std::time::SystemTimeError`, the failure of `duration_since`.
#[verifier::external_type_specification]
#[verifier::external_body]
pub struct ExSystemTimeError(SystemTimeError);

/// `SystemTime::now` reads the system clock. Nothing is claimed of the
/// time it returns.
pub assume_specification[ SystemTime::now ]() -> (now: SystemTime)
;

/// Calls `SystemTime::duration_since` with `UNIX_EPOCH`: the time elapsed
/// since the first instant of 1970, or an error where `time` lies before
/// it. Nothing is claimed of which it is.
#[verifier::external_body]
fn since_epoch(time: &SystemTime) -> (elapsed: Result<Duration, SystemTimeError>) {
    time.duration_since(UNIX_EPOCH)
}

/// `Duration::as_secs` gives the whole seconds of a duration. Nothing is
/// claimed of their number.
pub assume_specification[ Duration::as_secs ](duration: &Duration) -> (secs: u64)
;

/// The current time in whole seconds since the Unix epoch. A clock that
/// stands before the epoch reads as the epoch itself.
pub(crate) fn unix_seconds_now() -> u64 {
    let now = SystemTime::now();
    let elapsed = match since_epoch(&now) {
        Ok(elapsed) => Some(elapsed.as_secs()),
        Err(_) => None,
    };
    seconds_or_epoch(elapsed)
}

/// What a clock reads, given the whole seconds that it stands after the
/// epoch, or `None` where it stands before: those seconds, or 0.
pub open spec fn clock_reading(elapsed: Option<u64>) -> u64 {
    match elapsed {
        Some(secs) => secs,
        None => 0,
    }
}

/// The reading of a clock that stands `elapsed` whole seconds after the
/// epoch; a clock before the epoch, given as `None`, reads as the epoch.
pub fn seconds_or_epoch(elapsed: Option<u64>) -> (secs: u64)
    ensures
        secs == clock_reading(elapsed),
{
    match elapsed {
        Some(secs) => secs,
        None => 0,
    }
}

} // verus!
