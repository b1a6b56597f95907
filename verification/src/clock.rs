//! The wall clock, read in whole milliseconds since the Unix epoch.

use std::time::{Duration, SystemTime, SystemTimeError};
use vstd::prelude::*;

verus! {

/// `std::time::SystemTime`: a reading of the system clock. Nothing inside
/// it is looked at.
#[verifier::external_type_specification]
#[verifier::external_body]
pub struct ExSystemTime(SystemTime);

/// `std::time::SystemTimeError`: what `SystemTime::duration_since` fails
/// with. Nothing inside it is looked at.
#[verifier::external_type_specification]
#[verifier::external_body]
pub struct ExSystemTimeError(SystemTimeError);

/// `SystemTime::now` reads the system clock. Nothing is claimed of the
/// instant it returns: two readings may differ in either direction.
pub assume_specification[ SystemTime::now ]() -> (now: SystemTime)
;

/// `SystemTime::duration_since` measures the time from `earlier` to `time`,
/// and fails when `earlier` is the later of the two. Nothing is claimed of
/// the outcome.
pub assume_specification[ SystemTime::duration_since ](
    time: &SystemTime,
    earlier: SystemTime,
) -> (elapsed: Result<Duration, SystemTimeError>)
;

/// `Duration::as_millis` gives the whole milliseconds in a duration. Nothing
/// is claimed of the number.
pub assume_specification[ Duration::as_millis ](duration: &Duration) -> (millis: u128)
;

/// The instant from which timestamps are counted: the constant
/// `std::time::UNIX_EPOCH`. Nothing is claimed of it.
#[verifier::external_body]
fn unix_epoch() -> (epoch: SystemTime) {
    std::time::UNIX_EPOCH
}

/// The current time in milliseconds since the Unix epoch: zero when the
/// clock stands before the epoch, and `u64::MAX` when the count does not fit.
pub fn get_current_timestamp() -> (now: u64) {
    let reading = SystemTime::now();
    let since_epoch = match reading.duration_since(unix_epoch()) {
        Ok(elapsed) => Some(elapsed.as_millis()),
        Err(_) => None,
    };
    timestamp_from(since_epoch)
}

/// The timestamp for a reading of the clock that lies `since_epoch`
/// milliseconds after the epoch, or before the epoch when there is no such
/// count: zero for a reading before the epoch, and the count cut off at the
/// top of `u64` otherwise.
pub open spec fn timestamp_of(since_epoch: Option<u128>) -> u64 {
    match since_epoch {
        Some(millis) => if millis > u64::MAX {
            u64::MAX
        } else {
            millis as u64
        },
        None => 0,
    }
}

/// Turns what the clock was read as into a timestamp.
pub fn timestamp_from(since_epoch: Option<u128>) -> (now: u64)
    ensures
        now == timestamp_of(since_epoch),
{
    match since_epoch {
        Some(millis) => {
            if millis > u64::MAX as u128 {
                u64::MAX
            } else {
                millis as u64
            }
        },
        None => 0,
    }
}

} // verus!
