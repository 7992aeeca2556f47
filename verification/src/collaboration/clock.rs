//! The wall clock, read through the standard library.
use std::time::Duration;
use std::time::SystemTime;
use std::time::SystemTimeError;
use vstd::prelude::*;

verus! {

/// `std::time::SystemTime`, a point on the system clock. Nothing is known of
/// a value but that it exists.
#[verifier::external_type_specification]
#[verifier::external_body]
pub struct ExSystemTime(SystemTime);

/// `std::time::SystemTimeError`, returned where one point on the clock is not
/// behind another.
#[verifier::external_type_specification]
#[verifier::external_body]
pub struct ExSystemTimeError(SystemTimeError);

/// `SystemTime::now` reads the system clock. Nothing is claimed of the time
/// it returns.
pub assume_specification[ SystemTime::now ]() -> (now: SystemTime);

/// `SystemTime::duration_since` measures from `earlier` to the receiver, and
/// fails where `earlier` is the later of the two. Nothing is claimed of the
/// result.
pub assume_specification[ SystemTime::duration_since ](
    time: &SystemTime,
    earlier: SystemTime,
) -> (elapsed: Result<Duration, SystemTimeError>);

/// `Duration::as_millis` gives the whole milliseconds of a duration. Nothing
/// is claimed of the number.
pub assume_specification[ Duration::as_millis ](elapsed: &Duration) -> (millis: u128);

/// `std::time::UNIX_EPOCH`, the point from which timestamps count.
#[verifier::external_body]
fn unix_epoch() -> (epoch: SystemTime) {
    std::time::UNIX_EPOCH
}

/// The milliseconds since the Unix epoch by the system clock: zero for a
/// clock set before the epoch, `u64::MAX` from the day the count outgrows
/// `u64`.
pub fn unix_millis() -> (millis: u64) {
    let now = SystemTime::now();
    match now.duration_since(unix_epoch()) {
        Ok(elapsed) => timestamp(Some(elapsed.as_millis())),
        Err(_) => timestamp(None),
    }
}

/// The timestamp for a reading of the clock: `elapsed` is the count of
/// milliseconds since the epoch, or `None` for a clock set before the epoch.
/// The count itself where a `u64` holds it, `u64::MAX` where it does not,
/// and zero for `None`.
pub open spec fn stamp(elapsed: Option<u128>) -> u64 {
    match elapsed {
        Some(millis) => if millis > u64::MAX {
            u64::MAX
        } else {
            millis as u64
        },
        None => 0,
    }
}

/// The timestamp for a reading of the clock: `elapsed` is the count of
/// milliseconds since the epoch, or `None` for a clock set before the epoch.
pub fn timestamp(elapsed: Option<u128>) -> (millis: u64)
    ensures
        millis == stamp(elapsed),
{
    match elapsed {
        Some(millis) => {
            if millis > u64::MAX as u128 {
                u64::MAX
            } else {
                millis as u64
            }
        },
        None => 0,
    }
}

} // verus!
