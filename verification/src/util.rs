//! The clock.

use std::time::{Duration, SystemTime, SystemTimeError, UNIX_EPOCH};

use vstd::prelude::*;

verus! {

/// `std::time::SystemTime`, a reading of the clock.
#[verifier::external_type_specification]
#[verifier::external_body]
pub struct ExSystemTime(std::time::SystemTime);

/// `std::time::SystemTimeError`: the clock is before the epoch.
#[verifier::external_type_specification]
#[verifier::external_body]
pub struct ExSystemTimeError(std::time::SystemTimeError);

/// How long after the epoch a reading of the clock is, where it is not before.
pub uninterp spec fn since_epoch_of(reading: SystemTime) -> Option<Duration>;

/// The whole milliseconds in a duration.
pub uninterp spec fn millis_of(elapsed: Duration) -> u128;

/// `SystemTime::now`. Nothing can be said of what the clock shows.
#[verifier::external_body]
fn now() -> (r: SystemTime) {
    SystemTime::now()
}

/// `SystemTime::duration_since` the epoch: how long after it the reading is. It
/// fails where the reading is before the epoch.
#[verifier::external_body]
fn since_epoch(reading: SystemTime) -> (r: std::result::Result<Duration, SystemTimeError>)
    ensures
        r is Ok <==> since_epoch_of(reading) is Some,
        r matches Ok(elapsed) ==> since_epoch_of(reading) == Some(elapsed),
{
    reading.duration_since(UNIX_EPOCH)
}

/// `Duration::as_millis`: the whole milliseconds in the duration.
#[verifier::external_body]
fn whole_millis(elapsed: Duration) -> (r: u128)
    ensures
        r == millis_of(elapsed),
{
    elapsed.as_millis()
}

/// Epoch milliseconds as they are recorded: a clock before the epoch counts as
/// the epoch, and one beyond `u64` as its end.
pub open spec fn saturated(since_epoch: Option<u128>) -> u64 {
    match since_epoch {
        Some(millis) => if millis <= u64::MAX {
            millis as u64
        } else {
            u64::MAX
        },
        None => 0,
    }
}

/// What is recorded for a reading of the clock.
pub open spec fn recorded_millis(reading: SystemTime) -> u64 {
    saturated(
        match since_epoch_of(reading) {
            Some(elapsed) => Some(millis_of(elapsed)),
            None => None,
        },
    )
}

/// Whether `millis` is what is recorded for some reading of the clock.
pub open spec fn is_clock_time(millis: u64) -> bool {
    exists|reading: SystemTime| millis == #[trigger] recorded_millis(reading)
}

/// Epoch milliseconds as they are recorded.
pub fn saturated_millis(since_epoch: Option<u128>) -> (r: u64)
    ensures
        r == saturated(since_epoch),
{
    match since_epoch {
        Some(millis) => if millis <= u64::MAX as u128 {
            millis as u64
        } else {
            u64::MAX
        },
        None => 0,
    }
}

/// Returns the current time in epoch milliseconds, saturating instead of
/// panicking if the clock is before the epoch or beyond `u64`.
pub fn current_time_millis() -> (r: u64)
    ensures
        is_clock_time(r),
{
    let reading = now();
    let millis = match since_epoch(reading) {
        Ok(elapsed) => saturated_millis(Some(whole_millis(elapsed))),
        Err(_) => saturated_millis(None),
    };
    assert(millis == recorded_millis(reading));
    millis
}

/// A time that can be held is recorded as it is, one that cannot as the nearest that
/// can, and no later time as an earlier one.
pub proof fn times_are_recorded_as_they_are(a: u128, b: u128)
    ensures
        a <= u64::MAX ==> saturated(Some(a)) == a,
        a > u64::MAX ==> saturated(Some(a)) == u64::MAX,
        a <= b ==> saturated(Some(a)) <= saturated(Some(b)),
        saturated(None) <= saturated(Some(a)),
        saturated(None) == 0,
{
}

} // verus!
