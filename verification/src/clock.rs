//! Timestamps in milliseconds since the Unix epoch.
use std::time::{Duration, SystemTime, SystemTimeError, UNIX_EPOCH};
use vstd::prelude::*;

verus! {

/// A reading of the system clock.
#[verifier::external_type_specification]
#[verifier::external_body]
pub struct ExSystemTime(SystemTime);

/// The error for a reading that lies before another.
#[verifier::external_type_specification]
#[verifier::external_body]
pub struct ExSystemTimeError(SystemTimeError);

/// Calls `SystemTime::now`. Nothing is claimed of the reading.
#[verifier::external_body]
fn read_clock() -> (reading: SystemTime) {
    SystemTime::now()
}

/// What `SystemTime::duration_since` gives for a reading and the Unix epoch.
pub uninterp spec fn span_to(reading: SystemTime) -> Result<Duration, SystemTimeError>;

/// What `Duration::as_millis` gives for a span of time.
pub uninterp spec fn millis_in(elapsed: Duration) -> u128;

/// Calls `SystemTime::duration_since` with the Unix epoch. The contract only names the result,
/// which depends on the reading alone. It is an error for a clock that stands before the epoch.
#[verifier::external_body]
fn since_epoch(reading: SystemTime) -> (elapsed: Result<Duration, SystemTimeError>)
    ensures
        elapsed == span_to(reading),
{
    reading.duration_since(UNIX_EPOCH)
}

/// Calls `Duration::as_millis`. The contract only names the number, which depends on the span
/// alone.
#[verifier::external_body]
fn whole_millis(elapsed: Duration) -> (millis: u128)
    ensures
        millis == millis_in(elapsed),
{
    elapsed.as_millis()
}

/// The timestamp for a clock that shows so many milliseconds since the epoch: the low 64 bits. A
/// clock that stands before the epoch counts as zero.
pub open spec fn timestamp_of(millis: Option<u128>) -> int {
    match millis {
        Some(millis) => millis as int % 0x1_0000_0000_0000_0000,
        None => 0,
    }
}

/// The timestamp for a clock that shows so many milliseconds since the epoch, or stands before it.
pub fn timestamp(millis: Option<u128>) -> (ts: u64)
    ensures
        ts == timestamp_of(millis),
{
    match millis {
        Some(millis) => {
            assert(millis as u64 == millis % 0x1_0000_0000_0000_0000u128) by (bit_vector);
            #[verifier::truncate]
            (millis as u64)
        },
        None => 0,
    }
}

/// The timestamp for a reading of the clock.
pub open spec fn stamp_at(reading: SystemTime) -> int {
    timestamp_of(
        match span_to(reading) {
            Ok(elapsed) => Some(millis_in(elapsed)),
            Err(_) => None,
        },
    )
}

/// The current time as a timestamp: that of some reading of the clock.
pub fn now_ts() -> (ts: u64)
    ensures
        exists|reading: SystemTime| ts == #[trigger] stamp_at(reading),
{
    let reading: SystemTime = read_clock();
    let ghost taken = reading;
    let millis: Option<u128> = match since_epoch(reading) {
        Ok(elapsed) => Some(whole_millis(elapsed)),
        Err(_) => None,
    };
    let ts: u64 = timestamp(millis);
    assert(ts == stamp_at(taken));
    ts
}

} // verus!
