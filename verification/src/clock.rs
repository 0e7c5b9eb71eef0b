use std::time::Duration;
use std::time::SystemTime;
use std::time::SystemTimeError;
use std::time::UNIX_EPOCH;
use vstd::prelude::*;

verus! {

/// std's wall-clock instant, carried through opaquely.
#[verifier::external_type_specification]
#[verifier::external_body]
pub struct ExSystemTime(SystemTime);

/// std's error for an instant that lies before the instant asked about.
#[verifier::external_type_specification]
#[verifier::external_body]
pub struct ExSystemTimeError(SystemTimeError);

/// Calls `std::time::SystemTime::now`, which reads the system clock. What it
/// reads depends on the time, so nothing is stated of it.
#[verifier::external_body]
fn system_time_now() -> (t: SystemTime) {
    SystemTime::now()
}

/// Calls `std::time::SystemTime::duration_since` with `UNIX_EPOCH`: the time
/// elapsed since the epoch, or an error when the instant lies before it. Both
/// are opaque here, so nothing is stated of the result.
#[verifier::external_body]
fn duration_since_epoch(t: &SystemTime) -> (r: Result<Duration, SystemTimeError>) {
    t.duration_since(UNIX_EPOCH)
}

/// Calls `std::time::Duration::as_secs`, the whole seconds of a duration. A
/// duration is opaque here, so nothing is stated of the number.
#[verifier::external_body]
fn duration_as_secs(d: &Duration) -> (s: u64) {
    d.as_secs()
}

/// Reads the system clock as whole seconds since the Unix epoch; `Err` when
/// the clock stands before the epoch. The reading depends on the time, so
/// nothing is stated of it.
pub fn seconds_since_epoch() -> (r: Result<u64, ()>) {
    let now = system_time_now();
    match duration_since_epoch(&now) {
        Ok(d) => Ok(duration_as_secs(&d)),
        Err(_) => Err(()),
    }
}

} // verus!
