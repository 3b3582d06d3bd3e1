//! The wall clock, read as nanoseconds since the Unix epoch.

use std::time::{Duration, SystemTime, SystemTimeError};
use vstd::prelude::*;

verus! {

#[verifier::external_type_specification]
#[verifier::external_body]
pub struct ExSystemTime(SystemTime);

#[verifier::external_type_specification]
#[verifier::external_body]
pub struct ExSystemTimeError(SystemTimeError);

/// `SystemTime::now`: the current reading of the system clock. Nothing is
/// claimed of the reading.
#[verifier::external_body]
fn system_now() -> SystemTime {
    SystemTime::now()
}

/// `SystemTime::duration_since`, measured from `UNIX_EPOCH`: the time elapsed
/// since the epoch, or an error when the reading lies before it. Nothing is
/// claimed of which of the two comes back.
#[verifier::external_body]
fn since_unix_epoch(reading: &SystemTime) -> Result<Duration, SystemTimeError> {
    reading.duration_since(SystemTime::UNIX_EPOCH)
}

/// `Duration::as_nanos`: the whole span in nanoseconds. Nothing is claimed of
/// its size.
#[verifier::external_body]
fn whole_nanos(span: &Duration) -> u128 {
    span.as_nanos()
}

/// The timestamp that stands for a clock reading: the low 64 bits of the
/// nanoseconds elapsed since the epoch, and 0 for a clock set before it.
pub open spec fn stamp_of(elapsed: Option<u128>) -> u64 {
    match elapsed {
        Some(nanos) => (nanos % 0x1_0000_0000_0000_0000) as u64,
        None => 0,
    }
}

/// Turns the nanoseconds elapsed since the epoch (`None` for a clock set
/// before it) into a timestamp.
pub fn stamp_from(elapsed: Option<u128>) -> (stamp: u64)
    ensures
        stamp == stamp_of(elapsed),
{
    match elapsed {
        Some(nanos) => {
            let low: u128 = nanos % 0x1_0000_0000_0000_0000;
            low as u64
        },
        None => 0,
    }
}

/// Reads the system clock and returns the timestamp for it: the stamp of
/// the nanoseconds elapsed since the epoch, or of no reading at all where the
/// clock is set before the epoch. The call always returns: such a clock gives
/// the stamp 0. Which reading the clock gives is not for the library to say.
pub fn get_timestamp() -> (stamp: u64)
    ensures
        exists|elapsed: Option<u128>| stamp == #[trigger] stamp_of(elapsed),
{
    let reading = system_now();
    let elapsed = match since_unix_epoch(&reading) {
        Ok(span) => Some(whole_nanos(&span)),
        Err(_) => None,
    };
    stamp_from(elapsed)
}

} // verus!
