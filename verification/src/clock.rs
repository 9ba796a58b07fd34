//! The wall clock, in whole seconds since the Unix epoch.

use std::time::{SystemTime, UNIX_EPOCH};
use vstd::prelude::*;

verus! {

/// Reads the system clock with `SystemTime::now` and hands back the whole
/// seconds that have passed since the Unix epoch, or `None` where the clock
/// stands before the epoch. Nothing is claimed of the value: two readings
/// may differ in any way.
#[verifier::external_body]
fn read_system_clock() -> (seconds: Option<u64>) {
    match SystemTime::now().duration_since(UNIX_EPOCH) {
        Ok(elapsed) => Some(elapsed.as_secs()),
        Err(_) => None,
    }
}

/// The current time in seconds since the Unix epoch. A clock set before the
/// epoch reads as the epoch itself.
pub fn unix_time_now() -> (now: u64) {
    seconds_of_reading(read_system_clock())
}

/// The time that a clock reading stands for: the seconds read, or the epoch
/// itself, second 0, where the clock stands before the epoch.
pub fn seconds_of_reading(reading: Option<u64>) -> (seconds: u64)
    ensures
        seconds == match reading {
            Some(read) => read,
            None => 0,
        },
{
    match reading {
        Some(read) => read,
        None => 0,
    }
}

} // verus!
