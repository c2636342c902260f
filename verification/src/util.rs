//! The clock, as unix seconds.
use vstd::prelude::*;

verus! {

/// Reads `SystemTime::now()` against `UNIX_EPOCH` (`duration_since`,
/// then `as_secs`): whole seconds since the epoch, `None` when the clock is
/// set before it. The reading depends on the clock, so nothing is stated of
/// it.
#[verifier::external_body]
fn seconds_since_epoch() -> (r: Option<u64>) {
    match std::time::SystemTime::now().duration_since(std::time::UNIX_EPOCH) {
        Ok(d) => Some(d.as_secs()),
        Err(_) => None,
    }
}

/// A clock reading as a timestamp column holds it: the seconds as an
/// `i64` (wrapping past its range), 0 for a clock before the epoch.
pub open spec fn unix_seconds_spec(since_epoch: Option<u64>) -> i64 {
    match since_epoch {
        Some(s) => s as i64,
        None => 0,
    }
}

pub fn unix_seconds(since_epoch: Option<u64>) -> (t: i64)
    ensures
        t == unix_seconds_spec(since_epoch),
{
    match since_epoch {
        Some(s) => s as i64,
        None => 0,
    }
}

/// Current time as unix seconds.
pub fn now_unix() -> (t: i64)
    ensures
        exists|reading: Option<u64>| t == unix_seconds_spec(reading),
{
    let reading = seconds_since_epoch();
    unix_seconds(reading)
}

} // verus!
