//! The wall clock, in whole seconds since the Unix epoch.

use vstd::prelude::*;

verus! {

/// `SystemTime::now().duration_since(UNIX_EPOCH)` in whole seconds, or
/// nothing when the clock reads before the epoch. It depends on the
/// moment of the call, so nothing is stated of it.
#[verifier::external_body]
fn seconds_since_epoch() -> Option<u64> {
    match std::time::SystemTime::now().duration_since(std::time::UNIX_EPOCH) {
        Ok(d) => Some(d.as_secs()),
        Err(_) => None,
    }
}

/// A clock reading as a signed count of seconds: the seconds since the
/// epoch (as `as i64` converts them), or zero for a clock before the epoch.
pub fn epoch_seconds(since: Option<u64>) -> (r: i64)
    ensures
        r == match since {
            Some(s) => s as i64,
            None => 0i64,
        },
{
    match since {
        Some(s) => s as i64,
        None => 0,
    }
}

/// Current Unix time in whole seconds, as `epoch_seconds` turns the
/// clock's reading into a number.
pub fn now_epoch() -> i64 {
    let since = seconds_since_epoch();
    epoch_seconds(since)
}

} // verus!
