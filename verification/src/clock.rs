//! The wall clock, read through std's `SystemTime`.
use vstd::prelude::*;
use std::time::{Duration, SystemTime, UNIX_EPOCH};

verus! {

/// The wall-clock time type of std, opaque to proofs.
#[verifier::external_type_specification]
#[verifier::external_body]
pub struct ExSystemTime(SystemTime);

/// Calls `SystemTime::now`. The result is whatever the machine clock says;
/// nothing is claimed of it.
#[verifier::external_body]
fn system_now() -> SystemTime {
    SystemTime::now()
}

/// Calls `SystemTime::duration_since(UNIX_EPOCH)`, giving `None` where std
/// reports an error (a time before the epoch). Nothing is claimed of the
/// duration.
#[verifier::external_body]
fn since_unix_epoch(t: &SystemTime) -> Option<Duration> {
    match t.duration_since(UNIX_EPOCH) {
        Ok(d) => Some(d),
        Err(_) => None,
    }
}

/// Calls `Duration::as_secs`. `Duration` is opaque here, so nothing is
/// claimed of the number of whole seconds.
#[verifier::external_body]
fn whole_secs(d: &Duration) -> u64 {
    d.as_secs()
}

/// The current time in whole seconds since the Unix epoch, `None` when the
/// clock reads a time before the epoch.
pub(crate) fn unix_now_secs() -> Option<u64> {
    let now = system_now();
    match since_unix_epoch(&now) {
        Some(d) => Some(whole_secs(&d)),
        None => None,
    }
}

} // verus!
