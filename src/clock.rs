//! The wall clock, read only to seed a generator.
use std::time::{Duration, SystemTime, SystemTimeError};
use vstd::prelude::*;

verus! {

#[verifier::external_type_specification]
#[verifier::external_body]
pub struct ExSystemTime(SystemTime);

#[verifier::external_type_specification]
#[verifier::external_body]
pub struct ExSystemTimeError(SystemTimeError);

/// Relies on `SystemTime::now`: reads the system clock. Nothing is known of
/// the time it returns.
pub assume_specification[ SystemTime::now ]() -> SystemTime;

/// Relies on `Duration::as_secs`: the whole seconds of a duration. Nothing
/// more is stated, as a `Duration` is opaque here.
pub assume_specification[ Duration::as_secs ](d: &Duration) -> u64;

/// Relies on `SystemTime::duration_since` with `UNIX_EPOCH`: the time elapsed
/// since the Unix epoch, or an error when the clock reads an earlier time.
#[verifier::external_body]
pub(crate) fn since_unix_epoch(t: &SystemTime) -> (r: Result<Duration, SystemTimeError>) {
    t.duration_since(std::time::UNIX_EPOCH)
}

} // verus!
