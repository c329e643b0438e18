//! Wall-clock access. The time of day is outside anything a proof can pin
//! down, so these functions only state what holds of every reading.
use crate::error::{RailError, RailErrorView};
use std::time::{Duration, SystemTime, SystemTimeError};
use vstd::prelude::*;
use vstd::string::*;

verus! {

#[verifier::external_type_specification]
#[verifier::external_body]
pub struct ExSystemTime(SystemTime);

#[verifier::external_type_specification]
#[verifier::external_body]
pub struct ExSystemTimeError(SystemTimeError);

/// Whether `m` is the text of a failed clock reading: it begins with
/// `clock error: `.
pub open spec fn is_clock_error_text(m: Seq<char>) -> bool {
    m.len() >= 13 && m.subrange(0, 13) == "clock error: "@
}

/// Calls `SystemTime::now`. Nothing is claimed of the reading.
#[verifier::external_body]
fn system_now() -> SystemTime {
    SystemTime::now()
}

/// Calls `SystemTime::duration_since(UNIX_EPOCH)`, which fails when the
/// clock reads earlier than the epoch. Nothing is claimed of the outcome.
#[verifier::external_body]
fn since_unix_epoch(t: &SystemTime) -> Result<Duration, SystemTimeError> {
    t.duration_since(std::time::UNIX_EPOCH)
}

/// Calls `Duration::as_nanos`. A `Duration` holds a `u64` count of whole
/// seconds and fewer than 10^9 further nanoseconds, so the total is below
/// `(u64::MAX + 1) * 10^9`.
#[verifier::external_body]
fn duration_nanos(d: &Duration) -> (r: u128)
    ensures
        r < (u64::MAX as u128 + 1) * 1_000_000_000,
{
    d.as_nanos()
}

/// Calls `ToString::to_string` on the clock error (its `Display` text).
#[verifier::external_body]
fn clock_error_text(e: &SystemTimeError) -> String {
    e.to_string()
}

/// Nanoseconds since 1970-01-01T00:00:00Z; fails with a `CaptureError`
/// when the system clock reads earlier than that.
pub fn unix_time_nanos() -> (r: Result<u128, RailError>)
    ensures
        r matches Ok(n) ==> n < (u64::MAX as u128 + 1) * 1_000_000_000,
        r matches Err(e) ==> (e@ matches RailErrorView::CaptureError(m) && is_clock_error_text(m)),
{
    let now = system_now();
    match since_unix_epoch(&now) {
        Ok(d) => Ok(duration_nanos(&d)),
        Err(e) => {
            let mut msg = String::from_str("clock error: ");
            msg.append(clock_error_text(&e).as_str());
            proof {
                reveal_strlit("clock error: ");
                assert(msg@.subrange(0, 13) =~= "clock error: "@);
            }
            Err(RailError::CaptureError(msg))
        },
    }
}

/// Whole seconds in `nanos` nanoseconds.
pub open spec fn secs_of_nanos(nanos: int) -> int {
    nanos / 1_000_000_000
}

/// Whole seconds in a clock reading of `nanos` nanoseconds.
pub fn secs_from_nanos(nanos: u128) -> (r: u64)
    requires
        nanos < (u64::MAX as u128 + 1) * 1_000_000_000,
    ensures
        r == secs_of_nanos(nanos as int),
{
    (nanos / 1_000_000_000) as u64
}

/// Whole seconds since the Unix epoch: [`secs_from_nanos`] of the
/// reading of [`unix_time_nanos`].
pub fn now_secs() -> (r: Result<u64, RailError>)
    ensures
        r matches Ok(s) ==> exists|nanos: int|
            0 <= nanos < (u64::MAX as int + 1) * 1_000_000_000 && s == #[trigger] secs_of_nanos(nanos),
        r matches Err(e) ==> (e@ matches RailErrorView::CaptureError(m) && is_clock_error_text(m)),
{
    let nanos = unix_time_nanos()?;
    let s = secs_from_nanos(nanos);
    proof {
        assert(0 <= nanos as int && s == secs_of_nanos(nanos as int));
    }
    Ok(s)
}

} // verus!
