//! The wall clock, in the units that records use.
use std::time::{SystemTime, SystemTimeError};
use vstd::prelude::*;

verus! {

#[verifier::external_type_specification]
#[verifier::external_body]
pub struct ExSystemTime(std::time::SystemTime);

#[verifier::external_type_specification]
#[verifier::external_body]
pub struct ExSystemTimeError(std::time::SystemTimeError);

/// `SystemTime::now` reads the clock; nothing is claimed of what it reads.
pub assume_specification[ SystemTime::now ]() -> SystemTime
;

/// The time from which Unix time is counted, `std::time::UNIX_EPOCH`.
#[verifier::external_body]
fn unix_epoch() -> SystemTime {
    std::time::UNIX_EPOCH
}

/// Calls `SystemTime::duration_since` and takes the span of time apart into whole seconds and
/// the nanoseconds beyond them. Claims that the nanoseconds make up less than a second. How long
/// the span is, and whether `earlier` is the later time instead, is up to the clock.
#[verifier::external_body]
fn time_since(time: &SystemTime, earlier: SystemTime) -> (r: Result<(u64, u32), SystemTimeError>)
    ensures
        r matches Ok(span) ==> span.1 < 1_000_000_000,
{
    time.duration_since(earlier).map(|span| (span.as_secs(), span.subsec_nanos()))
}

/// The whole milliseconds of a span of `secs` seconds and `nanos` nanoseconds.
pub open spec fn whole_millis(secs: u64, nanos: u32) -> int {
    secs * 1000 + nanos / 1_000_000
}

/// The whole milliseconds of a span of time as a signed count, or the largest one where they do
/// not fit.
pub fn clamp_millis(secs: u64, nanos: u32) -> (r: i64)
    ensures
        r == (if whole_millis(secs, nanos) <= i64::MAX {
            whole_millis(secs, nanos)
        } else {
            i64::MAX as int
        }),
{
    let millis: u128 = secs as u128 * 1000 + (nanos / 1_000_000) as u128;
    if millis <= 0x7FFF_FFFF_FFFF_FFFF {
        millis as i64
    } else {
        i64::MAX
    }
}

/// `secs` as a signed count, if it fits.
pub fn signed_secs(secs: u64) -> (r: Option<i64>)
    ensures
        r is Some <==> secs <= i64::MAX,
        r matches Some(s) ==> s == secs,
{
    if secs <= 0x7FFF_FFFF_FFFF_FFFF {
        Some(secs as i64)
    } else {
        None
    }
}

/// The whole milliseconds of the time that has passed, where it could be told.
pub fn elapsed_millis(elapsed: Result<(u64, u32), SystemTimeError>) -> (r: Result<
    i64,
    SystemTimeError,
>)
    ensures
        match elapsed {
            Ok(span) => r matches Ok(ms) && ms == (if whole_millis(span.0, span.1) <= i64::MAX {
                whole_millis(span.0, span.1)
            } else {
                i64::MAX as int
            }),
            Err(e) => r == Err::<i64, SystemTimeError>(e),
        },
{
    match elapsed {
        Ok((secs, nanos)) => Ok(clamp_millis(secs, nanos)),
        Err(e) => Err(e),
    }
}

/// The whole seconds of the time that has passed, where it could be told and the count fits.
pub fn elapsed_secs(elapsed: Result<(u64, u32), SystemTimeError>) -> (r: Option<i64>)
    ensures
        r is Some <==> (elapsed matches Ok(span) && span.0 <= i64::MAX),
        r matches Some(secs) ==> secs == elapsed->Ok_0.0,
{
    match elapsed {
        Ok((secs, _)) => signed_secs(secs),
        Err(_) => None,
    }
}

/// Milliseconds since the Unix epoch. Fails where the clock stands before it.
pub fn current_time_ms() -> (r: Result<i64, SystemTimeError>)
    ensures
        r matches Ok(ms) ==> ms >= 0,
{
    elapsed_millis(time_since(&SystemTime::now(), unix_epoch()))
}

/// Calls `SystemTimeError::to_string`. The wording is the standard library's; nothing is
/// claimed of it.
#[verifier::external_body]
fn error_text(error: &SystemTimeError) -> String {
    error.to_string()
}

/// A reading of the clock, with the text of its error where there is none.
pub fn described(now: Result<i64, SystemTimeError>) -> (r: Result<i64, String>)
    ensures
        r is Ok <==> now is Ok,
        r matches Ok(ms) ==> now == Ok::<i64, SystemTimeError>(ms),
{
    match now {
        Ok(ms) => Ok(ms),
        Err(e) => Err(error_text(&e)),
    }
}

/// Milliseconds since the Unix epoch, or why they cannot be told.
pub(crate) fn clock_reading() -> (r: Result<i64, String>)
    ensures
        r matches Ok(ms) ==> ms >= 0,
{
    described(current_time_ms())
}

/// Seconds since the Unix epoch. `None` where the clock stands before it or the
/// count does not fit.
pub(crate) fn unix_seconds() -> (r: Option<i64>)
    ensures
        r matches Some(s) ==> s >= 0,
{
    elapsed_secs(time_since(&SystemTime::now(), unix_epoch()))
}

} // verus!
