//! Time as the library counts it: whole nanoseconds on a monotonic clock,
//! measured from an origin that the owner of the clock fixed when it was made.

use std::time::{Duration, Instant};
use vstd::prelude::*;

verus! {

/// `std::time::Instant`, of which nothing is known.
#[verifier::external_type_specification]
#[verifier::external_body]
pub struct ExInstant(Instant);

/// `Instant::now`: some instant. Nothing is claimed of it.
pub assume_specification[ Instant::now ]() -> Instant;

/// `Instant::elapsed`: the time since `start`, which differs from call to
/// call. Nothing is claimed of it.
pub assume_specification[ Instant::elapsed ](start: &Instant) -> Duration;

/// `Duration::as_secs`: the whole seconds of a duration. Nothing is claimed
/// of the number.
pub assume_specification[ Duration::as_secs ](span: &Duration) -> u64;

/// `Duration::subsec_nanos`: the part of a duration below one second, in
/// nanoseconds. Nothing is claimed of the number.
pub assume_specification[ Duration::subsec_nanos ](span: &Duration) -> u32;

/// `Duration::as_millis`: the whole milliseconds of a duration. Nothing is
/// claimed of the number.
pub assume_specification[ Duration::as_millis ](span: &Duration) -> u128;

/// Nanoseconds in one second.
pub const NANOS_PER_SECOND: u64 = 1_000_000_000;

/// The reading that the clock reports for a span of `secs` seconds and
/// `subsec` nanoseconds when the last reading was `floor`: the span in
/// nanoseconds, held at `u64::MAX` where it is longer, and never below
/// `floor`.
pub open spec fn reading(secs: u64, subsec: u32, floor: u64) -> u64 {
    let span = secs * NANOS_PER_SECOND + subsec;
    if span > u64::MAX {
        u64::MAX
    } else if span < floor {
        floor
    } else {
        span as u64
    }
}

/// Turns a span into a clock reading that does not fall behind `floor`.
pub fn reading_from_parts(secs: u64, subsec: u32, floor: u64) -> (now: u64)
    ensures
        now == reading(secs, subsec, floor),
        now >= floor,
{
    assert(secs * NANOS_PER_SECOND <= u64::MAX * NANOS_PER_SECOND) by (nonlinear_arith)
        requires
            secs <= u64::MAX,
    ;
    let span: u128 = (secs as u128) * (NANOS_PER_SECOND as u128) + (subsec as u128);
    if span > u64::MAX as u128 {
        u64::MAX
    } else if span < floor as u128 {
        floor
    } else {
        span as u64
    }
}

/// The time `seconds` seconds after `now`, held at `u64::MAX` where it lies
/// beyond.
pub open spec fn later(now: u64, seconds: u64) -> u64 {
    if now + seconds * NANOS_PER_SECOND > u64::MAX {
        u64::MAX
    } else {
        (now + seconds * NANOS_PER_SECOND) as u64
    }
}

/// The time `seconds` seconds after `now`.
pub fn deadline(now: u64, seconds: u64) -> (time: u64)
    ensures
        time == later(now, seconds),
        time >= now,
{
    assert(seconds * NANOS_PER_SECOND <= u64::MAX * NANOS_PER_SECOND) by (nonlinear_arith)
        requires
            seconds <= u64::MAX,
    ;
    let time: u128 = (now as u128) + (seconds as u128) * (NANOS_PER_SECOND as u128);
    if time > u64::MAX as u128 {
        u64::MAX
    } else {
        time as u64
    }
}

/// The time from `earlier` to `now`; zero where `now` is not after `earlier`.
pub open spec fn time_between(earlier: u64, now: u64) -> int {
    if now >= earlier {
        now - earlier
    } else {
        0
    }
}

/// Whether more than `seconds` seconds have passed from `earlier` to `now`.
pub fn longer_than(earlier: u64, now: u64, seconds: u64) -> (longer: bool)
    ensures
        longer == (time_between(earlier, now) > seconds * NANOS_PER_SECOND),
{
    let span: u64 = if now >= earlier {
        now - earlier
    } else {
        0
    };
    assert(seconds * NANOS_PER_SECOND <= u64::MAX * NANOS_PER_SECOND) by (nonlinear_arith)
        requires
            seconds <= u64::MAX,
    ;
    (span as u128) > (seconds as u128) * (NANOS_PER_SECOND as u128)
}

/// The whole seconds since `origin`, as the clock shows them.
pub(crate) fn instant_seconds(origin: &Instant) -> u64 {
    origin.elapsed().as_secs()
}

/// The whole milliseconds since `origin`, as the clock shows them.
pub(crate) fn millis_since(origin: &Instant) -> u128 {
    origin.elapsed().as_millis()
}

/// Reads the clock that started at `origin`. The reading is the time since
/// `origin` in nanoseconds, except that it is never less than `floor`, the
/// reading before it.
pub fn monotonic_now(origin: &Instant, floor: u64) -> (now: u64)
    ensures
        now >= floor,
{
    let span = origin.elapsed();
    reading_from_parts(span.as_secs(), span.subsec_nanos(), floor)
}

} // verus!
