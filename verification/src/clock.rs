//! The monotonic clock. A reading depends on when it is taken, so nothing is
//! promised of `Instant::now`; the time between two readings is a function
//! of the two readings alone, and is named here.

use std::time::{Duration, Instant};
use vstd::prelude::*;

verus! {

/// `std::time::Instant`, carried as an opaque value.
#[verifier::external_type_specification]
#[verifier::external_body]
pub struct ExInstant(Instant);

/// The time from `earlier` to `later` that
/// `Instant::saturating_duration_since` gives (zero when `later` is not after
/// `earlier`).
pub uninterp spec fn duration_between(later: Instant, earlier: Instant) -> Duration;

/// The whole microseconds of a duration, as `Duration::as_micros` gives them.
pub uninterp spec fn duration_micros(d: Duration) -> u128;

/// Calls `Instant::now`. The result is the clock's current reading; nothing
/// is stated of it.
#[verifier::external_body]
pub(crate) fn instant_now() -> (now: Instant) {
    Instant::now()
}

/// Calls `Instant::saturating_duration_since`: the time from `earlier` to
/// `later`. It depends on the two instants alone; the contract names it.
#[verifier::external_body]
pub(crate) fn duration_since(later: &Instant, earlier: &Instant) -> (d: Duration)
    ensures
        d == duration_between(*later, *earlier),
{
    later.saturating_duration_since(*earlier)
}

/// Calls `Duration::as_micros`: the whole microseconds of `d`, named
/// `duration_micros`.
#[verifier::external_body]
pub(crate) fn duration_as_micros(d: &Duration) -> (us: u128)
    ensures
        us == duration_micros(*d),
{
    d.as_micros()
}

/// Calls `Duration::as_secs`. std documents it as the whole seconds of `d`,
/// and `as_micros` as its whole microseconds; the contract states the one
/// through the other: the whole seconds are the whole microseconds divided by
/// a million, rounded down.
#[verifier::external_body]
pub(crate) fn duration_as_secs(d: &Duration) -> (secs: u64)
    ensures
        secs == duration_micros(*d) / 1_000_000,
{
    d.as_secs()
}

} // verus!
