//! Conversion between monotonic instants and epochs.
//!
//! An epoch counts the whole milliseconds from a reference instant, taken
//! once, to a point in time. Instants before the reference have epoch 0 and
//! instants too far after it have epoch `u64::MAX`.

use std::time::{Duration, Instant};
use vstd::prelude::*;

verus! {

#[verifier::external_type_specification]
#[verifier::external_body]
pub struct ExInstant(Instant);

/// The whole milliseconds in a duration: what `Duration::as_millis` returns.
pub uninterp spec fn duration_millis(d: Duration) -> nat;

/// The whole milliseconds from `earlier` to `later`, zero where `later` is
/// not after `earlier`: the length, in milliseconds, of what
/// `Instant::saturating_duration_since` returns.
pub uninterp spec fn millis_between(later: Instant, earlier: Instant) -> nat;

/// The duration of `ms` milliseconds: what `Duration::from_millis` returns.
pub uninterp spec fn millis_span(ms: u64) -> Duration;

/// The instant that lies `d` after `start`, or `None` where the platform's
/// instants do not reach that far: what `Instant::checked_add` returns.
pub uninterp spec fn instant_plus(start: Instant, d: Duration) -> Option<Instant>;

/// The number `n` as an epoch: itself where it fits, else the greatest epoch.
pub open spec fn saturated(n: nat) -> u64 {
    if n <= u64::MAX {
        n as u64
    } else {
        u64::MAX
    }
}

/// The epoch of the instant `i` for the reference instant `start`.
pub open spec fn epoch_of(start: Instant, i: Instant) -> u64 {
    saturated(millis_between(i, start))
}

/// Calls `Instant::saturating_duration_since`. The claim: the result lasts
/// as long as the time from `earlier` to `later`, or zero where `later` is
/// the earlier one.
#[verifier::external_body]
fn elapsed_since(later: Instant, earlier: Instant) -> (d: Duration)
    ensures
        duration_millis(d) == millis_between(later, earlier),
{
    later.saturating_duration_since(earlier)
}

/// Calls `Duration::as_millis`. The claim: the result is the duration's
/// whole milliseconds.
#[verifier::external_body]
fn whole_millis(d: Duration) -> (ms: u128)
    ensures
        ms == duration_millis(d),
{
    d.as_millis()
}

/// Calls `Duration::from_millis`. The claim: the result is the duration of
/// `ms` milliseconds, the same for the same count, and it lasts `ms` whole
/// milliseconds.
#[verifier::external_body]
fn span_of_millis(ms: u64) -> (d: Duration)
    ensures
        d == millis_span(ms),
        duration_millis(d) == ms,
{
    Duration::from_millis(ms)
}

/// Calls `Instant::checked_add`, which gives `None` where the sum cannot be
/// represented. How far the platform's instants reach is not spelled out:
/// the result is named. The claims: the result depends on the two arguments
/// alone, and a result `t` lies exactly `d` after `start`.
#[verifier::external_body]
fn instant_after(start: Instant, d: Duration) -> (r: Option<Instant>)
    ensures
        r == instant_plus(start, d),
        r matches Some(t) ==> millis_between(t, start) == duration_millis(d),
{
    start.checked_add(d)
}

/// Brings a count of milliseconds into the range of an epoch.
pub fn millis_to_epoch(ms: u128) -> (e: u64)
    ensures
        e == saturated(ms as nat),
{
    if ms > u64::MAX as u128 {
        u64::MAX
    } else {
        ms as u64
    }
}

/// Converts an instant to its epoch for the reference instant `start`:
/// the whole milliseconds since `start`, 0 for an instant before it.
pub fn instant_to_epoch(start: Instant, i: Instant) -> (e: u64)
    ensures
        e == epoch_of(start, i),
{
    millis_to_epoch(whole_millis(elapsed_since(i, start)))
}

/// Converts an epoch to the instant that lies `e` milliseconds after the
/// reference instant `start`: the sum of `start` and the duration of `e`
/// milliseconds. The result is `None` exactly where the platform's instants
/// do not reach that sum; an instant that is returned has epoch `e`.
pub fn epoch_to_instant(start: Instant, e: u64) -> (r: Option<Instant>)
    ensures
        r == instant_plus(start, millis_span(e)),
        r matches Some(t) ==> millis_between(t, start) == e && epoch_of(start, t) == e,
{
    instant_after(start, span_of_millis(e))
}

} // verus!
