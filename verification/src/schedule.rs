//! What the scheduler thread and a sleeper decide, as functions of the
//! clock and the table.

use crate::event::{listener_channel, DeadlineEvent};
use crate::timeheap::{counts_on, distinct_events, due, earliest, subscribes, TimeHeap};
use event_listener::EventListener;
use vstd::prelude::*;

verus! {

/// How far ahead, in milliseconds, the earliest deadline may lie for the
/// scheduler to keep polling.
pub const FAST_PATH_WINDOW_MS: u64 = 50;

/// How long the scheduler sleeps between two polls, in milliseconds.
pub const POLL_INTERVAL_MS: u64 = 1;

/// How the scheduler waits before it looks at the table again.
#[derive(Clone, Copy, Debug, PartialEq, Eq, Structural)]
pub enum WaitPlan {
    /// A deadline is near: sleep for `millis` milliseconds, whatever
    /// happens.
    Poll { millis: u64 },
    /// No deadline is near: wait for the epoch `until`, or for the change
    /// channel, whichever comes first.
    Park { until: u64 },
}

/// The wait that fits the earliest pending epoch at `now`. With nothing
/// pending the target is the last epoch.
pub open spec fn planned(now: u64, earliest: Option<u64>) -> WaitPlan {
    let target = match earliest {
        Some(tick) => tick,
        None => u64::MAX,
    };
    if target - now > FAST_PATH_WINDOW_MS {
        WaitPlan::Park { until: target }
    } else {
        WaitPlan::Poll { millis: POLL_INTERVAL_MS }
    }
}

/// Chooses between polling and parking from the clock and the earliest
/// pending epoch.
pub fn plan_wait(now: u64, earliest: Option<u64>) -> (plan: WaitPlan)
    ensures
        plan == planned(now, earliest),
{
    let target = match earliest {
        Some(tick) => tick,
        None => u64::MAX,
    };
    if target.saturating_sub(now) > FAST_PATH_WINDOW_MS {
        WaitPlan::Park { until: target }
    } else {
        WaitPlan::Poll { millis: POLL_INTERVAL_MS }
    }
}

/// One round of the scheduler at the epoch `now`: fires what is due, then
/// plans the wait from what is left.
pub fn advance(heap: &mut TimeHeap, now: u64) -> (plan: WaitPlan)
    requires
        old(heap).wf(),
    ensures
        final(heap).wf(),
        final(heap)@ == old(heap)@.remove_keys(due(old(heap)@, now)),
        final(heap).change_count() == old(heap).change_count(),
        final(heap).channel() == old(heap).channel(),
        distinct_events(final(heap)@),
        plan == planned(now, earliest(final(heap)@)),
{
    heap.fire_before(now);
    plan_wait(now, heap.earliest_tick())
}

/// Prepares the scheduler's long wait: listens on the table's change
/// channel first, then reads the epoch to wait for, so that no subscription that
/// comes in between goes unnoticed. With nothing pending the epoch is the
/// last one.
pub fn park(heap: &TimeHeap) -> (r: (EventListener<()>, u64))
    requires
        heap.wf(),
    ensures
        listener_channel(r.0) == heap.channel(),
        r.1 == match earliest(heap@) {
            Some(tick) => tick,
            None => u64::MAX,
        },
{
    let listener = heap.wait_until_change();
    let target = match heap.earliest_tick() {
        Some(tick) => tick,
        None => u64::MAX,
    };
    (listener, target)
}

/// What a sleeper learns from the table under shared access.
pub enum Probe {
    /// The deadline has passed: there is nothing to wait for.
    Due,
    /// The deadline's epoch is pending: wait for this event.
    Found(DeadlineEvent),
    /// The epoch is not pending: it has to be registered under exclusive
    /// access.
    Missing,
}

/// Whether a deadline has been reached at `now`.
pub open spec fn is_due(now: u64, deadline: u64) -> bool {
    deadline <= now
}

/// Looks for the event of `deadline` without changing the table.
pub fn probe(heap: &TimeHeap, now: u64, deadline: u64) -> (r: Probe)
    requires
        heap.wf(),
    ensures
        r == (if is_due(now, deadline) {
            Probe::Due
        } else if heap@.contains_key(deadline) {
            Probe::Found(heap@[deadline])
        } else {
            Probe::Missing
        }),
{
    if deadline <= now {
        return Probe::Due;
    }
    match heap.find(deadline) {
        Some(evt) => Probe::Found(evt),
        None => Probe::Missing,
    }
}

/// Registers a sleeper for the epoch `deadline` at the epoch `now`. A
/// deadline that has passed leaves the table as it is and gives `None`;
/// any other is subscribed to, and the sleeper waits for the event.
pub fn until(heap: &mut TimeHeap, now: u64, deadline: u64) -> (r: Option<DeadlineEvent>)
    requires
        old(heap).wf(),
    ensures
        final(heap).wf(),
        final(heap).channel() == old(heap).channel(),
        distinct_events(final(heap)@),
        is_due(now, deadline) ==> {
            &&& r is None
            &&& final(heap)@ == old(heap)@
            &&& final(heap).change_count() == old(heap).change_count()
        },
        !is_due(now, deadline) ==> {
            &&& r is Some
            &&& subscribes(
                old(heap)@,
                deadline,
                final(heap)@,
                r->0,
                final(heap).change_count() != old(heap).change_count(),
            )
            &&& counts_on(old(heap).change_count(), final(heap).change_count())
        },
{
    if deadline <= now {
        proof {
            heap.lemma_events_distinct();
        }
        None
    } else {
        Some(heap.subscribe(deadline))
    }
}

} // verus!
