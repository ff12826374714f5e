//! The deadline table: one shared event for each pending epoch.

use crate::event::{
    channel_listen, channel_new, channel_notify_one, listener_channel, DeadlineEvent, Fired,
};
use crate::queue::{queue_entries, queue_new, queue_peek, queue_pop, queue_push};
use crate::slots::{slab_entries, slab_get, slab_insert, slab_new, slab_remove};
use event_listener::{Event, EventListener};
use priority_queue::PriorityQueue;
use slab::Slab;
use std::collections::HashMap;
use std::hash::RandomState;
use vstd::prelude::*;

verus! {

broadcast use vstd::std_specs::hash::group_hash_axioms;

/// The priority under which an epoch is queued. The queue hands out its
/// greatest priority first, so an epoch is ranked by its distance below the
/// last epoch: the earliest epoch has the greatest rank.
pub open spec fn rank(tick: u64) -> u64 {
    (u64::MAX - tick) as u64
}

/// The count that follows `n`, which starts again at 0 after the last one.
pub open spec fn next_count(n: u64) -> u64 {
    if n == u64::MAX {
        0
    } else {
        (n + 1) as u64
    }
}

/// Whether a count of signals went from `before` to `after` by at most one
/// signal.
pub open spec fn counts_on(before: u64, after: u64) -> bool {
    after == before || after == next_count(before)
}

/// Whether `tick` is the least key of `m`.
pub open spec fn is_earliest<V>(m: Map<u64, V>, tick: u64) -> bool {
    &&& m.contains_key(tick)
    &&& forall|other: u64| #[trigger] m.contains_key(other) ==> tick <= other
}

/// The least key of `m`, or `None` for a map without keys.
pub open spec fn earliest<V>(m: Map<u64, V>) -> Option<u64> {
    if m.dom().is_empty() {
        None
    } else {
        Some(choose|tick: u64| is_earliest(m, tick))
    }
}

/// Whether every key of `m` lies after `tick`; true of the empty map.
pub open spec fn all_after<V>(m: Map<u64, V>, tick: u64) -> bool {
    forall|other: u64| #[trigger] m.contains_key(other) ==> tick < other
}

/// The keys of `m` that are due at `tick`.
pub open spec fn due<V>(m: Map<u64, V>, tick: u64) -> Set<u64> {
    Set::new(|t: u64| m.contains_key(t) && t <= tick)
}

/// What one pass of firing at `tick` hands back for the entries `before`:
/// every due entry, once, with the record that its event was set, in
/// ascending order of epoch.
pub open spec fn fired_in_order(
    fired: Seq<(u64, Fired)>,
    before: Map<u64, DeadlineEvent>,
    tick: u64,
) -> bool {
    &&& forall|i: int, j: int|
        0 <= i < j < fired.len() ==> (#[trigger] fired[i]).0 < (#[trigger] fired[j]).0
    &&& forall|i: int|
        0 <= i < fired.len() ==> {
            &&& (#[trigger] fired[i]).0 <= tick
            &&& before.contains_key(fired[i].0)
            &&& fired[i].1@ == before[fired[i].0]
        }
    &&& forall|t: u64|
        #[trigger] before.contains_key(t) && t <= tick ==> exists|i: int|
            0 <= i < fired.len() && (#[trigger] fired[i]).0 == t
}

/// Whether no two keys of `m` share an event.
pub open spec fn distinct_events(m: Map<u64, DeadlineEvent>) -> bool {
    forall|a: u64, b: u64|
        #![trigger m[a], m[b]]
        m.contains_key(a) && m.contains_key(b) && a != b ==> m[a] != m[b]
}

/// Whether `evt` is the event of no key of `m`.
pub open spec fn unlike_all(m: Map<u64, DeadlineEvent>, evt: DeadlineEvent) -> bool {
    forall|t: u64| #[trigger] m.contains_key(t) ==> m[t] != evt
}

/// What subscribing to `tick` does to the entries `before`: afterwards
/// `evt` is the event of `tick`. A pending epoch keeps its event and nothing
/// changes; another epoch gets an event that is new and so differs from
/// every pending one, and `lowered` tells whether the epoch lies before
/// every other entry.
pub open spec fn subscribes(
    before: Map<u64, DeadlineEvent>,
    tick: u64,
    after: Map<u64, DeadlineEvent>,
    evt: DeadlineEvent,
    lowered: bool,
) -> bool {
    &&& after.contains_key(tick)
    &&& after[tick] == evt
    &&& if before.contains_key(tick) {
        &&& after == before
        &&& !lowered
    } else {
        &&& after == before.insert(tick, evt)
        &&& unlike_all(before, evt)
        &&& lowered == all_after(before, tick)
    }
}

/// The pending entries behind the table's lock: the events in a slab, the
/// slab keys queued by epoch, and the slab key of each pending epoch.
pub struct Inner {
    events: Slab<DeadlineEvent>,
    evt_to_tick: PriorityQueue<usize, u64, RandomState>,
    tick_to_evt: HashMap<u64, usize>,
}

impl View for Inner {
    type V = Map<u64, DeadlineEvent>;

    /// The pending entries: the event of each pending epoch.
    closed spec fn view(&self) -> Map<u64, DeadlineEvent> {
        Map::new(
            |t: u64| self.tick_to_evt@.contains_key(t),
            |t: u64| slab_entries(self.events)[self.tick_to_evt@[t]],
        )
    }
}

impl Inner {
    /// The three collections describe the same entries: each pending epoch
    /// has one occupied slab key, queued under the epoch's rank, the slab
    /// and the queue hold nothing else, and no two slab keys hold the same
    /// event.
    pub closed spec fn wf(&self) -> bool {
        let slots = slab_entries(self.events);
        let ranks = queue_entries(self.evt_to_tick);
        let index = self.tick_to_evt@;
        &&& forall|t: u64| #[trigger]
            index.contains_key(t) ==> {
                &&& slots.contains_key(index[t])
                &&& ranks.contains_key(index[t])
                &&& ranks[index[t]] == rank(t)
            }
        &&& forall|k: usize| #[trigger]
            ranks.contains_key(k) ==> {
                &&& slots.contains_key(k)
                &&& index.contains_key(rank(ranks[k]))
                &&& index[rank(ranks[k])] == k
            }
        &&& forall|k: usize| #[trigger] slots.contains_key(k) ==> ranks.contains_key(k)
        &&& forall|j: usize, k: usize|
            #![trigger slots[j], slots[k]]
            slots.contains_key(j) && slots.contains_key(k) && j != k ==> slots[j] != slots[k]
    }

    /// In a valid table no two pending epochs share an event.
    pub proof fn lemma_events_distinct(&self)
        requires
            self.wf(),
        ensures
            distinct_events(self@),
    {
    }

    /// A table with no pending entry.
    pub fn new() -> (inner: Inner)
        ensures
            inner.wf(),
            inner@ == (Map::<u64, DeadlineEvent>::empty()),
    {
        let inner = Inner {
            events: slab_new(),
            evt_to_tick: queue_new(),
            tick_to_evt: HashMap::new(),
        };
        assert(inner@ =~= Map::<u64, DeadlineEvent>::empty());
        inner
    }

    /// The number of pending entries.
    pub fn len(&self) -> (n: usize)
        requires
            self.wf(),
        ensures
            self@.dom().finite(),
            n == self@.dom().len(),
    {
        assert(self@.dom() =~= self.tick_to_evt@.dom());
        self.tick_to_evt.len()
    }

    /// The earliest pending epoch, or `None` where nothing is pending.
    pub fn lowest(&self) -> (r: Option<u64>)
        requires
            self.wf(),
        ensures
            r == earliest(self@),
            match r {
                Some(tick) => is_earliest(self@, tick),
                None => self@.dom().is_empty(),
            },
    {
        match queue_peek(&self.evt_to_tick) {
            Some((_, priority)) => {
                assert(is_earliest(self@, rank(priority)));
                Some(u64::MAX - priority)
            },
            None => {
                assert(self@.dom() =~= Set::<u64>::empty());
                None
            },
        }
    }

    /// The event of `tick` where that epoch is pending, without changing
    /// the table.
    pub fn find(&self, tick: u64) -> (r: Option<DeadlineEvent>)
        requires
            self.wf(),
        ensures
            r == (if self@.contains_key(tick) {
                Some(self@[tick])
            } else {
                None
            }),
    {
        match self.tick_to_evt.get(&tick) {
            Some(key) => match slab_get(&self.events, *key) {
                Some(evt) => Some(evt.share()),
                None => None,
            },
            None => None,
        }
    }

    /// Returns the event of `tick`, creating the entry where the epoch is
    /// not pending yet. The flag tells whether the earliest pending epoch
    /// moved forward: the entry is new and lies before every other one.
    pub fn subscribe(&mut self, tick: u64) -> (r: (DeadlineEvent, bool))
        requires
            old(self).wf(),
        ensures
            final(self).wf(),
            subscribes(old(self)@, tick, final(self)@, r.0, r.1),
            distinct_events(final(self)@),
    {
        if let Some(evt) = self.find(tick) {
            return (evt, false);
        }
        let first = self.lowest();
        let evt = DeadlineEvent::unset(&self.events);
        let handle = evt.share();
        let key = slab_insert(&mut self.events, evt);
        self.tick_to_evt.insert(tick, key);
        queue_push(&mut self.evt_to_tick, key, u64::MAX - tick);
        proof {
            assert(final(self)@ =~= old(self)@.insert(tick, handle));
        }
        let lowered = match first {
            Some(earliest) => tick < earliest,
            None => true,
        };
        (handle, lowered)
    }

    /// Fires every entry that is due at `tick`: earliest first, each event
    /// is set and its entry leaves the table in the same step. The entries
    /// after `tick` stay as they are. The result lists what was fired, each
    /// epoch with the record that its event was set.
    pub fn fire_before(&mut self, tick: u64) -> (fired: Vec<(u64, Fired)>)
        requires
            old(self).wf(),
        ensures
            final(self).wf(),
            final(self)@ == old(self)@.remove_keys(due(old(self)@, tick)),
            fired_in_order(fired@, old(self)@, tick),
            distinct_events(final(self)@),
    {
        let ghost before = self@;
        let mut fired: Vec<(u64, Fired)> = Vec::new();
        loop
            invariant
                self.wf(),
                forall|t: u64| #[trigger]
                    self@.contains_key(t) ==> before.contains_key(t) && self@[t] == before[t],
                forall|i: int|
                    0 <= i < fired.len() ==> {
                        &&& (#[trigger] fired[i]).0 <= tick
                        &&& before.contains_key(fired[i].0)
                        &&& fired[i].1@ == before[fired[i].0]
                        &&& all_after(self@, fired[i].0)
                    },
                forall|i: int, j: int|
                    0 <= i < j < fired.len() ==> (#[trigger] fired[i]).0 < (#[trigger] fired[j]).0,
                forall|t: u64|
                    #[trigger] before.contains_key(t) && !self@.contains_key(t) ==> exists|i: int|
                        0 <= i < fired.len() && (#[trigger] fired[i]).0 == t,
            ensures
                all_after(self@, tick),
            decreases self.tick_to_evt@.len(),
        {
            let is_due = match queue_peek(&self.evt_to_tick) {
                Some((_, priority)) => u64::MAX - priority <= tick,
                None => false,
            };
            if !is_due {
                break ;
            }
            let ghost held = self@;
            let ghost past = fired@;
            let ghost index = self.tick_to_evt@;
            let ghost ranks = queue_entries(self.evt_to_tick);
            match queue_pop(&mut self.evt_to_tick) {
                Some((key, priority)) => {
                    let evt_tick = u64::MAX - priority;
                    proof {
                        assert(index.contains_key(evt_tick) && index[evt_tick] == key);
                        assert forall|t: u64| #[trigger] held.contains_key(t) implies evt_tick
                            <= t by {
                            assert(ranks.contains_key(index[t]));
                        }
                        assert(is_earliest(held, evt_tick));
                    }
                    let evt = slab_remove(&mut self.events, key);
                    let done = evt.fire();
                    proof {
                        self.tick_to_evt@.lemma_remove_key_len(evt_tick);
                    }
                    self.tick_to_evt.remove(&evt_tick);
                    fired.push((evt_tick, done));
                    proof {
                        assert(done@ == held[evt_tick]);
                        assert(self@ =~= held.remove(evt_tick));
                        assert(fired@[past.len() as int] == (evt_tick, done));
                        assert forall|i: int| 0 <= i < fired.len() implies {
                            &&& (#[trigger] fired[i]).0 <= tick
                            &&& before.contains_key(fired[i].0)
                            &&& fired[i].1@ == before[fired[i].0]
                            &&& all_after(self@, fired[i].0)
                        } by {
                            if i < past.len() {
                                assert(fired@[i] == past[i]);
                                assert(all_after(held, past[i].0));
                            }
                        }
                        assert forall|t: u64| #[trigger]
                            before.contains_key(t) && !self@.contains_key(t) implies exists|i: int|
                            0 <= i < fired.len() && (#[trigger] fired[i]).0 == t by {
                            if t != evt_tick {
                                let i = choose|i: int| 0 <= i < past.len() && (#[trigger] past[i]).0 == t;
                                assert(fired@[i].0 == t);
                            }
                        }
                    }
                },
                None => {
                    break ;
                },
            }
        }
        proof {
            assert(self@ =~= before.remove_keys(due(before, tick)));
        }
        fired
    }
}

impl Default for Inner {
    fn default() -> (inner: Inner)
        ensures
            inner.wf(),
            inner@ == (Map::<u64, DeadlineEvent>::empty()),
    {
        Inner::new()
    }
}

/// The deadline table with its change channel. Exclusive access stands for
/// the table's write lock and shared access for its read lock.
pub struct TimeHeap {
    inner: Inner,
    waker: Event<()>,
    changes: u64,
}

impl View for TimeHeap {
    type V = Map<u64, DeadlineEvent>;

    /// The pending entries: the event of each pending epoch.
    closed spec fn view(&self) -> Map<u64, DeadlineEvent> {
        self.inner@
    }
}

impl TimeHeap {
    /// The table's collections agree with one another.
    pub closed spec fn wf(&self) -> bool {
        self.inner.wf()
    }

    /// How often the change channel has been signalled, counted modulo
    /// 2^64.
    pub closed spec fn change_count(&self) -> u64 {
        self.changes
    }

    /// The change channel of this table: the one that a subscription
    /// signals and that [`TimeHeap::wait_until_change`] listens on.
    pub closed spec fn channel(&self) -> Event<()> {
        self.waker
    }

    /// In a valid table no two pending epochs share an event.
    pub proof fn lemma_events_distinct(&self)
        requires
            self.wf(),
        ensures
            distinct_events(self@),
    {
        self.inner.lemma_events_distinct();
    }

    /// A table with no pending entry, whose channel was never signalled.
    pub fn new() -> (heap: TimeHeap)
        ensures
            heap.wf(),
            heap@ == (Map::<u64, DeadlineEvent>::empty()),
            heap.change_count() == 0,
    {
        TimeHeap { inner: Inner::new(), waker: channel_new(), changes: 0 }
    }

    /// How often the change channel has been signalled, counted modulo
    /// 2^64.
    pub fn changes(&self) -> (n: u64)
        ensures
            n == self.change_count(),
    {
        self.changes
    }

    /// The number of pending entries.
    pub fn len(&self) -> (n: usize)
        requires
            self.wf(),
        ensures
            self@.dom().finite(),
            n == self@.dom().len(),
    {
        self.inner.len()
    }

    /// The shared-access half of subscribing: the event of `tick` where
    /// that epoch is already pending.
    pub fn find(&self, tick: u64) -> (r: Option<DeadlineEvent>)
        requires
            self.wf(),
        ensures
            r == (if self@.contains_key(tick) {
                Some(self@[tick])
            } else {
                None
            }),
    {
        self.inner.find(tick)
    }

    /// Returns the event of `tick`, creating the entry where the epoch is
    /// not pending yet. Where the new entry lies before every other one the
    /// change channel is signalled, once.
    pub fn subscribe(&mut self, tick: u64) -> (evt: DeadlineEvent)
        requires
            old(self).wf(),
        ensures
            final(self).wf(),
            subscribes(
                old(self)@,
                tick,
                final(self)@,
                evt,
                final(self).change_count() != old(self).change_count(),
            ),
            counts_on(old(self).change_count(), final(self).change_count()),
            distinct_events(final(self)@),
            final(self).channel() == old(self).channel(),
    {
        let (evt, lowered) = self.inner.subscribe(tick);
        if lowered {
            channel_notify_one(&self.waker);
            self.changes = self.changes.wrapping_add(1);
        }
        evt
    }

    /// A listener on this table's change channel. It resolves the next
    /// time the channel is signalled, that is when a subscription moves the
    /// earliest pending epoch forward.
    pub fn wait_until_change(&self) -> (listener: EventListener<()>)
        ensures
            listener_channel(listener) == self.channel(),
    {
        channel_listen(&self.waker)
    }

    /// The earliest pending epoch, or `None` where nothing is pending.
    pub fn earliest_tick(&self) -> (r: Option<u64>)
        requires
            self.wf(),
        ensures
            r == earliest(self@),
            match r {
                Some(tick) => is_earliest(self@, tick),
                None => self@.dom().is_empty(),
            },
    {
        self.inner.lowest()
    }

    /// Fires every entry that is due at `tick`: earliest first, each event
    /// is set and its entry leaves the table in the same step. The entries
    /// after `tick` stay as they are, and the change channel is not
    /// signalled. The result lists what was fired, each epoch with the
    /// record that its event was set.
    pub fn fire_before(&mut self, tick: u64) -> (fired: Vec<(u64, Fired)>)
        requires
            old(self).wf(),
        ensures
            final(self).wf(),
            final(self)@ == old(self)@.remove_keys(due(old(self)@, tick)),
            fired_in_order(fired@, old(self)@, tick),
            final(self).change_count() == old(self).change_count(),
            distinct_events(final(self)@),
            final(self).channel() == old(self).channel(),
    {
        self.inner.fire_before(tick)
    }
}

impl Default for TimeHeap {
    fn default() -> (heap: TimeHeap)
        ensures
            heap.wf(),
            heap@ == (Map::<u64, DeadlineEvent>::empty()),
            heap.change_count() == 0,
    {
        TimeHeap::new()
    }
}

/// Of two pending deadlines the earlier never fires after the later: a pass
/// that fires the later one has fired the earlier one before it, and while
/// the earlier one is still pending so is the later one.
pub proof fn lemma_earlier_fires_first(
    before: Map<u64, DeadlineEvent>,
    tick: u64,
    fired: Seq<(u64, Fired)>,
    first: u64,
    second: u64,
)
    requires
        fired_in_order(fired, before, tick),
        before.contains_key(first),
        before.contains_key(second),
        first < second,
    ensures
        forall|j: int|
            0 <= j < fired.len() && (#[trigger] fired[j]).0 == second ==> exists|i: int|
                0 <= i < j && (#[trigger] fired[i]).0 == first,
        before.remove_keys(due(before, tick)).contains_key(first) ==> before.remove_keys(
            due(before, tick),
        ).contains_key(second),
{
    assert forall|j: int| 0 <= j < fired.len() && (#[trigger] fired[j]).0 == second implies exists|
        i: int,
    | 0 <= i < j && (#[trigger] fired[i]).0 == first by {
        let i = choose|i: int| 0 <= i < fired.len() && (#[trigger] fired[i]).0 == first;
        if i >= j {
            if i > j {
                assert(fired[j].0 < fired[i].0);
            }
        }
    }
}

/// Subscriptions to one epoch coalesce: while the epoch is pending, a
/// second subscription returns the event of the first, leaves the table as
/// it is and raises no change.
pub proof fn lemma_subscriptions_coalesce(
    start: Map<u64, DeadlineEvent>,
    tick: u64,
    middle: Map<u64, DeadlineEvent>,
    evt1: DeadlineEvent,
    lowered1: bool,
    end: Map<u64, DeadlineEvent>,
    evt2: DeadlineEvent,
    lowered2: bool,
)
    requires
        subscribes(start, tick, middle, evt1, lowered1),
        subscribes(middle, tick, end, evt2, lowered2),
    ensures
        evt2 == evt1,
        end == middle,
        !lowered2,
{
}

/// After a pass at `tick` no entry at or before `tick` is pending, and the
/// entries after `tick` are the ones that were pending before, each with
/// its event.
pub proof fn lemma_fire_clears_due(before: Map<u64, DeadlineEvent>, tick: u64)
    ensures
        forall|t: u64|
            t <= tick ==> !(#[trigger] before.remove_keys(due(before, tick)).contains_key(t)),
        forall|t: u64|
            t > tick && before.contains_key(t) ==> {
                &&& (#[trigger] before.remove_keys(due(before, tick)).contains_key(t))
                &&& before.remove_keys(due(before, tick))[t] == before[t]
            },
        before.remove_keys(due(before, tick)).dom().subset_of(before.dom()),
        all_after(before.remove_keys(due(before, tick)), tick),
{
}

/// A new epoch raises the change exactly when it becomes the earliest
/// pending one: it lies before the earliest entry, or nothing was pending.
pub proof fn lemma_change_iff_new_earliest(
    before: Map<u64, DeadlineEvent>,
    tick: u64,
    after: Map<u64, DeadlineEvent>,
    evt: DeadlineEvent,
    lowered: bool,
)
    requires
        subscribes(before, tick, after, evt, lowered),
    ensures
        lowered <==> !before.contains_key(tick) && is_earliest(after, tick),
        lowered <==> match earliest(before) {
            Some(first) => tick < first,
            None => true,
        },
        lowered ==> earliest(after) == Some(tick),
        !lowered ==> earliest(after) == earliest(before),
{
    lemma_earliest_is_least(before);
    lemma_earliest_is_least(after);
    if let Some(first) = earliest(before) {
        assert(is_earliest(before, first));
    }
    if let Some(first) = earliest(after) {
        assert(is_earliest(after, first));
    }
    if !before.contains_key(tick) {
        assert(after.contains_key(tick));
        if lowered {
            assert(is_earliest(after, tick));
        } else {
            let first = earliest(before)->0;
            assert(before.contains_key(first));
            assert(is_earliest(after, first));
        }
    }
}

/// `earliest` names the least key: it is `Some` of a key that no key
/// precedes, and `None` only for a map without keys.
pub proof fn lemma_earliest_is_least<V>(m: Map<u64, V>)
    ensures
        forall|tick: u64| #[trigger] is_earliest(m, tick) <==> earliest(m) == Some(tick),
        earliest(m) is None <==> m.dom().is_empty(),
{
    if !m.dom().is_empty() {
        let some = choose|t: u64| m.dom().contains(t);
        lemma_has_least(m, some);
    }
}

/// A map with the key `bound` has a least key.
proof fn lemma_has_least<V>(m: Map<u64, V>, bound: u64)
    requires
        m.contains_key(bound),
    ensures
        exists|tick: u64| is_earliest(m, tick),
    decreases bound,
{
    if exists|t: u64| m.contains_key(t) && t < bound {
        let t = choose|t: u64| m.contains_key(t) && t < bound;
        lemma_has_least(m, t);
    } else {
        assert(is_earliest(m, bound));
    }
}

/// A deadline is fired by the first pass at or after it: where the pass
/// before was made at `last`, so that everything pending lies after `last`,
/// each entry that a pass at `tick` fires lies after `last` and not after
/// `tick`. With passes one polling interval apart no sleeper waits longer
/// than that interval past its deadline.
pub proof fn lemma_fired_within_one_pass(
    before: Map<u64, DeadlineEvent>,
    last: u64,
    tick: u64,
    fired: Seq<(u64, Fired)>,
)
    requires
        all_after(before, last),
        fired_in_order(fired, before, tick),
    ensures
        forall|i: int| 0 <= i < fired.len() ==> last < (#[trigger] fired[i]).0 <= tick,
        forall|t: u64|
            #[trigger] before.contains_key(t) && t <= tick ==> exists|i: int|
                0 <= i < fired.len() && (#[trigger] fired[i]).0 == t,
{
}

/// The order in which two deadlines are registered does not matter: either
/// way the same epochs are pending afterwards, with the same earliest one,
/// so the same passes fire them.
pub proof fn lemma_registration_order_is_immaterial(
    start: Map<u64, DeadlineEvent>,
    one: u64,
    other: u64,
    first_way: Map<u64, DeadlineEvent>,
    second_way: Map<u64, DeadlineEvent>,
)
    requires
        exists|mid: Map<u64, DeadlineEvent>, e1: DeadlineEvent, l1: bool, e2: DeadlineEvent, l2: bool|
            #![trigger subscribes(start, one, mid, e1, l1), subscribes(mid, other, first_way, e2, l2)]
            subscribes(start, one, mid, e1, l1) && subscribes(mid, other, first_way, e2, l2),
        exists|mid: Map<u64, DeadlineEvent>, e1: DeadlineEvent, l1: bool, e2: DeadlineEvent, l2: bool|
            #![trigger subscribes(start, other, mid, e1, l1), subscribes(mid, one, second_way, e2, l2)]
            subscribes(start, other, mid, e1, l1) && subscribes(mid, one, second_way, e2, l2),
    ensures
        first_way.dom() == second_way.dom(),
        first_way.dom() == start.dom().insert(one).insert(other),
        earliest(first_way) == earliest(second_way),
        forall|tick: u64| due(first_way, tick) == due(second_way, tick),
{
    assert(first_way.dom() =~= start.dom().insert(one).insert(other));
    assert(second_way.dom() =~= start.dom().insert(one).insert(other));
    lemma_earliest_is_least(first_way);
    lemma_earliest_is_least(second_way);
    if let Some(tick) = earliest(first_way) {
        assert(is_earliest(first_way, tick));
        assert(is_earliest(second_way, tick));
    }
    if let Some(tick) = earliest(second_way) {
        assert(is_earliest(second_way, tick));
        assert(is_earliest(first_way, tick));
    }
    assert forall|tick: u64| due(first_way, tick) == due(second_way, tick) by {
        assert(due(first_way, tick) =~= due(second_way, tick));
    }
}

} // verus!
