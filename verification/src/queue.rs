//! The priority queue that orders the pending entries, as contracts see it.

use priority_queue::PriorityQueue;
use std::hash::RandomState;
use vstd::prelude::*;

verus! {

#[verifier::external_type_specification]
#[verifier::external_body]
#[verifier::reject_recursive_types(I)]
#[verifier::reject_recursive_types(P)]
#[verifier::reject_recursive_types(H)]
pub struct ExPriorityQueue<I, P, H>(PriorityQueue<I, P, H>);

/// What a queue holds: the priority of each item in it.
pub uninterp spec fn queue_entries(q: PriorityQueue<usize, u64, RandomState>) -> Map<usize, u64>;

/// Whether `(item, priority)` is an entry of `m` that no entry outranks.
pub open spec fn is_greatest(m: Map<usize, u64>, item: usize, priority: u64) -> bool {
    &&& m.contains_key(item)
    &&& m[item] == priority
    &&& forall|other: usize| #[trigger] m.contains_key(other) ==> m[other] <= priority
}

/// Calls `PriorityQueue::new`. The claim: the new queue holds nothing.
#[verifier::external_body]
pub(crate) fn queue_new() -> (q: PriorityQueue<usize, u64, RandomState>)
    ensures
        queue_entries(q) == (Map::<usize, u64>::empty()),
{
    PriorityQueue::new()
}

/// Calls `PriorityQueue::push`. The claim: the item then has the given
/// priority, whether or not it was in the queue, no other item changes, and
/// the result is the priority it had before, if any.
#[verifier::external_body]
pub(crate) fn queue_push(
    q: &mut PriorityQueue<usize, u64, RandomState>,
    item: usize,
    priority: u64,
) -> (before: Option<u64>)
    ensures
        queue_entries(*final(q)) == queue_entries(*old(q)).insert(item, priority),
        before is Some <==> queue_entries(*old(q)).contains_key(item),
        before matches Some(p) ==> p == queue_entries(*old(q))[item],
{
    q.push(item, priority)
}

/// Calls `PriorityQueue::peek`. The claim: the result is an entry with the
/// greatest priority, and `None` exactly when the queue is empty. Which of
/// several entries of that priority is shown is left open.
#[verifier::external_body]
pub(crate) fn queue_peek(q: &PriorityQueue<usize, u64, RandomState>) -> (top: Option<(usize, u64)>)
    ensures
        top is None <==> queue_entries(*q).dom() =~= Set::<usize>::empty(),
        top matches Some((item, priority)) ==> is_greatest(queue_entries(*q), item, priority),
{
    q.peek().map(|(item, priority)| (*item, *priority))
}

/// Calls `PriorityQueue::pop`. The claim: an entry with the greatest
/// priority leaves the queue and is returned, no other entry changes, and
/// the result is `None` exactly when the queue was empty. Which of several
/// entries of that priority leaves is left open.
#[verifier::external_body]
pub(crate) fn queue_pop(q: &mut PriorityQueue<usize, u64, RandomState>) -> (top: Option<(usize, u64)>)
    ensures
        top is None <==> queue_entries(*old(q)).dom() =~= Set::<usize>::empty(),
        top is None ==> queue_entries(*final(q)) == queue_entries(*old(q)),
        top matches Some((item, priority)) ==> {
            &&& is_greatest(queue_entries(*old(q)), item, priority)
            &&& queue_entries(*final(q)) == queue_entries(*old(q)).remove(item)
        },
{
    q.pop()
}

} // verus!
