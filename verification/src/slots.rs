//! The slab that owns the pending events, as contracts see it.

use crate::event::DeadlineEvent;
use slab::Slab;
use vstd::prelude::*;

verus! {

#[verifier::external_type_specification]
#[verifier::external_body]
#[verifier::reject_recursive_types(T)]
pub struct ExSlab<T>(Slab<T>);

/// What a slab holds: the value stored under each occupied key.
pub uninterp spec fn slab_entries(s: Slab<DeadlineEvent>) -> Map<usize, DeadlineEvent>;

/// Calls `Slab::new`. The claim: the new slab holds nothing.
#[verifier::external_body]
pub(crate) fn slab_new() -> (s: Slab<DeadlineEvent>)
    ensures
        slab_entries(s) == (Map::<usize, DeadlineEvent>::empty()),
{
    Slab::new()
}

/// Calls `Slab::insert`. The claim: the value is stored under the returned
/// key, that key was vacant before, and no other key changes. Which vacant
/// key is taken is left open.
#[verifier::external_body]
pub(crate) fn slab_insert(s: &mut Slab<DeadlineEvent>, e: DeadlineEvent) -> (key: usize)
    ensures
        !slab_entries(*old(s)).contains_key(key),
        slab_entries(*final(s)) == slab_entries(*old(s)).insert(key, e),
{
    s.insert(e)
}

/// Calls `Slab::get`. The claim: the result is the value under `key`, and
/// `None` exactly when the key is vacant.
#[verifier::external_body]
pub(crate) fn slab_get(s: &Slab<DeadlineEvent>, key: usize) -> (r: Option<&DeadlineEvent>)
    ensures
        r is Some <==> slab_entries(*s).contains_key(key),
        r matches Some(e) ==> *e == slab_entries(*s)[key],
{
    s.get(key)
}

/// Calls `Slab::remove`, which panics on a vacant key: the key must be
/// occupied. The claim: the value under `key` is returned and its key is
/// vacated, and no other key changes.
#[verifier::external_body]
pub(crate) fn slab_remove(s: &mut Slab<DeadlineEvent>, key: usize) -> (e: DeadlineEvent)
    requires
        slab_entries(*old(s)).contains_key(key),
    ensures
        e == slab_entries(*old(s))[key],
        slab_entries(*final(s)) == slab_entries(*old(s)).remove(key),
{
    s.remove(key)
}

} // verus!
