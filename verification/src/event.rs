//! The notification objects that the deadline table hands out and signals.

use crate::slots::slab_entries;
use event_listener::{Event, EventListener};
use futures_intrusive::sync::ManualResetEvent;
use slab::Slab;
use std::sync::Arc;
use vstd::prelude::*;

verus! {

/// A one-shot, broadcastable signal shared by every subscriber of one epoch.
///
/// The signal is a `futures_intrusive::sync::ManualResetEvent` behind an
/// `Arc`. That type is bounded by a trait of its lock, which the verifier
/// cannot take in a declaration, so the whole struct is opaque to it. In
/// contracts two values are equal when they are handles to the same signal:
/// [`DeadlineEvent::share`] gives an equal value, and a new event differs
/// from every event that is held at that time. Whether the signal is set is
/// not visible to contracts; a signal that was set is handed on as a
/// [`Fired`].
#[verifier::external_body]
pub struct DeadlineEvent {
    pub signal: Arc<ManualResetEvent>,
}

/// The record that a signal has been set. Only [`DeadlineEvent::fire`]
/// makes one, so whoever holds a `Fired` knows that its event was set.
pub struct Fired {
    event: DeadlineEvent,
}

impl View for Fired {
    type V = DeadlineEvent;

    /// The event that was set.
    closed spec fn view(&self) -> DeadlineEvent {
        self.event
    }
}

impl Fired {
    /// The event that was set.
    pub fn event(&self) -> (e: &DeadlineEvent)
        ensures
            *e == self@,
    {
        &self.event
    }
}

impl DeadlineEvent {
    /// Calls `ManualResetEvent::new(false)` and `Arc::new`: a fresh signal
    /// that is not set. The claim: the new signal is none of those that
    /// `held` keeps alive.
    #[verifier::external_body]
    pub(crate) fn unset(held: &Slab<DeadlineEvent>) -> (e: DeadlineEvent)
        ensures
            forall|key: usize| #[trigger]
                slab_entries(*held).contains_key(key) ==> slab_entries(*held)[key] != e,
    {
        DeadlineEvent { signal: Arc::new(ManualResetEvent::new(false)) }
    }

    /// Calls `Arc::clone` on the signal. The claim: the result is a handle to
    /// the same signal as `self`.
    #[verifier::external_body]
    pub(crate) fn share(&self) -> (e: DeadlineEvent)
        ensures
            e == *self,
    {
        DeadlineEvent { signal: Arc::clone(&self.signal) }
    }

    /// Calls `ManualResetEvent::set`, which wakes every waiter, now and
    /// later. The effect is on shared state that contracts do not see. The
    /// claim: the record that comes back is of this event.
    #[verifier::external_body]
    pub(crate) fn fire(self) -> (done: Fired)
        ensures
            done@ == self,
    {
        self.signal.set();
        Fired { event: self }
    }
}

#[verifier::external_type_specification]
#[verifier::external_body]
#[verifier::reject_recursive_types(T)]
pub struct ExEvent<T>(Event<T>);

#[verifier::external_type_specification]
#[verifier::external_body]
#[verifier::reject_recursive_types(T)]
pub struct ExEventListener<T>(EventListener<T>);

/// Calls `Event::new`: a channel with no listener yet.
#[verifier::external_body]
pub(crate) fn channel_new() -> (c: Event<()>) {
    Event::new()
}

/// Calls `Event::notify` with the count 1. It returns how many listeners
/// were woken, which depends on who listens at that moment.
#[verifier::external_body]
pub(crate) fn channel_notify_one(c: &Event<()>) -> (woken: usize) {
    c.notify(1usize)
}

/// The channel that a listener is registered on.
pub uninterp spec fn listener_channel(l: EventListener<()>) -> Event<()>;

/// Calls `Event::listen`: a listener that resolves at the next notification.
/// The claim: the listener is registered on the channel `c`.
#[verifier::external_body]
pub(crate) fn channel_listen(c: &Event<()>) -> (l: EventListener<()>)
    ensures
        listener_channel(l) == *c,
{
    c.listen()
}

} // verus!
