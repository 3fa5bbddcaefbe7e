//! The channel that closes: its producers are counted, and the consumer
//! learns when the last of them is gone.
use crate::panama::state::Inner;
use crate::panama::sync::guarded;
use crate::panama::sync::Monitor;
use std::sync::Arc;
use vstd::prelude::*;

verus! {

/// A producer's end of the channel. It can be duplicated; the channel closes
/// when the last duplicate is dropped.
#[verifier::reject_recursive_types(T)]
pub struct Sender<T> {
    shared: Arc<Monitor<Inner<T>>>,
}

/// The consumer's end of the channel. There is one, and it cannot be
/// duplicated.
#[verifier::reject_recursive_types(T)]
pub struct Receiver<T> {
    shared: Arc<Monitor<Inner<T>>>,
}

impl<T> Sender<T> {
    /// The channel that this handle feeds.
    pub closed spec fn link(&self) -> Monitor<Inner<T>> {
        *self.shared
    }

    /// A handle that feeds `shared`. Whoever makes one sees to it that the
    /// state behind `shared` counts it.
    pub(crate) fn attach(shared: Arc<Monitor<Inner<T>>>) -> (s: Self)
        ensures
            s.link() == *shared,
    {
        Sender { shared }
    }

    /// Appends `t` to the queue and wakes the consumer if it sleeps. Never
    /// fails and never waits for the consumer.
    pub fn send(&mut self, t: T)
        ensures
            final(self).link() == old(self).link(),
    {
        {
            let mut guard = self.shared.lock();
            guarded(&mut guard).push(t);
        }
        self.shared.notify();
    }
}

impl<T> Clone for Sender<T> {
    /// Another handle on the same channel, counted among its producers.
    fn clone(&self) -> (other: Self)
        ensures
            other.link() == self.link(),
    {
        {
            let mut guard = self.shared.lock();
            guarded(&mut guard).add_sender();
        }
        Sender { shared: Arc::clone(&self.shared) }
    }
}

impl<T> Drop for Sender<T> {
    /// Counts this producer out and, if it was the last, wakes the consumer
    /// so that it can see the channel closed. The consumer is woken after
    /// the lock is released, so that it does not wake up only to wait for the
    /// lock.
    fn drop(&mut self)
        ensures
            final(self).link() == old(self).link(),
        opens_invariants none
        no_unwind
    {
        let was_last = {
            let mut guard = self.shared.lock();
            guarded(&mut guard).remove_sender()
        };
        if was_last {
            self.shared.notify();
        }
    }
}

impl<T> Receiver<T> {
    /// The channel that this handle drains.
    pub closed spec fn link(&self) -> Monitor<Inner<T>> {
        *self.shared
    }

    /// Takes the oldest item, sleeping until there is one or the channel is
    /// closed. Returns `None` once the queue is empty and no producer is
    /// left.
    pub fn recv(&mut self) -> (item: Option<T>)
        ensures
            final(self).link() == old(self).link(),
    {
        let blocked = |inner: &Inner<T>| -> (wait: bool)
            ensures
                wait == inner@.blocked(),
            {
                inner.blocked()
            };
        let take = |inner: &mut Inner<T>| -> (item: Option<T>)
            ensures
                item == old(inner)@.front(),
                final(inner)@ == old(inner)@.after_recv(),
            {
                inner.take()
            };
        self.shared.when(blocked, take)
    }
}

/// A new channel: its one producer handle and its consumer handle.
pub fn channel<T>() -> (ends: (Sender<T>, Receiver<T>))
    ensures
        ends.0.link() == ends.1.link(),
{
    let shared = Arc::new(Monitor::new(Inner::new()));
    (Sender { shared: Arc::clone(&shared) }, Receiver { shared })
}

} // verus!
