//! The channel that cannot close: a queue behind a lock, and a consumer that
//! sleeps while the queue is empty.
use crate::panama::state::Inner;
use crate::panama::sync::guarded;
use crate::panama::sync::Monitor;
use std::sync::Arc;
use vstd::prelude::*;

verus! {

/// The producer's end of the channel.
#[verifier::reject_recursive_types(T)]
pub struct Sender<T> {
    inner: Arc<Monitor<Inner<T>>>,
}

/// The consumer's end of the channel.
#[verifier::reject_recursive_types(T)]
pub struct Receiver<T> {
    inner: Arc<Monitor<Inner<T>>>,
}

impl<T> Sender<T> {
    /// The channel that this handle feeds.
    pub closed spec fn link(&self) -> Monitor<Inner<T>> {
        *self.inner
    }

    /// Appends `t` to the queue and wakes the consumer if it sleeps. Never
    /// fails and never waits for the consumer.
    pub fn send(&mut self, t: T)
        ensures
            final(self).link() == old(self).link(),
    {
        {
            let mut guard = self.inner.lock();
            guarded(&mut guard).push(t);
        }
        self.inner.notify();
    }
}

impl<T> Clone for Sender<T> {
    /// Another handle on the same channel. The item type need not be
    /// clonable: only the handle is duplicated.
    fn clone(&self) -> (other: Self)
        ensures
            other.link() == self.link(),
    {
        Sender { inner: Arc::clone(&self.inner) }
    }
}

impl<T> Receiver<T> {
    /// The channel that this handle drains.
    pub closed spec fn link(&self) -> Monitor<Inner<T>> {
        *self.inner
    }

    /// Takes the oldest item, sleeping for as long as the queue is empty.
    /// With no producer left to send, the call sleeps for ever.
    pub fn recv(&mut self) -> (item: T)
        ensures
            final(self).link() == old(self).link(),
    {
        let empty = |queue: &Inner<T>| -> (wait: bool)
            ensures
                wait == (queue@.queue.len() == 0),
            {
                queue.is_empty()
            };
        let take = |queue: &mut Inner<T>| -> (item: Option<T>)
            ensures
                item == old(queue)@.front(),
            {
                queue.take()
            };
        let item = self.inner.when(empty, take);
        item.unwrap()
    }
}

/// A new channel: its producer handle and its consumer handle.
pub fn channel<T>() -> (ends: (Sender<T>, Receiver<T>))
    ensures
        ends.0.link() == ends.1.link(),
{
    let inner = Arc::new(Monitor::new(Inner::new()));
    (Sender { inner: Arc::clone(&inner) }, Receiver { inner })
}

} // verus!
