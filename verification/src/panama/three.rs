//! The consumer that batches: when it has to take the lock, it carries off
//! the whole queue and serves the following calls from its own buffer,
//! without the lock.
use crate::panama::state::Inner;
use crate::panama::sync::Monitor;
use crate::panama::two::Sender;
use std::collections::VecDeque;
use std::sync::Arc;
use vstd::prelude::*;

verus! {

/// The consumer's end of the channel, with the items it has carried off.
#[verifier::reject_recursive_types(T)]
pub struct Receiver<T> {
    shared: Arc<Monitor<Inner<T>>>,
    stolen_buffer: VecDeque<T>,
}

impl<T> Receiver<T> {
    /// The channel that this handle drains.
    pub closed spec fn link(&self) -> Monitor<Inner<T>> {
        *self.shared
    }

    /// The items that were carried off and not handed out yet, oldest first.
    pub closed spec fn stolen(&self) -> Seq<T> {
        self.stolen_buffer@
    }

    /// The number of items that the next calls of `recv` hand out without
    /// taking the lock.
    pub fn buffered(&self) -> (n: usize)
        ensures
            n == self.stolen().len(),
    {
        self.stolen_buffer.len()
    }

    /// Takes the oldest item.
    ///
    /// While the private buffer holds an item, the oldest one is handed out
    /// and the lock is not touched. With the buffer empty, the call takes
    /// the lock, sleeps until there is an item or the channel is closed,
    /// takes the oldest item and carries off all that is queued behind it.
    /// Returns `None` once everything is handed out and no producer is left;
    /// the buffer is empty then.
    pub fn recv(&mut self) -> (item: Option<T>)
        ensures
            final(self).link() == old(self).link(),
            old(self).stolen().len() > 0 ==> item == Some(old(self).stolen()[0]),
            old(self).stolen().len() > 0 ==> final(self).stolen() == old(self).stolen().drop_first(),
            item is None ==> final(self).stolen().len() == 0,
    {
        if self.stolen_buffer.len() > 0 {
            let item = self.stolen_buffer.pop_front();
            proof {
                assert(self.stolen_buffer@ =~= old(self).stolen_buffer@.drop_first());
            }
            return item;
        }
        let blocked = |inner: &Inner<T>| -> (wait: bool)
            ensures
                wait == inner@.blocked(),
            {
                inner.blocked()
            };
        let take_all = |inner: &mut Inner<T>| -> (got: (Option<T>, VecDeque<T>))
            ensures
                got.0 == old(inner)@.front(),
                got.1@ == old(inner)@.after_recv().queue,
                final(inner)@ == old(inner)@.drained(),
            {
                inner.take_batch()
            };
        let got = self.shared.when(blocked, take_all);
        self.keep(got)
    }

    /// Makes the batch that was carried off the private buffer and hands out
    /// the item that came with it.
    fn keep(&mut self, got: (Option<T>, VecDeque<T>)) -> (item: Option<T>)
        ensures
            item == got.0,
            final(self).stolen() == got.1@,
            final(self).link() == old(self).link(),
    {
        let (item, rest) = got;
        self.stolen_buffer = rest;
        item
    }
}

/// A new channel: its one producer handle and its batching consumer handle,
/// which has carried off nothing yet.
pub fn channel<T>() -> (ends: (Sender<T>, Receiver<T>))
    ensures
        ends.0.link() == ends.1.link(),
        ends.1.stolen().len() == 0,
{
    let shared = Arc::new(Monitor::new(Inner::new()));
    (Sender::attach(Arc::clone(&shared)), Receiver { shared, stolen_buffer: VecDeque::new() })
}

} // verus!
