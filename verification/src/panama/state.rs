//! What the lock of a channel protects, and every change that is made to it.
use crate::panama::model::Channel;
use std::collections::VecDeque;
use vstd::prelude::*;

verus! {

/// The queue of a channel and the count of its producers.
pub struct Inner<T> {
    queue: VecDeque<T>,
    senders: usize,
}

impl<T> View for Inner<T> {
    type V = Channel<T>;

    closed spec fn view(&self) -> Channel<T> {
        Channel { queue: self.queue@, senders: self.senders as nat }
    }
}

impl<T> Inner<T> {
    /// The state of a channel that was just constructed: nothing queued, one
    /// producer.
    pub fn new() -> (state: Self)
        ensures
            state@ == Channel::<T>::fresh(),
    {
        Inner { queue: VecDeque::new(), senders: 1 }
    }

    /// Appends `t` to the queue.
    pub fn push(&mut self, t: T)
        ensures
            final(self)@ == old(self)@.after_send(t),
    {
        self.queue.push_back(t);
    }

    /// Counts one more producer. The count stops at the largest number it can
    /// hold.
    pub fn add_sender(&mut self)
        ensures
            old(self)@.senders < usize::MAX ==> final(self)@ == old(self)@.after_clone(),
            old(self)@.senders >= usize::MAX ==> final(self)@ == old(self)@,
    {
        if self.senders < usize::MAX {
            self.senders = self.senders + 1;
        }
    }

    /// Counts one producer less and says whether it was the last one.
    pub fn remove_sender(&mut self) -> (was_last: bool)
        ensures
            final(self)@ == old(self)@.after_drop(),
            was_last == final(self)@.closed(),
        opens_invariants none
        no_unwind
    {
        if self.senders > 0 {
            self.senders = self.senders - 1;
        }
        self.senders == 0
    }

    /// Whether the queue is empty.
    pub fn is_empty(&self) -> (empty: bool)
        ensures
            empty == (self@.queue.len() == 0),
    {
        self.queue.len() == 0
    }

    /// Whether a consumer has to wait: the queue is empty and a producer is
    /// left.
    pub fn blocked(&self) -> (wait: bool)
        ensures
            wait == self@.blocked(),
    {
        self.queue.len() == 0 && self.senders != 0
    }

    /// Takes the oldest item, if there is one.
    pub fn take(&mut self) -> (item: Option<T>)
        ensures
            item == old(self)@.front(),
            final(self)@ == old(self)@.after_recv(),
    {
        let item = self.queue.pop_front();
        proof {
            if old(self).queue@.len() > 0 {
                assert(self.queue@ =~= old(self).queue@.drop_first());
            } else {
                assert(self.queue@ =~= old(self).queue@);
            }
        }
        item
    }

    /// Takes the oldest item, if there is one, and carries off whatever is
    /// queued behind it, so that the queue is left empty.
    pub fn take_batch(&mut self) -> (got: (Option<T>, VecDeque<T>))
        ensures
            got.0 == old(self)@.front(),
            got.1@ == old(self)@.after_recv().queue,
            final(self)@ == old(self)@.drained(),
    {
        let item = self.take();
        let mut rest = VecDeque::new();
        if self.queue.len() > 0 {
            std::mem::swap(&mut rest, &mut self.queue);
        }
        proof {
            assert(self.queue@ =~= Seq::<T>::empty());
            assert(rest@ =~= old(self)@.after_recv().queue);
        }
        (item, rest)
    }
}

} // verus!
