//! The channel as mathematics: what the lock protects, what each operation
//! does to it, and the laws that hold of every sequence of operations.
use vstd::prelude::*;

verus! {

/// What the lock of a channel protects.
pub struct Channel<T> {
    /// The items that were sent and not yet taken, oldest first.
    pub queue: Seq<T>,
    /// The number of live producer handles.
    pub senders: nat,
}

impl<T> Channel<T> {
    /// A channel with nothing in it and one producer.
    pub open spec fn fresh() -> Self {
        Channel { queue: Seq::empty(), senders: 1 }
    }

    /// The channel after `t` was sent.
    pub open spec fn after_send(self, t: T) -> Self {
        Channel { queue: self.queue.push(t), ..self }
    }

    /// The channel after a producer handle was duplicated.
    pub open spec fn after_clone(self) -> Self {
        Channel { senders: self.senders + 1, ..self }
    }

    /// The channel after a producer handle was dropped.
    pub open spec fn after_drop(self) -> Self {
        Channel {
            senders: if self.senders > 0 {
                (self.senders - 1) as nat
            } else {
                0
            },
            ..self
        }
    }

    /// Whether no producer is left.
    pub open spec fn closed(self) -> bool {
        self.senders == 0
    }

    /// Whether a consumer that looks at the channel has to wait: there is
    /// nothing to take, and a producer may still send.
    pub open spec fn blocked(self) -> bool {
        self.queue.len() == 0 && !self.closed()
    }

    /// The oldest item, if there is one.
    pub open spec fn front(self) -> Option<T> {
        if self.queue.len() > 0 {
            Some(self.queue[0])
        } else {
            None
        }
    }

    /// The channel after its oldest item, if there was one, was taken.
    pub open spec fn after_recv(self) -> Self {
        if self.queue.len() > 0 {
            Channel { queue: self.queue.drop_first(), ..self }
        } else {
            self
        }
    }

    /// The channel after the consumer carried off everything in it.
    pub open spec fn drained(self) -> Self {
        Channel { queue: Seq::empty(), ..self }
    }
}

/// One operation on a channel.
pub enum Op<T> {
    /// A producer sends an item.
    Send(T),
    /// A producer handle is duplicated.
    Clone,
    /// A producer handle is dropped.
    Drop,
    /// The consumer receives.
    Recv,
}

/// A channel together with its consumer and a record of what went through.
pub struct System<T> {
    /// What the lock protects.
    pub chan: Channel<T>,
    /// What the consumer carried off and has not handed out yet.
    pub stolen: Seq<T>,
    /// Every item that was sent, in the order of sending.
    pub sent: Seq<T>,
    /// Every item that `recv` returned, in the order of returning.
    pub received: Seq<T>,
    /// Whether `recv` has returned `None`.
    pub ended: bool,
}

impl<T> System<T> {
    /// The system of a channel that was just constructed.
    pub open spec fn fresh() -> Self {
        System {
            chan: Channel::fresh(),
            stolen: Seq::empty(),
            sent: Seq::empty(),
            received: Seq::empty(),
            ended: false,
        }
    }

    /// The items on their way, oldest first: what the consumer carried off,
    /// then what is still in the shared queue.
    pub open spec fn in_flight(self) -> Seq<T> {
        self.stolen + self.chan.queue
    }

    /// Whether `op` can complete now. A producer's operation needs a live
    /// producer handle; `recv` completes unless it has to wait.
    pub open spec fn enabled(self, op: Op<T>) -> bool {
        match op {
            Op::Recv => self.stolen.len() > 0 || !self.chan.blocked(),
            _ => !self.chan.closed(),
        }
    }

    /// What `recv` returns now, given that it can complete.
    pub open spec fn next_item(self) -> Option<T> {
        if self.stolen.len() > 0 {
            Some(self.stolen[0])
        } else {
            self.chan.front()
        }
    }

    /// The system after `recv` completed. With `batching` the consumer
    /// carries off what is left in the shared queue whenever it had to take
    /// the lock.
    pub open spec fn after_recv(self, batching: bool) -> Self {
        let handed = match self.next_item() {
            Some(t) => System { received: self.received.push(t), ..self },
            None => System { ended: true, ..self },
        };
        if self.stolen.len() > 0 {
            System { stolen: self.stolen.drop_first(), ..handed }
        } else if batching {
            System { stolen: self.chan.after_recv().queue, chan: self.chan.drained(), ..handed }
        } else {
            System { chan: self.chan.after_recv(), ..handed }
        }
    }

    /// The system after `op`, which changes nothing where it cannot complete.
    pub open spec fn after(self, batching: bool, op: Op<T>) -> Self {
        if !self.enabled(op) {
            self
        } else {
            match op {
                Op::Send(t) => System {
                    chan: self.chan.after_send(t),
                    sent: self.sent.push(t),
                    ..self
                },
                Op::Clone => System { chan: self.chan.after_clone(), ..self },
                Op::Drop => System { chan: self.chan.after_drop(), ..self },
                Op::Recv => self.after_recv(batching),
            }
        }
    }

    /// The system after a sequence of operations on a fresh channel.
    pub open spec fn run(batching: bool, ops: Seq<Op<T>>) -> Self
        decreases ops.len(),
    {
        if ops.len() == 0 {
            Self::fresh()
        } else {
            Self::run(batching, ops.drop_last()).after(batching, ops.last())
        }
    }

    /// The same system with the consumer's private buffer put back at the
    /// head of the shared queue.
    pub open spec fn flat(self) -> Self {
        System {
            chan: Channel { queue: self.in_flight(), ..self.chan },
            stolen: Seq::empty(),
            ..self
        }
    }
}

proof fn lemma_after_keeps_order<T>(s: System<T>, batching: bool, op: Op<T>)
    requires
        s.received + s.in_flight() == s.sent,
        s.ended ==> s.in_flight().len() == 0 && s.chan.closed(),
    ensures
        ({
            let n = s.after(batching, op);
            &&& n.received + n.in_flight() == n.sent
            &&& n.ended ==> n.in_flight().len() == 0 && n.chan.closed()
        }),
{
    let n = s.after(batching, op);
    if s.enabled(op) {
        match op {
            Op::Send(t) => {
                assert(n.received + n.in_flight() =~= (s.received + s.in_flight()).push(t));
            },
            Op::Recv => {
                if s.stolen.len() > 0 {
                    assert(n.received + n.in_flight() =~= s.received + s.in_flight());
                } else if s.chan.queue.len() > 0 {
                    assert(n.in_flight() =~= s.chan.queue.drop_first());
                    assert(s.in_flight() =~= s.chan.queue);
                    assert(n.received + n.in_flight() =~= s.received + s.in_flight());
                } else {
                    assert(n.in_flight() =~= s.in_flight());
                }
            },
            _ => {},
        }
    }
}

/// First in, first out. After any sequence of operations, with or without
/// batching, the items received so far followed by the items still on their
/// way are exactly the items sent, in the order of sending: nothing is lost,
/// doubled or overtaken. Once `recv` has returned `None`, nothing is on its
/// way and no producer is left.
pub proof fn law_fifo<T>(batching: bool, ops: Seq<Op<T>>)
    ensures
        ({
            let s = System::run(batching, ops);
            &&& s.received + s.in_flight() == s.sent
            &&& s.received.is_prefix_of(s.sent)
            &&& s.in_flight().len() == 0 ==> s.received == s.sent
            &&& s.ended ==> s.in_flight().len() == 0 && s.chan.closed()
        }),
    decreases ops.len(),
{
    let s = System::run(batching, ops);
    if ops.len() == 0 {
        assert(s.received + s.in_flight() =~= s.sent);
    } else {
        law_fifo(batching, ops.drop_last());
        lemma_after_keeps_order(System::run(batching, ops.drop_last()), batching, ops.last());
    }
    assert(s.received =~= s.sent.subrange(0, s.received.len() as int));
    if s.in_flight().len() == 0 {
        assert(s.received =~= s.received + s.in_flight());
    }
}

/// Close detection. A `recv` that can complete returns `None` if and only if
/// nothing is on its way and no producer is left; while an item is on its way
/// or a producer lives, it never returns `None`.
pub proof fn law_close_detection<T>(s: System<T>)
    requires
        s.enabled(Op::Recv),
    ensures
        s.next_item() is None <==> s.in_flight().len() == 0 && s.chan.closed(),
{
}

/// Closing is final. Once the last producer handle is gone, no operation
/// brings a producer back or puts another item on its way.
pub proof fn law_closed_is_final<T>(s: System<T>, batching: bool, op: Op<T>)
    requires
        s.chan.closed(),
    ensures
        s.after(batching, op).chan.closed(),
        s.after(batching, op).sent == s.sent,
{
}

/// Batching changes nothing that can be observed. Whatever the consumer has
/// carried off, each operation on the batching channel does what the same
/// operation does on the plain channel that holds the same items in its
/// shared queue: the same call completes, returns the same item and leaves
/// the same items on their way.
pub proof fn law_batching_is_unobservable<T>(s: System<T>, op: Op<T>)
    ensures
        s.enabled(op) == s.flat().enabled(op),
        s.next_item() == s.flat().next_item(),
        s.after(true, op).flat() == s.flat().after(false, op),
{
    let b = s.after(true, op).flat();
    let p = s.flat().after(false, op);
    assert(s.flat().in_flight() =~= s.in_flight());
    if s.enabled(op) {
        match op {
            Op::Send(t) => {
                assert(b.chan.queue =~= p.chan.queue);
            },
            Op::Recv => {
                if s.stolen.len() > 0 {
                    assert(b.chan.queue =~= p.chan.queue);
                } else {
                    assert(s.in_flight() =~= s.chan.queue);
                    assert(b.chan.queue =~= p.chan.queue);
                }
            },
            _ => {
                assert(b.chan.queue =~= p.chan.queue);
            },
        }
    } else {
        assert(b.chan.queue =~= p.chan.queue);
    }
}

/// Batching correctness. After the same operations, the batching channel and
/// the plain channel have received the same items in the same order, have
/// the same items on their way, and agree on whether the channel has ended.
pub proof fn law_batching_receives_the_same<T>(ops: Seq<Op<T>>)
    ensures
        System::<T>::run(true, ops).flat() == System::<T>::run(false, ops),
        System::<T>::run(true, ops).received == System::<T>::run(false, ops).received,
    decreases ops.len(),
{
    if ops.len() == 0 {
        assert(System::<T>::fresh().flat().chan.queue =~= System::<T>::fresh().chan.queue);
    } else {
        law_batching_receives_the_same(ops.drop_last());
        law_batching_is_unobservable(System::<T>::run(true, ops.drop_last()), ops.last());
    }
}

} // verus!
