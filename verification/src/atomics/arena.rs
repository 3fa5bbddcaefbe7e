//! The model of `model`, made to run: threads that take their turns in the
//! order a caller chooses, so that an interleaving can be played out step by
//! step and looked at.
use crate::atomics::model::last_write;
use crate::atomics::model::published_by_release;
use crate::atomics::model::read_at;
use crate::atomics::model::seen;
use crate::atomics::model::view_after_claim;
use crate::atomics::model::step;
use crate::atomics::model::start;
use crate::atomics::model::Move;
use crate::atomics::model::Thread;
use crate::atomics::model::Work;
use crate::atomics::model::World;
use crate::atomics::protocol::Claim;
use crate::atomics::protocol::ClaimOrder;
use crate::atomics::protocol::Discipline;
use crate::atomics::protocol::Phase;
use crate::atomics::protocol::ReleaseOrder;
use crate::atomics::protocol::LOCKED;
use crate::atomics::protocol::UNLOCKED;
use vstd::prelude::*;

verus! {

/// How far a thread has come inside its critical section.
#[derive(Clone, Copy, PartialEq, Eq, Structural, Debug)]
pub enum Progress {
    /// It has not touched the counter yet.
    Fresh,
    /// It has read the counter and holds the value it saw.
    Loaded(u64),
    /// It has written the counter and has yet to give the flag back.
    Stored,
}

/// One thread in the arena.
#[derive(Clone, Copy, PartialEq, Eq, Structural, Debug)]
pub struct Lane {
    /// Where it stands with the flag.
    pub phase: Phase,
    /// How far it has come inside the section it is in.
    pub progress: Progress,
    /// The sections it has yet to complete, the current one included.
    pub rounds: usize,
    /// The number of the last write of the counter that it is sure to see.
    pub view: usize,
}

impl Progress {
    /// The same progress in the model.
    pub open spec fn view(self) -> Work {
        match self {
            Progress::Fresh => Work::Fresh,
            Progress::Loaded(value) => Work::Loaded(value as int),
            Progress::Stored => Work::Stored,
        }
    }
}

impl Lane {
    /// The same thread in the model.
    pub open spec fn view(self) -> Thread {
        Thread {
            phase: self.phase,
            work: self.progress@,
            rounds: self.rounds as nat,
            view: self.view as nat,
        }
    }
}

/// A lock, the counter it guards and the threads that use it.
pub struct Arena {
    flag: bool,
    published: usize,
    counter: u64,
    written: Vec<u64>,
    lanes: Vec<Lane>,
}

impl View for Arena {
    type V = World;

    closed spec fn view(&self) -> World {
        World {
            flag: self.flag,
            published: self.published as nat,
            counter: self.counter as int,
            written: Seq::new(self.written@.len(), |i: int| self.written@[i] as int),
            threads: Seq::new(self.lanes@.len(), |i: int| self.lanes@[i]@),
        }
    }
}

impl Arena {
    /// The arena in which `threads` threads are about to run `rounds`
    /// sections each on a free lock with the counter at zero.
    pub fn new(d: Discipline, threads: usize, rounds: usize) -> (arena: Self)
        ensures
            arena@ == start(d, threads as nat, rounds as nat),
    {
        let mut lanes: Vec<Lane> = Vec::new();
        let mut made: usize = 0;
        while made < threads
            invariant
                made <= threads,
                lanes@.len() == made,
                forall|i: int|
                    0 <= i < made ==> lanes@[i] == (Lane {
                        phase: d.entry,
                        progress: Progress::Fresh,
                        rounds,
                        view: 0,
                    }),
            decreases threads - made,
        {
            lanes.push(Lane { phase: d.entry, progress: Progress::Fresh, rounds, view: 0 });
            made = made + 1;
        }
        let mut written: Vec<u64> = Vec::new();
        written.push(0);
        let arena = Arena { flag: UNLOCKED, published: 0, counter: 0, written, lanes };
        proof {
            assert(arena@.threads =~= start(d, threads as nat, rounds as nat).threads);
            assert(arena@.written =~= start(d, threads as nat, rounds as nat).written);
        }
        arena
    }

    /// Whether thread `thread` cannot take its turn because the counter
    /// would not fit: it is about to write one more than the largest number.
    pub open spec fn stuck(world: World, thread: int) -> bool {
        &&& 0 <= thread < world.threads.len()
        &&& world.threads[thread].rounds > 0
        &&& world.threads[thread].phase == Phase::Holding
        &&& world.threads[thread].work == Work::Loaded(u64::MAX as int)
    }

    /// Lets thread `thread` take one turn, as `step` says, and reports
    /// whether it did. `lucky` says whether a compare-and-set on a free flag
    /// goes through, `stale` how many writes a read of the counter lags
    /// behind the last one, as far as the view of the thread lets it. The
    /// turn is not taken where the counter would not fit.
    pub fn advance(&mut self, d: Discipline, thread: usize, lucky: bool, stale: usize) -> (moved:
        bool)
        ensures
            moved == !Self::stuck(old(self)@, thread as int),
            moved ==> final(self)@ == step(
                d,
                old(self)@,
                Move { thread: thread as int, lucky, stale: stale as nat },
            ),
            !moved ==> final(self)@ == old(self)@,
    {
        let ghost before = self@;
        let ghost m = Move { thread: thread as int, lucky, stale: stale as nat };
        if thread >= self.lanes.len() {
            return true;
        }
        let lane = self.lanes[thread];
        if lane.rounds == 0 {
            return true;
        }
        assert(before.threads[thread as int] == lane@);
        let mut next = lane;
        match lane.phase {
            Phase::Watching => {
                next.phase = d.after_watch(self.flag);
            },
            Phase::Claiming => {
                let taken = match d.claim {
                    Claim::BlindStore => true,
                    Claim::CompareExchange => self.flag == UNLOCKED && lucky,
                };
                if taken {
                    self.flag = LOCKED;
                    match d.claim {
                        Claim::BlindStore => {
                            self.published = 0;
                        },
                        Claim::CompareExchange => {
                            if d.on_claim == ClaimOrder::Acquire && self.published > lane.view {
                                next.view = self.published;
                            }
                        },
                    }
                    assert(next.view == view_after_claim(d, before, lane.view as nat));
                }
                next.phase = d.after_claim(taken);
            },
            Phase::Holding => match lane.progress {
                Progress::Fresh => {
                    let last = if self.written.len() >= 1 {
                        self.written.len() - 1
                    } else {
                        0
                    };
                    let at = if stale <= last && lane.view <= last - stale {
                        last - stale
                    } else if lane.view <= last {
                        lane.view
                    } else {
                        last
                    };
                    let value = if at < last {
                        self.written[at]
                    } else {
                        self.counter
                    };
                    assert(last == last_write(before));
                    assert(at == read_at(before, lane@, m));
                    assert(value == seen(before, lane@, m));
                    next.progress = Progress::Loaded(value);
                    next.view = at;
                },
                Progress::Loaded(loaded) => {
                    if loaded == u64::MAX {
                        return false;
                    }
                    self.counter = loaded + 1;
                    next.view = self.written.len();
                    self.written.push(loaded + 1);
                    next.progress = Progress::Stored;
                },
                Progress::Stored => {
                    self.flag = UNLOCKED;
                    self.published = if d.on_release == ReleaseOrder::Release {
                        lane.view
                    } else {
                        0
                    };
                    assert(self.published == published_by_release(d, lane.view as nat));
                    next = Lane {
                        phase: d.entry,
                        progress: Progress::Fresh,
                        rounds: lane.rounds - 1,
                        view: lane.view,
                    };
                },
            },
        }
        self.lanes[thread] = next;
        proof {
            assert(self@.threads =~= before.threads.update(thread as int, next@));
            assert(self@.written =~= step(d, before, m).written);
            assert(self@ == step(d, before, m));
        }
        true
    }

    /// The counter.
    pub fn counter(&self) -> (n: u64)
        ensures
            n == self@.counter,
    {
        self.counter
    }

    /// Whether the flag is set.
    pub fn is_locked(&self) -> (locked: bool)
        ensures
            locked == (self@.flag == LOCKED),
    {
        self.flag == LOCKED
    }

    /// Where thread `thread` stands, if there is such a thread.
    pub fn lane(&self, thread: usize) -> (lane: Option<Lane>)
        ensures
            lane is Some == (thread < self@.threads.len()),
            lane is Some ==> lane->Some_0@ == self@.threads[thread as int],
    {
        if thread < self.lanes.len() {
            Some(self.lanes[thread])
        } else {
            None
        }
    }

    /// The number of threads.
    pub fn threads(&self) -> (n: usize)
        ensures
            n == self@.threads.len(),
    {
        self.lanes.len()
    }
}

} // verus!
