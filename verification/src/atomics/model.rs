//! Many threads on one lock: every interleaving of their flag operations,
//! and the laws that hold of them.
//!
//! Each thread runs a number of critical sections. A section reads a shared
//! counter and writes back one more, in two steps, so that two threads inside
//! at once lose an increment. The threads move one operation at a time, in
//! any order, and decide as `protocol` says.
//!
//! Memory is weak. Every thread has a view: the last write of the counter
//! that it is sure to see. A read of the counter may return any write from
//! the thread's view on, so it may lag behind the last one. Views travel with
//! the flag and in no other way: a releasing store of the flag publishes the
//! view of the thread that stores, and an acquiring compare-and-set that
//! takes the flag takes that view over. A relaxed store publishes nothing and
//! a relaxed compare-and-set takes nothing over.
use crate::atomics::one;
use crate::atomics::protocol::phase_after_claim;
use crate::atomics::protocol::phase_after_watch;
use crate::atomics::protocol::Claim;
use crate::atomics::protocol::ClaimOrder;
use crate::atomics::protocol::Discipline;
use crate::atomics::protocol::Phase;
use crate::atomics::protocol::ReleaseOrder;
use crate::atomics::protocol::LOCKED;
use crate::atomics::protocol::UNLOCKED;
use crate::atomics::three;
use crate::atomics::two;
use vstd::prelude::*;

verus! {

/// How far a thread has come inside its critical section.
pub enum Work {
    /// It has not touched the counter yet.
    Fresh,
    /// It has read the counter and holds the value it saw.
    Loaded(int),
    /// It has written the counter and has yet to give the flag back.
    Stored,
}

/// One thread of the model.
pub struct Thread {
    /// Where it stands with the flag.
    pub phase: Phase,
    /// How far it has come inside the section it is in.
    pub work: Work,
    /// The sections it has yet to complete, the current one included.
    pub rounds: nat,
    /// The number of the last write of the counter that it is sure to see.
    pub view: nat,
}

/// The lock, the counter it guards and the threads that use it.
pub struct World {
    /// The flag of the lock.
    pub flag: bool,
    /// The view that the last store of the flag published.
    pub published: nat,
    /// The guarded counter: the value that was written last.
    pub counter: int,
    /// Every value the counter has had, oldest first.
    pub written: Seq<int>,
    /// The threads, by number.
    pub threads: Seq<Thread>,
}

/// One thread's turn.
pub struct Move {
    /// The number of the thread that moves.
    pub thread: int,
    /// Whether a compare-and-set on a free flag goes through this time: the
    /// weak form may fail for no reason.
    pub lucky: bool,
    /// How many writes a read of the counter lags behind the last one, as
    /// far as the view of the thread lets it.
    pub stale: nat,
}

/// The world in which `threads` threads are about to run `rounds` sections
/// each on a free lock with the counter at zero.
pub open spec fn start(d: Discipline, threads: nat, rounds: nat) -> World {
    World {
        flag: UNLOCKED,
        published: 0,
        counter: 0,
        written: seq![0int],
        threads: Seq::new(
            threads,
            |i: int| Thread { phase: d.entry, work: Work::Fresh, rounds, view: 0 },
        ),
    }
}

/// The number of the last write of the counter.
pub open spec fn last_write(w: World) -> nat {
    if w.written.len() >= 1 {
        (w.written.len() - 1) as nat
    } else {
        0
    }
}

/// The number of the write that a read of the counter by `t` returns: the
/// write that lies `m.stale` writes behind the last one, but none before the
/// view of `t`.
pub open spec fn read_at(w: World, t: Thread, m: Move) -> nat {
    if t.view + m.stale <= last_write(w) {
        (last_write(w) - m.stale) as nat
    } else if t.view <= last_write(w) {
        t.view
    } else {
        last_write(w)
    }
}

/// The value that a read of the counter by `t` returns.
pub open spec fn seen(w: World, t: Thread, m: Move) -> int {
    if read_at(w, t, m) < last_write(w) {
        w.written[read_at(w, t, m) as int]
    } else {
        w.counter
    }
}

/// The view that a thread with the view `view` has once it has taken the
/// flag: with an acquiring compare-and-set, what the flag published is taken
/// over.
pub open spec fn view_after_claim(d: Discipline, w: World, view: nat) -> nat {
    if d.claim == Claim::CompareExchange && d.on_claim == ClaimOrder::Acquire && w.published
        > view {
        w.published
    } else {
        view
    }
}

/// What the store that gives the flag back publishes: the view of the thread
/// if the store releases, else nothing.
pub open spec fn published_by_release(d: Discipline, view: nat) -> nat {
    if d.on_release == ReleaseOrder::Release {
        view
    } else {
        0
    }
}

/// The world after one move. A thread that is done, or a number that names no
/// thread, changes nothing.
pub open spec fn step(d: Discipline, w: World, m: Move) -> World {
    if 0 <= m.thread < w.threads.len() && w.threads[m.thread].rounds > 0 {
        let t = w.threads[m.thread];
        match t.phase {
            Phase::Watching => World {
                threads: w.threads.update(
                    m.thread,
                    Thread { phase: phase_after_watch(w.flag), ..t },
                ),
                ..w
            },
            Phase::Claiming => {
                let taken = d.claim == Claim::BlindStore || (w.flag == UNLOCKED && m.lucky);
                World {
                    flag: if taken {
                        LOCKED
                    } else {
                        w.flag
                    },
                    published: if taken && d.claim == Claim::BlindStore {
                        0
                    } else {
                        w.published
                    },
                    threads: w.threads.update(
                        m.thread,
                        Thread {
                            phase: phase_after_claim(taken),
                            view: if taken {
                                view_after_claim(d, w, t.view)
                            } else {
                                t.view
                            },
                            ..t
                        },
                    ),
                    ..w
                }
            },
            Phase::Holding => match t.work {
                Work::Fresh => World {
                    threads: w.threads.update(
                        m.thread,
                        Thread { work: Work::Loaded(seen(w, t, m)), view: read_at(w, t, m), ..t },
                    ),
                    ..w
                },
                Work::Loaded(value) => World {
                    counter: value + 1,
                    written: w.written.push(value + 1),
                    threads: w.threads.update(
                        m.thread,
                        Thread { work: Work::Stored, view: w.written.len(), ..t },
                    ),
                    ..w
                },
                Work::Stored => World {
                    flag: UNLOCKED,
                    published: published_by_release(d, t.view),
                    threads: w.threads.update(
                        m.thread,
                        Thread {
                            phase: d.entry,
                            work: Work::Fresh,
                            rounds: (t.rounds - 1) as nat,
                            ..t
                        },
                    ),
                    ..w
                },
            },
        }
    } else {
        w
    }
}

/// The world after a sequence of moves, taken in order.
pub open spec fn run(d: Discipline, w: World, moves: Seq<Move>) -> World
    decreases moves.len(),
{
    if moves.len() == 0 {
        w
    } else {
        step(d, run(d, w, moves.drop_last()), moves.last())
    }
}

/// Whether thread `i` is inside its critical section.
pub open spec fn holding(w: World, i: int) -> bool {
    0 <= i < w.threads.len() && w.threads[i].phase == Phase::Holding
}

/// Whether every thread has completed all its sections.
pub open spec fn finished(w: World) -> bool {
    forall|i: int| 0 <= i < w.threads.len() ==> (#[trigger] w.threads[i]).rounds == 0
}

/// Whether the discipline publishes or no move asks a read of the counter
/// to lag.
pub open spec fn reads_are_current(d: Discipline, moves: Seq<Move>) -> bool {
    d.publishes() || forall|k: int| 0 <= k < moves.len() ==> (#[trigger] moves[k]).stale == 0
}

/// The increments a thread has yet to make.
pub open spec fn pending(t: Thread) -> int {
    if t.work == Work::Stored {
        t.rounds - 1
    } else {
        t.rounds as int
    }
}

/// The increments all the threads together have yet to make.
pub open spec fn owed(threads: Seq<Thread>) -> int
    decreases threads.len(),
{
    if threads.len() == 0 {
        0
    } else {
        owed(threads.drop_last()) + pending(threads.last())
    }
}

/// What holds of one thread in every world that an excluding lock can reach.
pub open spec fn thread_excluded(w: World, t: Thread) -> bool {
    if t.phase == Phase::Holding {
        t.rounds >= 1 && w.flag == LOCKED
    } else {
        t.work == Work::Fresh
    }
}

/// What holds of every world that an excluding lock can reach: at most one
/// thread is inside, and the flag is set while one is.
pub open spec fn excluding(w: World) -> bool {
    &&& forall|i: int| 0 <= i < w.threads.len() ==> thread_excluded(w, #[trigger] w.threads[i])
    &&& forall|i: int, j: int| holding(w, i) && holding(w, j) ==> i == j
}

/// What holds of the views in every world that an excluding lock which
/// publishes can reach: no view is ahead of the writes, a free flag has
/// published the last write, and the thread inside sees the last write.
pub open spec fn in_view(w: World) -> bool {
    &&& w.written.len() >= 1
    &&& w.published <= last_write(w)
    &&& w.flag == UNLOCKED ==> w.published == last_write(w)
    &&& forall|i: int|
        0 <= i < w.threads.len() ==> (#[trigger] w.threads[i]).view <= last_write(w)
    &&& forall|i: int| holding(w, i) ==> (#[trigger] w.threads[i]).view == last_write(w)
}

/// What holds besides of every world that an excluding lock can reach while
/// reads are current, when `total` increments were asked for: the thread
/// inside has seen the counter as it is, and no increment is lost.
pub open spec fn counting(w: World, total: int) -> bool {
    &&& forall|i: int|
        0 <= i < w.threads.len() && (#[trigger] w.threads[i]).work is Loaded
            ==> w.threads[i].work->Loaded_0 == w.counter
    &&& w.counter + owed(w.threads) == total
}

proof fn lemma_owed_update(threads: Seq<Thread>, i: int, t: Thread)
    requires
        0 <= i < threads.len(),
    ensures
        owed(threads.update(i, t)) == owed(threads) - pending(threads[i]) + pending(t),
    decreases threads.len(),
{
    let updated = threads.update(i, t);
    if i == threads.len() - 1 {
        assert(updated.drop_last() =~= threads.drop_last());
    } else {
        lemma_owed_update(threads.drop_last(), i, t);
        assert(updated.drop_last() =~= threads.drop_last().update(i, t));
    }
}

proof fn lemma_owed_at_start(d: Discipline, threads: nat, rounds: nat)
    ensures
        owed(start(d, threads, rounds).threads) == threads * rounds,
    decreases threads,
{
    let all = start(d, threads, rounds).threads;
    if threads == 0 {
        assert(threads * rounds == 0) by (nonlinear_arith)
            requires
                threads == 0,
        ;
    } else {
        let fewer = (threads - 1) as nat;
        lemma_owed_at_start(d, fewer, rounds);
        assert(all.drop_last() =~= start(d, fewer, rounds).threads);
        assert(threads * rounds == fewer * rounds + rounds) by (nonlinear_arith)
            requires
                fewer == threads - 1,
        ;
    }
}

proof fn lemma_owed_nothing(threads: Seq<Thread>)
    requires
        forall|i: int| 0 <= i < threads.len() ==> pending(#[trigger] threads[i]) == 0,
    ensures
        owed(threads) == 0,
    decreases threads.len(),
{
    if threads.len() > 0 {
        let fewer = threads.drop_last();
        assert forall|i: int| 0 <= i < fewer.len() implies pending(#[trigger] fewer[i]) == 0 by {
            assert(fewer[i] == threads[i]);
        }
        lemma_owed_nothing(fewer);
    }
}

proof fn lemma_step_keeps_exclusion(d: Discipline, w: World, m: Move)
    requires
        d.claims_atomically(),
        d.entry != Phase::Holding,
        excluding(w),
    ensures
        excluding(step(d, w, m)),
{
    let next = step(d, w, m);
    if 0 <= m.thread < w.threads.len() && w.threads[m.thread].rounds > 0 {
        let t = w.threads[m.thread];
        let moved = next.threads[m.thread];
        assert(next.threads == w.threads.update(m.thread, moved));
        assert(thread_excluded(w, t));
        assert forall|i: int, j: int| holding(next, i) && holding(next, j) implies i == j by {
            if i != j {
                let other = if i == m.thread {
                    j
                } else {
                    i
                };
                let mover = if i == m.thread {
                    i
                } else {
                    j
                };
                assert(next.threads[other] == w.threads[other]);
                assert(holding(w, other));
                assert(thread_excluded(w, w.threads[other]));
                if mover == m.thread {
                    if holding(w, m.thread) {
                        assert(other == m.thread);
                    }
                } else {
                    assert(next.threads[mover] == w.threads[mover]);
                    assert(holding(w, mover));
                }
            }
        }
        assert forall|i: int| 0 <= i < next.threads.len() implies thread_excluded(
            next,
            #[trigger] next.threads[i],
        ) by {
            if i != m.thread {
                assert(next.threads[i] == w.threads[i]);
                assert(thread_excluded(w, w.threads[i]));
                if holding(w, i) && holding(w, m.thread) {
                    assert(i == m.thread);
                }
            }
        }
    }
}

proof fn lemma_step_keeps_view(d: Discipline, w: World, m: Move)
    requires
        d.claims_atomically(),
        d.publishes(),
        d.entry != Phase::Holding,
        excluding(w),
        in_view(w),
    ensures
        in_view(step(d, w, m)),
{
    let next = step(d, w, m);
    if 0 <= m.thread < w.threads.len() && w.threads[m.thread].rounds > 0 {
        let t = w.threads[m.thread];
        let moved = next.threads[m.thread];
        assert(next.threads == w.threads.update(m.thread, moved));
        assert(thread_excluded(w, t));
        assert(t.view <= last_write(w));
        if holding(w, m.thread) {
            assert(t.view == last_write(w));
        }
        assert forall|i: int| 0 <= i < next.threads.len() implies (#[trigger] next.threads[i]).view
            <= last_write(next) by {
            if i != m.thread {
                assert(next.threads[i] == w.threads[i]);
                assert(w.threads[i].view <= last_write(w));
            }
        }
        assert forall|i: int| holding(next, i) implies (#[trigger] next.threads[i]).view
            == last_write(next) by {
            if i != m.thread {
                assert(next.threads[i] == w.threads[i]);
                assert(holding(w, i));
                assert(thread_excluded(w, w.threads[i]));
                assert(w.threads[i].view == last_write(w));
                if holding(w, m.thread) {
                    assert(i == m.thread);
                }
            }
        }
    }
}

proof fn lemma_step_keeps_count(d: Discipline, w: World, m: Move, total: int)
    requires
        d.claims_atomically(),
        d.entry != Phase::Holding,
        (d.publishes() && in_view(w)) || m.stale == 0,
        excluding(w),
        counting(w, total),
    ensures
        counting(step(d, w, m), total),
{
    let next = step(d, w, m);
    if 0 <= m.thread < w.threads.len() && w.threads[m.thread].rounds > 0 {
        let t = w.threads[m.thread];
        let moved = next.threads[m.thread];
        assert(next.threads == w.threads.update(m.thread, moved));
        assert(thread_excluded(w, t));
        if holding(w, m.thread) && d.publishes() && in_view(w) {
            assert(t.view == last_write(w));
        }
        lemma_owed_update(w.threads, m.thread, moved);
        assert forall|i: int|
            0 <= i < next.threads.len() && (#[trigger] next.threads[i]).work is Loaded implies next.threads[i].work->Loaded_0
            == next.counter by {
            if i != m.thread {
                assert(next.threads[i] == w.threads[i]);
                assert(thread_excluded(w, w.threads[i]));
                assert(holding(w, i));
                if holding(w, m.thread) {
                    assert(i == m.thread);
                }
            }
        }
    }
}

/// How `run` grows by one move.
pub proof fn lemma_run_push(d: Discipline, w: World, moves: Seq<Move>, m: Move)
    ensures
        run(d, w, moves.push(m)) == step(d, run(d, w, moves), m),
{
    assert(moves.push(m).drop_last() =~= moves);
}

/// Mutual exclusion. Under a discipline that takes the flag in one atomic
/// step, whatever the order in which the threads move and however weak the
/// memory: no two threads are ever inside their critical sections at once,
/// and the flag is set while one is.
pub proof fn law_mutual_exclusion(d: Discipline, threads: nat, rounds: nat, moves: Seq<Move>)
    requires
        d.claims_atomically(),
        d.entry != Phase::Holding,
    ensures
        ({
            let w = run(d, start(d, threads, rounds), moves);
            &&& forall|i: int, j: int| holding(w, i) && holding(w, j) ==> i == j
            &&& forall|i: int| holding(w, i) ==> w.flag == LOCKED
        }),
    decreases moves.len(),
{
    lemma_reach_excluding(d, threads, rounds, moves);
    let w = run(d, start(d, threads, rounds), moves);
    assert forall|i: int| holding(w, i) implies w.flag == LOCKED by {
        assert(thread_excluded(w, w.threads[i]));
    }
}

/// No increment is lost. Under a discipline that takes the flag in one
/// atomic step, where it publishes or no read is asked to lag: a thread
/// inside its critical section has seen the counter as the last holder left
/// it, and once `threads` threads have each completed `rounds` increments the
/// counter stands at exactly `threads * rounds`.
pub proof fn law_no_increment_is_lost(d: Discipline, threads: nat, rounds: nat, moves: Seq<Move>)
    requires
        d.claims_atomically(),
        d.entry != Phase::Holding,
        reads_are_current(d, moves),
    ensures
        ({
            let w = run(d, start(d, threads, rounds), moves);
            &&& forall|i: int|
                holding(w, i) && w.threads[i].work is Loaded ==> w.threads[i].work->Loaded_0
                    == w.counter
            &&& finished(w) ==> w.counter == threads * rounds
        }),
{
    lemma_reach_excluding(d, threads, rounds, moves);
    lemma_reach_counting(d, threads, rounds, moves);
    let w = run(d, start(d, threads, rounds), moves);
    if finished(w) {
        assert forall|i: int| 0 <= i < w.threads.len() implies pending(#[trigger] w.threads[i])
            == 0 by {
            assert(thread_excluded(w, w.threads[i]));
        }
        lemma_owed_nothing(w.threads);
    }
}

/// Visibility. Under a discipline that takes the flag in one atomic step,
/// acquires with it and releases it, what a critical section wrote is what
/// the next one reads, whatever lag the moves ask for: a free flag has
/// published the last write, the thread inside has it in view and has read
/// nothing older, and no increment is lost.
pub proof fn law_published_writes_are_seen(
    d: Discipline,
    threads: nat,
    rounds: nat,
    moves: Seq<Move>,
)
    requires
        d.claims_atomically(),
        d.publishes(),
        d.entry != Phase::Holding,
    ensures
        ({
            let w = run(d, start(d, threads, rounds), moves);
            &&& w.flag == UNLOCKED ==> w.published == last_write(w)
            &&& forall|i: int| holding(w, i) ==> w.threads[i].view == last_write(w)
            &&& forall|i: int|
                holding(w, i) && w.threads[i].work is Loaded ==> w.threads[i].work->Loaded_0
                    == w.counter
            &&& finished(w) ==> w.counter == threads * rounds
        }),
{
    lemma_reach_in_view(d, threads, rounds, moves);
    law_no_increment_is_lost(d, threads, rounds, moves);
}

proof fn lemma_reach_in_view(d: Discipline, threads: nat, rounds: nat, moves: Seq<Move>)
    requires
        d.claims_atomically(),
        d.publishes(),
        d.entry != Phase::Holding,
    ensures
        in_view(run(d, start(d, threads, rounds), moves)),
    decreases moves.len(),
{
    if moves.len() > 0 {
        lemma_reach_excluding(d, threads, rounds, moves.drop_last());
        lemma_reach_in_view(d, threads, rounds, moves.drop_last());
        lemma_step_keeps_view(
            d,
            run(d, start(d, threads, rounds), moves.drop_last()),
            moves.last(),
        );
    }
}

/// The second and the third tier keep their critical sections apart,
/// whatever the order in which the threads move and however weak the memory.
pub proof fn law_correct_tiers_exclude(threads: nat, rounds: nat, moves: Seq<Move>)
    ensures
        ({
            let second = run(two::tier(), start(two::tier(), threads, rounds), moves);
            let third = run(three::tier(), start(three::tier(), threads, rounds), moves);
            &&& forall|i: int, j: int| holding(second, i) && holding(second, j) ==> i == j
            &&& forall|i: int, j: int| holding(third, i) && holding(third, j) ==> i == j
        }),
{
    law_mutual_exclusion(two::tier(), threads, rounds, moves);
    law_mutual_exclusion(three::tier(), threads, rounds, moves);
}

/// Under the third tier `threads` threads that have each completed `rounds`
/// increments leave the counter at exactly `threads * rounds`, whatever the
/// order in which they moved and however weak the memory. Under the second
/// tier they do so while every read is current.
pub proof fn law_correct_tiers_count(threads: nat, rounds: nat, moves: Seq<Move>)
    ensures
        ({
            let second = run(two::tier(), start(two::tier(), threads, rounds), moves);
            let third = run(three::tier(), start(three::tier(), threads, rounds), moves);
            &&& finished(third) ==> third.counter == threads * rounds
            &&& reads_are_current(two::tier(), moves) && finished(second) ==> second.counter
                == threads * rounds
        }),
{
    law_published_writes_are_seen(three::tier(), threads, rounds, moves);
    if reads_are_current(two::tier(), moves) {
        law_no_increment_is_lost(two::tier(), threads, rounds, moves);
    }
}

proof fn lemma_reach_excluding(d: Discipline, threads: nat, rounds: nat, moves: Seq<Move>)
    requires
        d.claims_atomically(),
        d.entry != Phase::Holding,
    ensures
        excluding(run(d, start(d, threads, rounds), moves)),
    decreases moves.len(),
{
    if moves.len() > 0 {
        lemma_reach_excluding(d, threads, rounds, moves.drop_last());
        lemma_step_keeps_exclusion(
            d,
            run(d, start(d, threads, rounds), moves.drop_last()),
            moves.last(),
        );
    }
}

proof fn lemma_reach_counting(d: Discipline, threads: nat, rounds: nat, moves: Seq<Move>)
    requires
        d.claims_atomically(),
        d.entry != Phase::Holding,
        reads_are_current(d, moves),
    ensures
        counting(run(d, start(d, threads, rounds), moves), (threads * rounds) as int),
    decreases moves.len(),
{
    if moves.len() == 0 {
        lemma_owed_at_start(d, threads, rounds);
    } else {
        let before = moves.drop_last();
        assert forall|k: int| 0 <= k < before.len() && !d.publishes() implies (
        #[trigger] before[k]).stale == 0 by {
            assert(before[k] == moves[k]);
        }
        lemma_reach_excluding(d, threads, rounds, before);
        lemma_reach_counting(d, threads, rounds, before);
        if d.publishes() {
            lemma_reach_in_view(d, threads, rounds, before);
        }
        lemma_step_keeps_count(
            d,
            run(d, start(d, threads, rounds), before),
            moves.last(),
            (threads * rounds) as int,
        );
    }
}

/// The moves by which two threads of the naive tier both enter and lose an
/// increment: both see the flag clear before either stores it.
pub open spec fn racing_moves() -> Seq<Move> {
    let a = Move { thread: 0, lucky: true, stale: 0 };
    let b = Move { thread: 1, lucky: true, stale: 0 };
    seq![a, b, a, b, a, b, a, b, a, b]
}

/// The naive tier does not exclude. Two threads that each make one increment
/// can both be inside the critical section at once, and can finish with the
/// counter at one instead of two, even where every read is current.
pub proof fn law_naive_tier_races()
    ensures
        ({
            let first = start(one::tier(), 2, 1);
            let inside = run(one::tier(), first, racing_moves().take(4));
            let last = run(one::tier(), first, racing_moves());
            &&& reads_are_current(one::tier(), racing_moves())
            &&& holding(inside, 0) && holding(inside, 1)
            &&& finished(last) && last.counter == 1
        }),
{
    let d = one::tier();
    let a = Move { thread: 0, lucky: true, stale: 0 };
    let b = Move { thread: 1, lucky: true, stale: 0 };
    let w0 = start(d, 2, 1);
    let m0 = Seq::<Move>::empty();
    assert(run(d, w0, m0) == w0);
    let w1 = step(d, w0, a);
    let m1 = m0.push(a);
    lemma_run_push(d, w0, m0, a);
    let w2 = step(d, w1, b);
    let m2 = m1.push(b);
    lemma_run_push(d, w0, m1, b);
    let w3 = step(d, w2, a);
    let m3 = m2.push(a);
    lemma_run_push(d, w0, m2, a);
    let w4 = step(d, w3, b);
    let m4 = m3.push(b);
    lemma_run_push(d, w0, m3, b);
    assert(w4.threads[0].phase == Phase::Holding && w4.threads[1].phase == Phase::Holding);
    let w5 = step(d, w4, a);
    let m5 = m4.push(a);
    lemma_run_push(d, w0, m4, a);
    let w6 = step(d, w5, b);
    let m6 = m5.push(b);
    lemma_run_push(d, w0, m5, b);
    assert(w6.threads[0].work == Work::Loaded(0) && w6.threads[1].work == Work::Loaded(0));
    let w7 = step(d, w6, a);
    let m7 = m6.push(a);
    lemma_run_push(d, w0, m6, a);
    let w8 = step(d, w7, b);
    let m8 = m7.push(b);
    lemma_run_push(d, w0, m7, b);
    assert(w8.counter == 1);
    let w9 = step(d, w8, a);
    let m9 = m8.push(a);
    lemma_run_push(d, w0, m8, a);
    let w10 = step(d, w9, b);
    let m10 = m9.push(b);
    lemma_run_push(d, w0, m9, b);
    assert(w10.threads[0].rounds == 0 && w10.threads[1].rounds == 0);
    assert(m10 =~= racing_moves());
    assert(m4 =~= racing_moves().take(4));
}

/// The moves by which the second of two threads under the relaxed tier
/// misses what the first wrote: the first runs its section to the end, then
/// the second runs its own and reads the counter one write late.
pub open spec fn lagging_moves() -> Seq<Move> {
    let a = Move { thread: 0, lucky: true, stale: 0 };
    let b = Move { thread: 1, lucky: true, stale: 1 };
    seq![a, a, a, a, b, b, b, b]
}

/// The relaxed tier excludes but does not publish. Two threads that each make
/// one increment, one section wholly after the other, can finish with the
/// counter at one instead of two: the second reads the counter as it was
/// before the first wrote it.
pub proof fn law_relaxed_tier_may_miss_a_write()
    ensures
        ({
            let first = start(two::tier(), 2, 1);
            let last = run(two::tier(), first, lagging_moves());
            &&& !reads_are_current(two::tier(), lagging_moves())
            &&& finished(last) && last.counter == 1
        }),
{
    let d = two::tier();
    let a = Move { thread: 0, lucky: true, stale: 0 };
    let b = Move { thread: 1, lucky: true, stale: 1 };
    let w0 = start(d, 2, 1);
    let m0 = Seq::<Move>::empty();
    assert(run(d, w0, m0) == w0);
    let w1 = step(d, w0, a);
    let m1 = m0.push(a);
    lemma_run_push(d, w0, m0, a);
    let w2 = step(d, w1, a);
    let m2 = m1.push(a);
    lemma_run_push(d, w0, m1, a);
    let w3 = step(d, w2, a);
    let m3 = m2.push(a);
    lemma_run_push(d, w0, m2, a);
    assert(w3.counter == 1 && w3.written =~= seq![0int, 1int]);
    let w4 = step(d, w3, a);
    let m4 = m3.push(a);
    lemma_run_push(d, w0, m3, a);
    assert(w4.flag == UNLOCKED && w4.threads[0].rounds == 0);
    let w5 = step(d, w4, b);
    let m5 = m4.push(b);
    lemma_run_push(d, w0, m4, b);
    assert(w5.threads[1].phase == Phase::Holding);
    let w6 = step(d, w5, b);
    let m6 = m5.push(b);
    lemma_run_push(d, w0, m5, b);
    assert(w6.threads[1].work == Work::Loaded(0));
    let w7 = step(d, w6, b);
    let m7 = m6.push(b);
    lemma_run_push(d, w0, m6, b);
    assert(w7.counter == 1);
    let w8 = step(d, w7, b);
    let m8 = m7.push(b);
    lemma_run_push(d, w0, m7, b);
    assert(w8.threads[0].rounds == 0 && w8.threads[1].rounds == 0);
    assert(m8 =~= lagging_moves());
    assert(lagging_moves()[4].stale == 1);
}

} // verus!
