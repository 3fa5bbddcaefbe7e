//! The flag and the value of a spin lock, and the busy-waiting on the flag.
use crate::atomics::protocol::Claim;
use crate::atomics::protocol::Discipline;
use crate::atomics::protocol::Phase;
use crate::atomics::protocol::LOCKED;
use crate::atomics::protocol::UNLOCKED;
use std::sync::atomic::AtomicBool;
use std::sync::atomic::Ordering;
use vstd::prelude::*;
use vstd::rwlock::RwLock;
use vstd::rwlock::RwLockPredicate;

verus! {

/// What a lock keeps true of its value: every section finds it so and has
/// to leave it so.
#[verifier::reject_recursive_types(T)]
pub struct Kept<T> {
    /// Whether the lock admits the value.
    pub holds: Ghost<spec_fn(T) -> bool>,
}

impl<T> RwLockPredicate<T> for Kept<T> {
    open spec fn inv(self, v: T) -> bool {
        (self.holds@)(v)
    }
}

/// Makes one attempt to take the flag, in the way the discipline names, and
/// reports whether the flag is now taken by the caller. A blind store
/// always reports success; a compare-and-set reports what the hardware did,
/// which may be a failure even on a free flag.
pub(crate) fn claim(flag: &AtomicBool, d: Discipline) -> (taken: bool)
    ensures
        d.claim == Claim::BlindStore ==> taken,
{
    match d.claim {
        Claim::BlindStore => {
            flag.store(LOCKED, Ordering::Relaxed);
            true
        },
        Claim::CompareExchange => flag.compare_exchange_weak(
            UNLOCKED,
            LOCKED,
            d.on_claim.ordering(),
            Ordering::Relaxed,
        ).is_ok(),
    }
}

/// Busy-waits for the flag, spending at most `spins` flag operations, and
/// reports whether the caller now holds it.
///
/// Starting from the discipline's entry phase, each round either reads the
/// flag (while watching) or tries to take it (while claiming), and moves on
/// as `after_watch` and `after_claim` decide. While the flag is held by
/// another thread only reads are issued, so the flag's cache line stays
/// shared among the waiting threads.
///
/// What the flag holds is for the other threads to decide, and so is the
/// outcome but for two things: the flag is never held before the fewest
/// operations that the discipline needs are spent, and a discipline that
/// takes the flag at once holds it after the first operation.
pub(crate) fn acquire(flag: &AtomicBool, d: Discipline, spins: usize) -> (held: bool)
    ensures
        held ==> spins >= d.least_operations(),
        d.takes_at_once() && spins >= 1 ==> held,
{
    let mut phase = d.entry;
    let mut budget = spins;
    let mut held = false;
    while budget > 0 && !held
        invariant
            budget <= spins,
            budget == spins ==> phase == d.entry && !held,
            held ==> budget < spins,
            d.entry == Phase::Watching && spins - budget <= 1 ==> !held && phase != Phase::Holding,
            d.takes_at_once() && budget < spins ==> held,
        decreases budget,
    {
        budget = budget - 1;
        phase =
        match phase {
            Phase::Watching => d.after_watch(flag.load(Ordering::Relaxed)),
            _ => d.after_claim(claim(flag, d)),
        };
        held = phase == Phase::Holding;
    }
    held
}

/// Gives the flag back with the discipline's release ordering.
pub(crate) fn release(flag: &AtomicBool, d: Discipline) {
    flag.store(UNLOCKED, d.on_release.ordering());
}

/// One value behind one flag: what every tier of the lock is made of.
///
/// The flag alone decides who may enter; the container of the value keeps
/// each access to it whole, whatever the flag let through, and lets in no
/// value that the lock does not admit.
#[verifier::reject_recursive_types(T)]
pub(crate) struct SpinCell<T> {
    locked: AtomicBool,
    v: RwLock<T, Kept<T>>,
}

impl<T> SpinCell<T> {
    /// Whether the cell admits `v` as its value.
    pub(crate) closed spec fn admits(&self, v: T) -> bool {
        self.v.inv(v)
    }

    /// A cell with a clear flag that owns `t` and admits the values of which
    /// `holds` is true.
    pub(crate) fn new(t: T, Ghost(holds): Ghost<spec_fn(T) -> bool>) -> (cell: Self)
        requires
            holds(t),
        ensures
            forall|v: T| #[trigger] cell.admits(v) == holds(v),
    {
        SpinCell {
            locked: AtomicBool::new(UNLOCKED),
            v: RwLock::new(t, Ghost(Kept { holds: Ghost(holds) })),
        }
    }

    /// Reads the flag once, without ordering anything else.
    pub(crate) fn is_locked(&self) -> (seen: bool) {
        self.locked.load(Ordering::Relaxed) == LOCKED
    }

    /// Runs `f` on the owned value between an `acquire` and a `release` under
    /// the discipline `d`, if the flag can be taken within `spins` flag
    /// operations; hands `f` back untouched if it cannot. The value that `f`
    /// finds is one that the cell admits, and so must be the value that it
    /// leaves.
    pub(crate) fn try_section<R, F: FnOnce(&mut T) -> R>(
        &self,
        d: Discipline,
        spins: usize,
        f: F,
    ) -> (res: Result<R, F>)
        requires
            forall|x: &mut T| self.admits(*x) ==> #[trigger] f.requires((x,)),
            forall|x: &mut T, r: R|
                self.admits(*x) && #[trigger] f.ensures((x,), r) ==> self.admits(*final(x)),
        ensures
            res is Ok ==> exists|x: &mut T|
                f.ensures((x,), res->Ok_0) && self.admits(*x) && self.admits(*final(x)),
            res is Err ==> res->Err_0 == f,
            res is Ok ==> spins >= d.least_operations(),
            d.takes_at_once() && spins >= 1 ==> res is Ok,
    {
        if !acquire(&self.locked, d, spins) {
            return Err(f);
        }
        let (mut value, handle) = self.v.acquire_write();
        let ghost found = value;
        let r = f(&mut value);
        let ghost seen = choose|x: &mut T| f.ensures((x,), r) && *x == found && *final(x) == value;
        assert(f.ensures((seen,), r));
        handle.release_write(value);
        release(&self.locked, d);
        let res = Ok(r);
        assert(f.ensures((seen,), res->Ok_0) && self.admits(*seen) && self.admits(*final(seen)));
        res
    }
}

} // verus!
