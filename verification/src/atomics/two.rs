//! The tier that excludes but does not publish: the flag is taken by
//! compare-and-set, with relaxed ordering throughout.
use crate::atomics::protocol::Claim;
use crate::atomics::protocol::ClaimOrder;
use crate::atomics::protocol::Discipline;
use crate::atomics::protocol::Phase;
use crate::atomics::protocol::ReleaseOrder;
use crate::atomics::spin::SpinCell;
use vstd::prelude::*;

verus! {

/// The choices of this tier.
pub open spec fn tier() -> Discipline {
    Discipline {
        entry: Phase::Claiming,
        claim: Claim::CompareExchange,
        on_claim: ClaimOrder::Relaxed,
        on_release: ReleaseOrder::Relaxed,
    }
}

/// The choices of this tier: the claim is one atomic step, but a
/// critical section's writes are not published to the next holder.
#[verifier::when_used_as_spec(tier)]
pub fn discipline() -> (d: Discipline)
    ensures
        d == tier(),
        d.claims_atomically(),
        !d.publishes(),
{
    Discipline {
        entry: Phase::Claiming,
        claim: Claim::CompareExchange,
        on_claim: ClaimOrder::Relaxed,
        on_release: ReleaseOrder::Relaxed,
    }
}

/// A spin lock that owns one value.
#[verifier::reject_recursive_types(T)]
pub struct Mutex<T> {
    cell: SpinCell<T>,
}

impl<T> Mutex<T> {
    /// Whether the lock admits `v` as its value. A section finds a value
    /// that the lock admits and has to leave one.
    pub closed spec fn admits(&self, v: T) -> bool {
        self.cell.admits(v)
    }

    /// An unlocked lock that owns `t` and admits every value.
    pub fn new(t: T) -> (m: Self)
        ensures
            forall|v: T| #[trigger] m.admits(v),
    {
        Mutex { cell: SpinCell::new(t, Ghost(|v: T| true)) }
    }

    /// An unlocked lock that owns `t` and admits the values of which `holds`
    /// is true, so that every section can rely on `holds`.
    pub fn keeping(t: T, Ghost(holds): Ghost<spec_fn(T) -> bool>) -> (m: Self)
        requires
            holds(t),
        ensures
            forall|v: T| #[trigger] m.admits(v) == holds(v),
    {
        Mutex { cell: SpinCell::new(t, Ghost(holds)) }
    }

    /// Reads the flag once: whether some thread held the lock at that moment.
    pub fn is_locked(&self) -> (seen: bool) {
        self.cell.is_locked()
    }

    /// Runs `f` with access to the owned value if the lock can be taken
    /// within `spins` flag operations, and hands `f` back untouched if it
    /// cannot.
    ///
    /// The value that `f` finds is whatever the previous holder left: a value
    /// that the lock admits. `f` must take every such value and leave one.
    /// No section runs without a flag operation.
    pub fn try_with_lock<R, F: FnOnce(&mut T) -> R>(&self, spins: usize, f: F) -> (res: Result<
        R,
        F,
    >)
        requires
            forall|x: &mut T| self.admits(*x) ==> #[trigger] f.requires((x,)),
            forall|x: &mut T, r: R|
                self.admits(*x) && #[trigger] f.ensures((x,), r) ==> self.admits(*final(x)),
        ensures
            res is Ok ==> exists|x: &mut T|
                f.ensures((x,), res->Ok_0) && self.admits(*x) && self.admits(*final(x)),
            res is Err ==> res->Err_0 == f,
            res is Ok ==> spins >= 1,
    {
        self.cell.try_section(discipline(), spins, f)
    }
}

} // verus!
