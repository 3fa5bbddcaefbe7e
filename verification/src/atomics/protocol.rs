//! The decisions one thread takes while it acquires, holds and releases a
//! spin lock.
use std::sync::atomic::Ordering;
use vstd::prelude::*;

verus! {

/// The flag value while some thread holds the lock.
pub const LOCKED: bool = true;

/// The flag value while no thread holds the lock.
pub const UNLOCKED: bool = false;

/// Where one thread stands between asking for the lock and holding it.
#[derive(Clone, Copy, PartialEq, Eq, Structural, Debug)]
pub enum Phase {
    /// Reading the flag until it is seen clear.
    Watching,
    /// About to take the flag.
    Claiming,
    /// Inside the critical section.
    Holding,
}

/// How a lock takes the flag once it may be free.
#[derive(Clone, Copy, PartialEq, Eq, Structural, Debug)]
pub enum Claim {
    /// Store "locked" without looking again: another thread may have taken
    /// the flag since it was last read.
    BlindStore,
    /// Store "locked" only if the flag still reads "unlocked", in one atomic
    /// operation.
    CompareExchange,
}

/// The ordering of the operation that takes the flag.
#[derive(Clone, Copy, PartialEq, Eq, Structural, Debug)]
pub enum ClaimOrder {
    /// Orders nothing but the flag itself.
    Relaxed,
    /// Nothing after the claim may move before it, and what was written
    /// before a releasing store of the flag is visible after it.
    Acquire,
}

/// The ordering of the store that gives the flag back.
#[derive(Clone, Copy, PartialEq, Eq, Structural, Debug)]
pub enum ReleaseOrder {
    /// Orders nothing but the flag itself.
    Relaxed,
    /// Nothing before the store may move after it, and what was written
    /// before it is visible to an acquiring claim of the flag.
    Release,
}

/// The choices that make up one tier of the lock.
#[derive(Clone, Copy, PartialEq, Eq, Structural, Debug)]
pub struct Discipline {
    /// The phase in which an acquisition starts.
    pub entry: Phase,
    /// How the flag is taken.
    pub claim: Claim,
    /// The ordering of a successful claim.
    pub on_claim: ClaimOrder,
    /// The ordering of the releasing store.
    pub on_release: ReleaseOrder,
}

impl ClaimOrder {
    /// The ordering handed to the atomic operation.
    pub fn ordering(self) -> (o: Ordering)
        ensures
            self == ClaimOrder::Relaxed ==> o == Ordering::Relaxed,
            self == ClaimOrder::Acquire ==> o == Ordering::Acquire,
    {
        match self {
            ClaimOrder::Relaxed => Ordering::Relaxed,
            ClaimOrder::Acquire => Ordering::Acquire,
        }
    }
}

impl ReleaseOrder {
    /// The ordering handed to the atomic operation.
    pub fn ordering(self) -> (o: Ordering)
        ensures
            self == ReleaseOrder::Relaxed ==> o == Ordering::Relaxed,
            self == ReleaseOrder::Release ==> o == Ordering::Release,
    {
        match self {
            ReleaseOrder::Relaxed => Ordering::Relaxed,
            ReleaseOrder::Release => Ordering::Release,
        }
    }
}

/// The phase that follows a read of the flag.
pub open spec fn phase_after_watch(seen: bool) -> Phase {
    if seen == LOCKED {
        Phase::Watching
    } else {
        Phase::Claiming
    }
}

/// The phase that follows an attempt to take the flag.
pub open spec fn phase_after_claim(taken: bool) -> Phase {
    if taken {
        Phase::Holding
    } else {
        Phase::Watching
    }
}

impl Discipline {
    /// Whether a critical section's writes are published to the next holder:
    /// the release must order them before the flag store, and the claim must
    /// order the next section after the flag load.
    pub open spec fn publishes(self) -> bool {
        self.on_claim == ClaimOrder::Acquire && self.on_release == ReleaseOrder::Release
    }

    /// Whether taking the flag and checking that it was free are one atomic
    /// step.
    pub open spec fn claims_atomically(self) -> bool {
        self.claim == Claim::CompareExchange
    }

    /// The fewest flag operations after which the flag can be held: one to
    /// take it, and one before that to see it clear where an acquisition
    /// starts by watching.
    pub open spec fn least_operations(self) -> nat {
        if self.entry == Phase::Watching {
            2
        } else {
            1
        }
    }

    /// Whether the first flag operation of an acquisition takes the flag
    /// whatever the flag holds: the flag is stored blindly, without a look at
    /// it before.
    pub open spec fn takes_at_once(self) -> bool {
        self.claim == Claim::BlindStore && self.entry != Phase::Watching
    }

    /// Whether a critical section's writes are published to the next holder.
    pub fn publishing(&self) -> (yes: bool)
        ensures
            yes == self.publishes(),
    {
        self.on_claim == ClaimOrder::Acquire && self.on_release == ReleaseOrder::Release
    }

    /// Decides what to do after reading the flag: keep reading while it is
    /// held, go and take it once it is seen free.
    pub fn after_watch(&self, seen: bool) -> (next: Phase)
        ensures
            next == phase_after_watch(seen),
    {
        if seen == LOCKED {
            Phase::Watching
        } else {
            Phase::Claiming
        }
    }

    /// Decides what to do after an attempt to take the flag: enter the
    /// critical section if it was taken, else go back to reading. A blind
    /// store always counts as taken.
    pub fn after_claim(&self, taken: bool) -> (next: Phase)
        ensures
            next == phase_after_claim(taken || self.claim == Claim::BlindStore),
    {
        match self.claim {
            Claim::BlindStore => Phase::Holding,
            Claim::CompareExchange => if taken {
                Phase::Holding
            } else {
                Phase::Watching
            },
        }
    }
}

} // verus!
