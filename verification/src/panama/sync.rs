//! The lock and the condition variable under the channels.
//!
//! What a thread finds behind the lock is whatever the other threads left
//! there, so the contracts below speak of some state, not of a known one.
use vstd::prelude::*;

verus! {

/// `std::sync::Mutex`, whose inside Verus does not see.
#[verifier::external_type_specification]
#[verifier::external_body]
#[verifier::reject_recursive_types(T)]
pub struct ExMutex<T: ?Sized>(std::sync::Mutex<T>);

/// `std::sync::MutexGuard`, whose inside Verus does not see.
#[verifier::external_type_specification]
#[verifier::external_body]
#[verifier::reject_recursive_types(T)]
pub struct ExMutexGuard<'a, T: ?Sized + 'a>(std::sync::MutexGuard<'a, T>);

/// `std::sync::Condvar`, whose inside Verus does not see.
#[verifier::external_type_specification]
#[verifier::external_body]
pub struct ExCondvar(std::sync::Condvar);

/// `Mutex::new`: a lock around `state`. Nothing is claimed of the result.
#[verifier::external_body]
pub(crate) fn new_mutex<S>(state: S) -> (m: std::sync::Mutex<S>) {
    std::sync::Mutex::new(state)
}

/// `Condvar::new`: a condition variable with nobody waiting. Nothing is
/// claimed of the result.
#[verifier::external_body]
pub(crate) fn new_condvar() -> (cv: std::sync::Condvar) {
    std::sync::Condvar::new()
}

/// `Mutex::lock`: blocks until the lock is free and returns its guard.
/// Nothing is claimed of the guard. A lock that a panicking thread left
/// behind is taken all the same and its mark is cleared with
/// `Mutex::clear_poison`, so that the call does not unwind and no later
/// call finds the mark. A thread that holds the guard must not ask for the
/// lock again; nothing in this crate does.
#[verifier::external_body]
pub(crate) fn lock<'a, S>(m: &'a std::sync::Mutex<S>) -> (guard: std::sync::MutexGuard<'a, S>)
    opens_invariants none
    no_unwind
{
    m.lock().unwrap_or_else(|marked| {
        m.clear_poison();
        marked.into_inner()
    })
}

/// `DerefMut::deref_mut` of a `MutexGuard`: the state that the guard
/// protects, for as long as the guard is borrowed. Nothing is claimed of the
/// state that is found. The call does not unwind.
#[verifier::external_body]
pub(crate) fn guarded<'g, 'a, S>(guard: &'g mut std::sync::MutexGuard<'a, S>) -> (state: &'g mut S)
    opens_invariants none
    no_unwind
{
    &mut **guard
}

/// Whether `blocked` may return `false` of the state behind `x`, and `section`
/// may return `r` when it is run on that state.
pub open spec fn gives_when_free<S, R, B: Fn(&S) -> bool, F: FnOnce(&mut S) -> R>(
    blocked: B,
    section: F,
    x: &mut S,
    r: R,
) -> bool {
    call_ensures(blocked, (&*x,), false) && call_ensures(section, (x,), r)
}

/// `Condvar::wait_while`, then `DerefMut::deref_mut` of the guard it
/// returns and the end of that guard: gives the lock up and sleeps for as
/// long as `blocked` says so of the protected state, looking again after each
/// notification, then runs `section` once on that state and releases the
/// lock. The claim is that the result is one that `section` gives on some
/// state of which `blocked` returned `false`. The call may never return.
/// The guard comes from `lock`, which leaves no mark of an earlier panic
/// on the mutex, and no thread panics under the lock while this one sleeps,
/// since every section that runs under it is verified: so the wait ends
/// without an error.
#[verifier::external_body]
pub(crate) fn wait_then<'a, S, R, B: Fn(&S) -> bool, F: FnOnce(&mut S) -> R>(
    cv: &std::sync::Condvar,
    guard: std::sync::MutexGuard<'a, S>,
    blocked: B,
    section: F,
) -> (r: R)
    requires
        forall|s: &S| call_requires(blocked, (s,)),
        forall|x: &mut S| call_ensures(blocked, (&*x,), false) ==> call_requires(section, (x,)),
    ensures
        exists|x: &mut S| gives_when_free(blocked, section, x, r),
{
    let mut guard = cv.wait_while(guard, |s: &mut S| blocked(&*s)).unwrap();
    section(&mut *guard)
}

/// `Condvar::notify_one`: wakes one thread that waits on `cv`, if there is
/// one. Nothing is returned.
#[verifier::external_body]
pub(crate) fn notify_one(cv: &std::sync::Condvar)
    opens_invariants none
    no_unwind
{
    cv.notify_one()
}

/// A lock around a state, with a condition variable to wait for a change of
/// it.
#[verifier::reject_recursive_types(S)]
pub struct Monitor<S> {
    state: std::sync::Mutex<S>,
    available: std::sync::Condvar,
}

impl<S> Monitor<S> {
    /// A monitor around `state`, with nobody waiting.
    pub(crate) fn new(state: S) -> (m: Self) {
        Monitor { state: new_mutex(state), available: new_condvar() }
    }

    /// Takes the lock, waiting for as long as another thread holds it. The
    /// lock is held until the guard is dropped.
    pub(crate) fn lock(&self) -> (guard: std::sync::MutexGuard<'_, S>)
        opens_invariants none
        no_unwind
    {
        lock(&self.state)
    }

    /// Takes the lock, sleeps without it for as long as `blocked` says so of
    /// the state, then runs `section` on the state and releases the lock.
    /// The result is one that `section` gives on some state of which
    /// `blocked` returned `false`.
    pub(crate) fn when<R, B: Fn(&S) -> bool, F: FnOnce(&mut S) -> R>(&self, blocked: B, section: F) -> (r:
        R)
        requires
            forall|s: &S| call_requires(blocked, (s,)),
            forall|x: &mut S| call_ensures(blocked, (&*x,), false) ==> call_requires(section, (x,)),
        ensures
            exists|x: &mut S| gives_when_free(blocked, section, x, r),
    {
        wait_then(&self.available, lock(&self.state), blocked, section)
    }

    /// Wakes one thread that sleeps in `when`, if there is one.
    pub(crate) fn notify(&self)
        opens_invariants none
        no_unwind
    {
        notify_one(&self.available)
    }
}

} // verus!
