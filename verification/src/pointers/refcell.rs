//! A cell whose borrows are checked while the program runs: any number of
//! readers, or one writer, never both.
use crate::pointers::cell::Cell;
use vstd::prelude::*;

verus! {

/// How a cell is borrowed at the moment.
#[derive(Clone, Copy, PartialEq, Eq, Structural, Debug)]
pub enum RefState {
    /// Nobody borrows the cell.
    Unshared,
    /// So many readers borrow the cell.
    Shared(usize),
    /// One writer borrows the cell.
    Exclusive,
}

impl RefState {
    /// The number of readers.
    pub open spec fn readers(self) -> nat {
        match self {
            RefState::Shared(n) => n as nat,
            _ => 0,
        }
    }

    /// Whether there is a writer.
    pub open spec fn writer(self) -> bool {
        self == RefState::Exclusive
    }

    /// The state with one reader more, if another reader may come: there is
    /// no writer, and the count can still grow.
    pub open spec fn shared(self) -> Option<RefState> {
        match self {
            RefState::Unshared => Some(RefState::Shared(1)),
            RefState::Shared(n) => if n < usize::MAX {
                Some(RefState::Shared((n + 1) as usize))
            } else {
                None
            },
            RefState::Exclusive => None,
        }
    }

    /// The state with a writer, if a writer may come: nobody borrows the
    /// cell.
    pub open spec fn locked(self) -> Option<RefState> {
        match self {
            RefState::Unshared => Some(RefState::Exclusive),
            _ => None,
        }
    }

    /// The state with one reader less. A state without readers stays as it
    /// is.
    pub open spec fn unshared(self) -> RefState {
        match self {
            RefState::Shared(n) => if n <= 1 {
                RefState::Unshared
            } else {
                RefState::Shared((n - 1) as usize)
            },
            other => other,
        }
    }

    /// The state without its writer. A state without a writer stays as it
    /// is.
    pub open spec fn unlocked(self) -> RefState {
        match self {
            RefState::Exclusive => RefState::Unshared,
            other => other,
        }
    }

    /// Decides on a reader's request.
    pub fn share(self) -> (next: Option<RefState>)
        ensures
            next == self.shared(),
    {
        match self {
            RefState::Unshared => Some(RefState::Shared(1)),
            RefState::Shared(n) => if n < usize::MAX {
                Some(RefState::Shared(n + 1))
            } else {
                None
            },
            RefState::Exclusive => None,
        }
    }

    /// Decides on a writer's request.
    pub fn lock(self) -> (next: Option<RefState>)
        ensures
            next == self.locked(),
    {
        match self {
            RefState::Unshared => Some(RefState::Exclusive),
            _ => None,
        }
    }

    /// The state after a reader has gone.
    pub fn unshare(self) -> (next: RefState)
        ensures
            next == self.unshared(),
        opens_invariants none
        no_unwind
    {
        match self {
            RefState::Shared(n) => if n <= 1 {
                RefState::Unshared
            } else {
                RefState::Shared(n - 1)
            },
            other => other,
        }
    }

    /// The state after the writer has gone.
    pub fn unlock(self) -> (next: RefState)
        ensures
            next == self.unlocked(),
        opens_invariants none
        no_unwind
    {
        match self {
            RefState::Exclusive => RefState::Unshared,
            other => other,
        }
    }

    /// Whether the state is the one of a cell with `readers` live readers and
    /// `writers` live writers.
    pub open spec fn accounts_for(self, readers: nat, writers: nat) -> bool {
        &&& self.readers() == readers
        &&& self.writer() == (writers == 1)
        &&& writers <= 1
        &&& !(readers > 0 && writers > 0)
        &&& self != RefState::Shared(0)
    }
}

/// Readers and writers exclude each other. In a state that accounts for the
/// live borrows, a reader is let in exactly if there is no writer and the
/// count can grow, a writer exactly if nobody borrows the cell, and the state
/// after each coming and going accounts for the borrows again.
pub proof fn law_borrows_exclude(state: RefState, readers: nat, writers: nat)
    requires
        state.accounts_for(readers, writers),
    ensures
        state.shared() is Some <==> writers == 0 && readers < usize::MAX,
        state.locked() is Some <==> writers == 0 && readers == 0,
        state.shared() is Some ==> state.shared()->Some_0.accounts_for(readers + 1, writers),
        state.locked() is Some ==> state.locked()->Some_0.accounts_for(readers, writers + 1),
        readers > 0 ==> state.unshared().accounts_for((readers - 1) as nat, writers),
        writers > 0 ==> state.unlocked().accounts_for(readers, (writers - 1) as nat),
{
}

/// A cell whose borrows are checked while the program runs.
#[verifier::reject_recursive_types(T)]
pub struct RefCell<T> {
    value: Cell<T>,
    state: Cell<RefState>,
}

/// A reader's borrow of a cell. The borrow ends when this is dropped.
#[verifier::reject_recursive_types(T)]
pub struct Ref<'refcell, T> {
    refcell: &'refcell RefCell<T>,
}

/// The writer's borrow of a cell. The borrow ends when this is dropped.
#[verifier::reject_recursive_types(T)]
pub struct RefMut<'refcell, T> {
    refcell: &'refcell RefCell<T>,
}

impl<T> RefCell<T> {
    /// A cell that holds `value` and that nobody borrows.
    pub fn new(value: T) -> (cell: Self) {
        Self { value: Cell::new(value), state: Cell::new(RefState::Unshared) }
    }

    /// Borrows the cell for reading, unless a writer borrows it.
    pub fn borrow(&self) -> (reader: Option<Ref<'_, T>>)
        ensures
            reader is Some ==> reader->Some_0.cell() == self,
    {
        match self.state.get().share() {
            Some(next) => {
                self.state.set(next);
                Some(Ref { refcell: self })
            },
            None => None,
        }
    }

    /// Borrows the cell for writing, unless somebody borrows it.
    pub fn borrow_mut(&self) -> (writer: Option<RefMut<'_, T>>)
        ensures
            writer is Some ==> writer->Some_0.cell() == self,
    {
        match self.state.get().lock() {
            Some(next) => {
                self.state.set(next);
                Some(RefMut { refcell: self })
            },
            None => None,
        }
    }
}

impl<'refcell, T> Ref<'refcell, T> {
    /// The cell that is borrowed.
    pub closed spec fn cell(&self) -> &RefCell<T> {
        self.refcell
    }

    /// A copy of the value in the cell.
    pub fn get(&self) -> (value: T) where T: Copy {
        self.refcell.value.get()
    }
}

impl<T> Drop for Ref<'_, T> {
    /// Counts this reader out.
    fn drop(&mut self)
        opens_invariants none
        no_unwind
    {
        let next = self.refcell.state.get().unshare();
        let _ = self.refcell.state.replace(next);
    }
}

impl<'refcell, T> RefMut<'refcell, T> {
    /// The cell that is borrowed.
    pub closed spec fn cell(&self) -> &RefCell<T> {
        self.refcell
    }

    /// A copy of the value in the cell.
    pub fn get(&self) -> (value: T) where T: Copy {
        self.refcell.value.get()
    }

    /// Puts `value` into the cell.
    pub fn set(&mut self, value: T)
        ensures
            final(self).cell() == old(self).cell(),
    {
        self.refcell.value.set(value)
    }

    /// Puts `value` into the cell and returns what was there.
    pub fn replace(&mut self, value: T) -> (was: T)
        ensures
            final(self).cell() == old(self).cell(),
    {
        self.refcell.value.replace(value)
    }
}

impl<T> Drop for RefMut<'_, T> {
    /// Counts the writer out.
    fn drop(&mut self)
        opens_invariants none
        no_unwind
    {
        let next = self.refcell.state.get().unlock();
        let _ = self.refcell.state.replace(next);
    }
}

} // verus!
