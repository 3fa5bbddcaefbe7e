//! A value that can be replaced through a shared reference.
//!
//! No reference into the cell is ever handed out, so a new value cannot pull
//! an old one from under a reader. What a cell holds is whatever was last
//! put there through any reference to it; a contract cannot name it.
use vstd::prelude::*;

verus! {

/// `std::cell::Cell`, whose inside Verus does not see.
#[verifier::external_type_specification]
#[verifier::external_body]
#[verifier::reject_recursive_types(T)]
pub struct ExStdCell<T: ?Sized>(std::cell::Cell<T>);

/// `std::cell::Cell::new`: a cell that holds `value`. Nothing is claimed of
/// the result.
#[verifier::external_body]
fn slot_new<T>(value: T) -> (slot: std::cell::Cell<T>) {
    std::cell::Cell::new(value)
}

/// `std::cell::Cell::set`: puts `value` into the cell and drops what was
/// there. Nothing is returned.
#[verifier::external_body]
fn slot_set<T>(slot: &std::cell::Cell<T>, value: T) {
    slot.set(value)
}

/// `std::cell::Cell::replace`: puts `value` into the cell and returns what
/// was there. Nothing is claimed of the result. The call does not unwind.
#[verifier::external_body]
fn slot_replace<T>(slot: &std::cell::Cell<T>, value: T) -> (was: T)
    opens_invariants none
    no_unwind
{
    slot.replace(value)
}

/// `std::cell::Cell::get`: a copy of what the cell holds. Nothing is claimed
/// of the result. The call does not unwind.
#[verifier::external_body]
fn slot_get<T: Copy>(slot: &std::cell::Cell<T>) -> (value: T)
    opens_invariants none
    no_unwind
{
    slot.get()
}

/// A value that can be replaced through a shared reference. The cell cannot
/// be shared between threads.
#[verifier::reject_recursive_types(T)]
pub struct Cell<T> {
    value: std::cell::Cell<T>,
}

impl<T> Cell<T> {
    /// A cell that holds `value`.
    pub fn new(value: T) -> (cell: Self) {
        Cell { value: slot_new(value) }
    }

    /// Puts `value` into the cell. What was there is dropped.
    pub fn set(&self, value: T) {
        slot_set(&self.value, value)
    }

    /// Puts `value` into the cell and returns what was there.
    pub fn replace(&self, value: T) -> (was: T)
        opens_invariants none
        no_unwind
    {
        slot_replace(&self.value, value)
    }

    /// A copy of what the cell holds.
    pub fn get(&self) -> (value: T) where T: Copy
        opens_invariants none
        no_unwind
    {
        slot_get(&self.value)
    }
}

} // verus!
