//! Shared values that can be changed: a cell that is read and written whole,
//! a cell whose borrows are counted while the program runs, and the count of
//! the handles on a value that is freed with the last of them.
pub mod cell;
pub mod rc;
pub mod refcell;
