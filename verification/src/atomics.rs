//! Spin locks that guard one value by busy-waiting on an atomic flag.
//!
//! The three tiers share one contract and differ in how the flag is taken and
//! how strongly the flag operations order memory. `protocol` holds the
//! decisions of one thread, `spin` the flag and the value, `model` the
//! interleavings of many threads and the laws proved about them, and `arena`
//! the same interleavings made to run.
pub mod arena;
pub mod model;
pub mod one;
pub mod protocol;
pub mod spin;
pub mod three;
pub mod two;
