//! Blocking channels from many producers to one consumer, built on a lock
//! and a condition variable.
//!
//! `state` holds what the lock protects and every change that is made to it,
//! `sync` the lock and the waiting, `model` the laws of the channel as a
//! whole. `one` is the channel that cannot close, `two` counts its senders
//! and closes with the last of them, `three` lets the consumer carry off
//! the whole queue under one acquisition of the lock, and `four` is `three`
//! again.
pub mod four;
pub mod model;
pub mod one;
pub mod state;
pub mod sync;
pub mod three;
pub mod two;
