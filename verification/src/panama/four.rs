//! The batching consumer under its other name.
pub use crate::panama::three::channel;
pub use crate::panama::three::Receiver;
