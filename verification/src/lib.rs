//! Hand-rolled building blocks: spin locks in three tiers and blocking
//! channels, together with small studies of tokenizers, adapters, cells and
//! counted handles.
pub mod atomics;
pub mod eksempel;
pub mod iterator;
pub mod panama;
pub mod pointers;
pub mod sodium;
pub mod strsplit;
pub mod strtok;
pub mod text;
