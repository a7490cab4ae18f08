//! Persistent collection primitives over byte-addressable memory regions:
//! an ordered map contract, a read cache and a versioning codec on top of it,
//! and a fixed-capacity ring buffer.

pub mod btreemap;
pub mod cell;
pub mod common;
pub mod log;
pub mod ringbuffer;
pub mod vec;
