//! A fixed-capacity first-in first-out buffer kept in two memory regions:
//! a growable vector of physical slots and a small fixed-size index record.

pub mod buffer;
pub mod indices;
pub mod model;

pub use buffer::{StableIndicesCell, StableRingBuffer};
pub use indices::StableRingBufferIndices;
