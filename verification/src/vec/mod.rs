//! Growable vectors of fixed-size items: the contract and its
//! implementation over a memory region.

pub mod ext;
pub mod stable;
pub mod structure;

pub use ext::VecExt;
pub use structure::VecStructure;
