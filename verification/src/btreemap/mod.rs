//! Ordered maps with 64-bit keys: the contract, its implementation over a
//! memory region, and the caching and versioning maps on top.

pub mod cached;
pub mod stable;
pub mod structure;
pub mod versioned;

pub use cached::CachedBTreeMap;
pub use stable::StableBTreeMap;
pub use structure::{BTreeMapIteratorStructure, BTreeMapStructure};
pub use versioned::{VersionedBTreeMap, VersionedBTreeMapIter};
