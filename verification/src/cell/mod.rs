//! Single persisted values: the contract, its implementation over a
//! memory region, and the versioned cell.

pub mod stable;
pub mod structure;
pub mod versioned;

pub use stable::StableCell;
pub use structure::CellStructure;
pub use versioned::VersionedStableCell;
