//! Append-only logs of byte strings: the contract and its implementation
//! over two memory regions.

pub mod ext;
pub mod stable;
pub mod structure;

pub use ext::LogExt;
pub use structure::{LogStructure, LogWriteError};
