//! Building blocks shared by the collections.

pub mod bytes;
pub mod codec;
pub mod lru;
pub mod memory;
pub mod user;
pub mod value;

pub use codec::{Codec, RefCodec};
pub use lru::LruCache;
pub use memory::{Region, RegionContent};
pub use value::Value;
