//! Memory regions: where the collections keep their data.
//!
//! A region has one owner at a time. A collection takes the region it is
//! made in and gives it back when it is taken apart, so that what a region
//! holds is known from the collection that owned it last.

use ic_stable_structures::VectorMemory;
use vstd::prelude::*;

verus! {

/// The interior-mutability cell of the standard library, which a region
/// handle is built from. Nothing is said of what it holds.
#[verifier::external_type_specification]
#[verifier::external_body]
#[verifier::reject_recursive_types(T)]
pub struct ExRefCell<T: ?Sized>(core::cell::RefCell<T>);

/// What a region holds.
pub enum RegionContent {
    /// No page: nothing was written to the region yet.
    Empty,
    /// A stable vector of 64-bit items in the layout that the vector of
    /// this library opens, with these items.
    Vector(Seq<u64>),
    /// A stable cell in the layout that the cell of this library opens,
    /// with this byte string as its value.
    Cell(Seq<u8>),
    /// A stable map from 64-bit keys to byte strings in the layout that
    /// the map of this library opens, with these entries.
    BTreeMap(Map<u64, Seq<u8>>),
    /// Anything else: one of the two parts of a log, or bytes that none of
    /// the collections wrote.
    Other,
}

/// A heap-backed memory region with a single owner.
///
/// A region cannot be copied, and the handle inside it is not lent out:
/// whoever holds the region is the only one who can write to it.
pub struct Region {
    pub(crate) memory: VectorMemory,
}

/// What the region holds: which collection was written to it last, and
/// what that collection held when it gave the region back.
pub uninterp spec fn region_content(region: Region) -> RegionContent;

/// `VectorMemory::default`: a handle to a new byte vector of length zero,
/// which is a region of no page.
#[verifier::external_body]
pub(crate) fn region_new() -> (region: Region)
    ensures
        region_content(region) == RegionContent::Empty,
{
    Region { memory: VectorMemory::default() }
}

impl View for Region {
    type V = RegionContent;

    open spec fn view(&self) -> RegionContent {
        region_content(*self)
    }
}

impl Region {
    /// Creates a region that holds nothing.
    pub fn new() -> (region: Self)
        ensures
            region@ == RegionContent::Empty,
    {
        region_new()
    }
}

} // verus!
