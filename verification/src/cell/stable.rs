//! The cell of `ic_stable_structures` with a byte string as its value, in
//! a heap-backed region, and what is taken on trust of it.

use crate::cell::structure::CellStructure;
use crate::common::memory::{region_content, Region, RegionContent};
use ic_stable_structures::VectorMemory;
use std::borrow::Cow;
use vstd::prelude::*;

verus! {

/// A cell of `ic_stable_structures` that holds a byte string in a
/// `VectorMemory`. Its layout is the outside crate's; only the functions
/// below touch it.
#[verifier::external_body]
pub struct StableCell {
    inner: ic_stable_structures::Cell<Vec<u8>, VectorMemory>,
}

/// The byte string that a stable cell holds.
pub uninterp spec fn stable_cell_bytes(c: StableCell) -> Seq<u8>;

/// The longest byte string that a cell stores: its length is written as a
/// 32-bit integer.
pub const STABLE_CELL_MAX_SIZE: u64 = 0xffff_ffff;

/// The value of the cell that opening a region with this content gives:
/// that of the cell it holds, and `default_value` for an empty region.
pub open spec fn spec_opened_bytes(content: RegionContent, default_value: Seq<u8>) -> Seq<u8> {
    match content {
        RegionContent::Cell(bytes) => bytes,
        _ => default_value,
    }
}

/// `Cell::new`: writes `value` to the region, whatever it held.
#[verifier::external_body]
pub(crate) fn stable_cell_new(region: Region, value: Vec<u8>) -> (c: StableCell)
    requires
        value@.len() <= STABLE_CELL_MAX_SIZE,
    ensures
        stable_cell_bytes(c) == value@,
{
    StableCell { inner: ic_stable_structures::Cell::new(region.memory, value) }
}

/// `Cell::init`: writes `default_value` to an empty region, and reads the
/// value of the cell that a region holds. Either way the value is no
/// longer than a cell stores: a stored value is read with the 32-bit
/// length of its header. A region with anything else in it is left out.
#[verifier::external_body]
pub(crate) fn stable_cell_init(region: Region, default_value: Vec<u8>) -> (c: StableCell)
    requires
        default_value@.len() <= STABLE_CELL_MAX_SIZE,
        region_content(region) is Empty || region_content(region) is Cell,
    ensures
        stable_cell_bytes(c) == spec_opened_bytes(region_content(region), default_value@),
        stable_cell_bytes(c).len() <= STABLE_CELL_MAX_SIZE,
{
    StableCell { inner: ic_stable_structures::Cell::init(region.memory, default_value) }
}

/// `Cell::into_memory`: gives the region back, with the cell in it.
#[verifier::external_body]
pub(crate) fn stable_cell_into_memory(c: StableCell) -> (region: Region)
    ensures
        region_content(region) == RegionContent::Cell(stable_cell_bytes(c)),
{
    Region { memory: c.inner.into_memory() }
}

/// `Cell::get`: lends the value that the cell holds.
#[verifier::external_body]
pub(crate) fn stable_cell_get(c: &StableCell) -> (value: &Vec<u8>)
    ensures
        value@ == stable_cell_bytes(*c),
{
    c.inner.get()
}

/// `Cell::set`: writes `value` to the region and keeps it as the cell's
/// value.
#[verifier::external_body]
pub(crate) fn stable_cell_set(c: &mut StableCell, value: Vec<u8>)
    requires
        value@.len() <= STABLE_CELL_MAX_SIZE,
    ensures
        stable_cell_bytes(*final(c)) == value@,
{
    c.inner.set(value);
}

impl StableCell {
    /// Creates a cell that holds `value` in `memory`, whatever the region
    /// held.
    pub fn new(memory: Region, value: Vec<u8>) -> (cell: Self)
        requires
            Self::spec_accepts(value@),
        ensures
            cell.wf(),
            cell@ == value@,
    {
        stable_cell_new(memory, value)
    }

    /// Opens the cell that `memory` holds; an empty region gets
    /// `default_value` written.
    ///
    /// The region must be empty or hold a cell that this type wrote.
    pub fn init(memory: Region, default_value: Vec<u8>) -> (cell: Self)
        requires
            Self::spec_accepts(default_value@),
            memory@ is Empty || memory@ is Cell,
        ensures
            cell.wf(),
            cell@ == spec_opened_bytes(memory@, default_value@),
            memory@ is Empty ==> cell@ == default_value@,
    {
        stable_cell_init(memory, default_value)
    }

    /// Takes the cell apart and gives its region back, with the value in
    /// it.
    pub fn into_memory(self) -> (memory: Region)
        ensures
            memory@ == RegionContent::Cell(self@),
    {
        stable_cell_into_memory(self)
    }
}

impl CellStructure<Vec<u8>> for StableCell {
    /// What the cell holds is a value that a cell stores.
    open spec fn wf(&self) -> bool {
        Self::spec_accepts(self@)
    }

    closed spec fn view(&self) -> Seq<u8> {
        stable_cell_bytes(*self)
    }

    open spec fn spec_accepts(value: Seq<u8>) -> bool {
        value.len() <= STABLE_CELL_MAX_SIZE
    }

    fn get(&self) -> (value: Cow<'_, Vec<u8>>) {
        Cow::Borrowed(stable_cell_get(self))
    }

    fn set(&mut self, value: Vec<u8>) {
        stable_cell_set(self, value);
    }
}

} // verus!
