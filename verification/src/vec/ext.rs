//! A stable vector that can be emptied in place.

use crate::common::memory::{Region, RegionContent};
use crate::vec::stable::{
    spec_opened_items, stable_vec_get, stable_vec_init, stable_vec_into_memory,
    stable_vec_is_empty, stable_vec_items, stable_vec_len, stable_vec_new, stable_vec_pop,
    stable_vec_push, stable_vec_set, stable_vec_to_vec, StableVec, STABLE_VEC_MAX_LEN,
};
use crate::vec::structure::VecStructure;
use vstd::prelude::*;

verus! {

/// A persistent analogue of `std::vec::Vec` for 64-bit items: an
/// integer-indexed collection in a memory region that is able to grow.
pub struct VecExt {
    inner: Option<StableVec>,
}

impl VecExt {
    /// Opens the vector that `memory` holds; an empty region becomes an
    /// empty vector.
    ///
    /// The region must be empty or hold a vector that this type wrote.
    pub fn init(memory: Region) -> (v: Self)
        requires
            memory@ is Empty || memory@ is Vector,
        ensures
            v.wf(),
            v@ == spec_opened_items(memory@),
            memory@ is Empty ==> v@ == Seq::<u64>::empty(),
    {
        Self { inner: Some(stable_vec_init(memory)) }
    }

    /// Creates an empty vector in `memory`, whatever the region held.
    pub fn new(memory: Region) -> (v: Self)
        ensures
            v.wf(),
            v@ == Seq::<u64>::empty(),
    {
        Self { inner: Some(stable_vec_new(memory)) }
    }

    /// Takes the vector apart and gives its region back, with the items
    /// in it.
    pub fn into_memory(self) -> (memory: Region)
        requires
            self.wf(),
        ensures
            memory@ == RegionContent::Vector(self@),
    {
        match self.inner {
            Some(v) => stable_vec_into_memory(v),
            None => Region::new(),
        }
    }

    /// Returns the items, first to last.
    pub fn iter(&self) -> (items: Vec<u64>)
        requires
            self.wf(),
        ensures
            items@ == self@,
    {
        match &self.inner {
            Some(v) => stable_vec_to_vec(v),
            None => Vec::new(),
        }
    }
}

impl VecStructure<u64> for VecExt {
    closed spec fn wf(&self) -> bool {
        self.inner is Some
    }

    closed spec fn view(&self) -> Seq<u64> {
        stable_vec_items(self.inner->0)
    }

    open spec fn spec_max_len() -> nat {
        STABLE_VEC_MAX_LEN as nat
    }

    fn max_len() -> (max: u64) {
        STABLE_VEC_MAX_LEN
    }

    fn is_empty(&self) -> (empty: bool) {
        match &self.inner {
            Some(v) => stable_vec_is_empty(v),
            None => true,
        }
    }

    fn clear(&mut self) {
        if let Some(vector) = self.inner.take() {
            let memory = stable_vec_into_memory(vector);
            self.inner = Some(stable_vec_new(memory));
        }
    }

    fn len(&self) -> (len: u64) {
        match &self.inner {
            Some(v) => stable_vec_len(v),
            None => 0,
        }
    }

    fn set(&mut self, index: u64, item: &u64) {
        match &mut self.inner {
            Some(v) => stable_vec_set(v, index, item),
            None => {},
        }
    }

    fn get(&self, index: u64) -> (item: Option<u64>) {
        match &self.inner {
            Some(v) => stable_vec_get(v, index),
            None => None,
        }
    }

    fn push(&mut self, item: &u64) {
        match &mut self.inner {
            Some(v) => stable_vec_push(v, item),
            None => {},
        }
    }

    fn pop(&mut self) -> (item: Option<u64>) {
        match &mut self.inner {
            Some(v) => stable_vec_pop(v),
            None => None,
        }
    }
}

} // verus!
