//! The log of `ic_stable_structures` with byte strings as entries, in two
//! heap-backed regions, and what is taken on trust of it.

use crate::common::memory::{region_content, Region};
use ic_stable_structures::VectorMemory;
use vstd::prelude::*;

verus! {

/// The error with which the log of `ic_stable_structures` refuses an
/// entry.
#[verifier::external_type_specification]
pub struct ExWriteError(ic_stable_structures::log::WriteError);

/// A log of `ic_stable_structures` that holds byte strings, with its
/// index in one `VectorMemory` and its entries in another. Its layout is
/// the outside crate's; only the functions below touch it.
#[verifier::external_body]
pub struct StableLog {
    inner: ic_stable_structures::Log<Vec<u8>, VectorMemory, VectorMemory>,
}

/// The entries that a stable log holds, first to last.
pub uninterp spec fn stable_log_entries(log: StableLog) -> Seq<Seq<u8>>;

/// The entries of the log that two regions hold together, the first
/// with the index and the second with the entries, where they hold a log
/// in the layout that the log of this library opens.
pub uninterp spec fn stable_log_regions(index_region: Region, data_region: Region) -> Option<
    Seq<Seq<u8>>,
>;

/// Whether the two regions can be opened as a log: the region of the
/// entries is empty, or the two hold a log.
pub open spec fn spec_log_openable(index_region: Region, data_region: Region) -> bool {
    region_content(data_region) is Empty || stable_log_regions(index_region, data_region) is Some
}

/// The entries of the log that opening two regions gives: none where the
/// region of the entries is empty, and else those of the log they hold.
pub open spec fn spec_opened_log(index_region: Region, data_region: Region) -> Seq<Seq<u8>> {
    if region_content(data_region) is Empty {
        Seq::empty()
    } else {
        stable_log_regions(index_region, data_region)->0
    }
}

/// `Log::new`: formats the two regions as an empty log, whatever they
/// held.
#[verifier::external_body]
pub(crate) fn stable_log_new(index_region: Region, data_region: Region) -> (log: StableLog)
    ensures
        stable_log_entries(log).len() == 0,
{
    StableLog { inner: ic_stable_structures::Log::new(index_region.memory, data_region.memory) }
}

/// `Log::init`: formats the two regions as an empty log where the region
/// of the entries is empty, and recovers the log that the two hold.
/// Regions with anything else in them are left out.
#[verifier::external_body]
pub(crate) fn stable_log_init(index_region: Region, data_region: Region) -> (log: StableLog)
    requires
        spec_log_openable(index_region, data_region),
    ensures
        stable_log_entries(log) == spec_opened_log(index_region, data_region),
{
    StableLog { inner: ic_stable_structures::Log::init(index_region.memory, data_region.memory) }
}

/// `Log::into_memories`: gives the two regions back, the index first,
/// with the log in them.
#[verifier::external_body]
pub(crate) fn stable_log_into_memories(log: StableLog) -> (regions: (Region, Region))
    ensures
        stable_log_regions(regions.0, regions.1) == Some(stable_log_entries(log)),
        !(region_content(regions.1) is Empty),
{
    let (index_memory, data_memory) = log.inner.into_memories();
    (Region { memory: index_memory }, Region { memory: data_memory })
}

/// `Log::get`: reads the entry at `index` if it is below the stored
/// number of entries.
#[verifier::external_body]
pub(crate) fn stable_log_get(log: &StableLog, index: u64) -> (value: Option<Vec<u8>>)
    ensures
        match value {
            Some(v) => index < stable_log_entries(*log).len() && v@ == stable_log_entries(
                *log,
            )[index as int],
            None => index >= stable_log_entries(*log).len(),
        },
{
    log.inner.get(index)
}

/// `Log::append`: writes the entry behind the last one and returns its
/// index; where a region cannot grow, the stored number of entries stays
/// and the error is returned.
#[verifier::external_body]
pub(crate) fn stable_log_append(log: &mut StableLog, value: &Vec<u8>) -> (index: Result<
    u64,
    ic_stable_structures::log::WriteError,
>)
    ensures
        match index {
            Ok(i) => i == stable_log_entries(*old(log)).len() && stable_log_entries(*final(log))
                == stable_log_entries(*old(log)).push(value@),
            Err(_) => stable_log_entries(*final(log)) == stable_log_entries(*old(log)),
        },
{
    log.inner.append(value)
}

/// `Log::len`: the stored number of entries.
#[verifier::external_body]
pub(crate) fn stable_log_len(log: &StableLog) -> (len: u64)
    ensures
        len == stable_log_entries(*log).len(),
{
    log.inner.len()
}

} // verus!
