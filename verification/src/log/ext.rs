//! A stable log that can be emptied in place.

use crate::common::memory::Region;
use crate::log::stable::{
    spec_log_openable, spec_opened_log, stable_log_append, stable_log_entries, stable_log_get,
    stable_log_init, stable_log_into_memories, stable_log_len, stable_log_new, stable_log_regions,
    StableLog,
};
use crate::log::structure::{LogStructure, LogWriteError};
use ic_stable_structures::log::WriteError;
use vstd::prelude::*;

verus! {

/// An append-only log of byte strings in two memory regions, which can
/// also be cleared.
pub struct LogExt {
    inner: Option<StableLog>,
}

/// The error of this library that stands for the one of the stable log.
pub open spec fn spec_write_error(error: WriteError) -> LogWriteError {
    match error {
        WriteError::GrowFailed { current_size, delta } => LogWriteError::GrowFailed {
            current_size,
            delta,
        },
    }
}

/// Turns the error of the stable log into the error of this library.
pub fn write_error(error: WriteError) -> (mapped: LogWriteError)
    ensures
        mapped == spec_write_error(error),
{
    match error {
        WriteError::GrowFailed { current_size, delta } => LogWriteError::GrowFailed {
            current_size,
            delta,
        },
    }
}

/// What an append returns for what the stable log returned: the index of
/// the new entry, or the error of this library that stands for the one of
/// the stable log.
pub open spec fn spec_append_result(outcome: Result<u64, WriteError>) -> Result<
    u64,
    LogWriteError,
> {
    match outcome {
        Ok(index) => Ok(index),
        Err(error) => Err(spec_write_error(error)),
    }
}

/// Turns what the stable log returned for an append into what this
/// library returns for it.
pub fn append_result(outcome: Result<u64, WriteError>) -> (index: Result<u64, LogWriteError>)
    ensures
        index == spec_append_result(outcome),
{
    match outcome {
        Ok(index) => Ok(index),
        Err(error) => Err(write_error(error)),
    }
}

impl LogExt {
    /// Creates an empty log in the two regions, whatever they held.
    pub fn new(index_memory: Region, data_memory: Region) -> (log: Self)
        ensures
            log.wf(),
            log@ == Seq::<Seq<u8>>::empty(),
    {
        let log = Self { inner: Some(stable_log_new(index_memory, data_memory)) };
        assert(log@ =~= Seq::<Seq<u8>>::empty());
        log
    }

    /// Opens the log that the two regions hold; where the region of the
    /// entries is empty, the two become an empty log.
    ///
    /// The region of the entries must be empty, or the two must hold a
    /// log that this type wrote.
    pub fn init(index_memory: Region, data_memory: Region) -> (log: Self)
        requires
            spec_log_openable(index_memory, data_memory),
        ensures
            log.wf(),
            log@ == spec_opened_log(index_memory, data_memory),
    {
        Self { inner: Some(stable_log_init(index_memory, data_memory)) }
    }

    /// Takes the log apart and gives its two regions back, the index
    /// first, with the entries in them: they can be opened again as this
    /// log.
    pub fn into_memories(self) -> (memories: (Region, Region))
        requires
            self.wf(),
        ensures
            stable_log_regions(memories.0, memories.1) == Some(self@),
            spec_log_openable(memories.0, memories.1),
            spec_opened_log(memories.0, memories.1) == self@,
    {
        match self.inner {
            Some(log) => stable_log_into_memories(log),
            None => (Region::new(), Region::new()),
        }
    }
}

impl LogStructure<Vec<u8>> for LogExt {
    closed spec fn wf(&self) -> bool {
        self.inner is Some
    }

    closed spec fn view(&self) -> Seq<Seq<u8>> {
        stable_log_entries(self.inner->0)
    }

    fn get(&self, index: u64) -> (value: Option<Vec<u8>>) {
        match &self.inner {
            Some(log) => stable_log_get(log, index),
            None => None,
        }
    }

    fn append(&mut self, value: Vec<u8>) -> (index: Result<u64, LogWriteError>) {
        match &mut self.inner {
            Some(log) => append_result(stable_log_append(log, &value)),
            None => Ok(0),
        }
    }

    fn len(&self) -> (len: u64) {
        match &self.inner {
            Some(log) => stable_log_len(log),
            None => 0,
        }
    }

    fn is_empty(&self) -> (empty: bool) {
        self.len() == 0
    }

    fn clear(&mut self) {
        if let Some(log) = self.inner.take() {
            let (index_memory, data_memory) = stable_log_into_memories(log);
            self.inner = Some(stable_log_new(index_memory, data_memory));
        }
        assert(self@ =~= Seq::<Seq<u8>>::empty());
    }
}

} // verus!
