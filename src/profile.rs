//! The record kept between runs of the application.
//!
//! Reading and writing the stored bytes is left to the caller; this module decides
//! what the record is when loading failed, and how opening the demo changes it.
use vstd::prelude::*;

verus! {

/// Version tag under which the record is stored.
pub const SERIALIZATION_VERSION: &'static str = "0";

/// The data held in persistent storage.
#[derive(Clone, Copy, Debug, PartialEq, Eq, Structural)]
pub struct PersistentData {
    /// How many times the demo has been opened.
    pub open_count: u64,
}

impl PersistentData {
    /// The record of a first run.
    pub fn new() -> (r: Self)
        ensures
            r.open_count == 0,
    {
        PersistentData { open_count: 0 }
    }
}

/// Storage that persists between runs: the record loaded when it was opened, to be
/// saved back when it is closed.
pub struct PersistentStorage {
    data: PersistentData,
}

impl PersistentStorage {
    pub closed spec fn view(&self) -> PersistentData {
        self.data
    }

    /// Opens the storage on what loading gave: the loaded record, or a fresh one
    /// where loading failed.
    pub fn get(loaded: Option<PersistentData>) -> (r: Self)
        ensures
            r@ == (match loaded {
                Some(d) => d,
                None => PersistentData { open_count: 0 },
            }),
    {
        let data = match loaded {
            Some(d) => d,
            None => PersistentData::new(),
        };
        PersistentStorage { data }
    }

    /// The record as it stands.
    pub fn data(&self) -> (r: PersistentData)
        ensures
            r == self@,
    {
        self.data
    }

    /// Counts one more opening of the demo; the count stops at its largest value.
    pub fn record_open(&mut self)
        ensures
            final(self)@.open_count == (if old(self)@.open_count < u64::MAX {
                old(self)@.open_count + 1
            } else {
                old(self)@.open_count as int
            }),
    {
        if self.data.open_count < u64::MAX {
            self.data.open_count = self.data.open_count + 1;
        }
    }

    /// Closes the storage, handing back the record to save.
    pub fn close(self) -> (r: PersistentData)
        ensures
            r == self@,
    {
        self.data
    }
}

} // verus!
