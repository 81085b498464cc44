//! The count of resets: each reset inserts a row, whose id is the count so far.
use vstd::prelude::*;

verus! {

/// One row of `chaindexing_reset_counts`; `inserted_at` is kept as seconds since
/// the Unix epoch.
#[derive(Clone, Copy, Debug, PartialEq, Eq, Structural)]
pub struct ResetCount {
    id: i64,
    inserted_at: i64,
}

/// The highest number of resets a deployment may make.
pub const MAX_RESET_COUNT: u64 = 1_000;

impl ResetCount {
    /// The row with this id, inserted at `inserted_at` (seconds since the epoch).
    pub fn new(id: i64, inserted_at: i64) -> (row: Self)
        ensures
            row.id() == id,
            row.inserted_at() == inserted_at,
    {
        Self { id, inserted_at }
    }

    /// The row's id.
    pub closed spec fn id(self) -> i64 {
        self.id
    }

    /// When the row was inserted, in seconds since the epoch.
    pub closed spec fn inserted_at(self) -> i64 {
        self.inserted_at
    }

    /// The number of resets so far: the row's id read as an unsigned number.
    pub fn get_count(&self) -> (count: u64)
        ensures
            count == self.id() as u64,
    {
        self.id as u64
    }
}

} // verus!
