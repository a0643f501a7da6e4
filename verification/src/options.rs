//! The options a local store is opened with.

use crate::time::LeaseTime;
use vstd::prelude::*;

verus! {

/// The options a local store is opened with.
#[derive(Clone, Copy, Debug)]
pub struct LocalOptions {
    /// The most that the database of small files may hold, in bytes.
    pub files_max_size_bytes: usize,
    /// The most that the database of directories may hold, in bytes.
    pub directories_max_size_bytes: usize,
    /// For how long a blob counts as fresh after it was written or leased.
    pub lease_time: LeaseTime,
    /// The number of shards of each database.
    pub shard_count: u8,
}

} // verus!
