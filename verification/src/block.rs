//! Blocks: the runs of entries that a segment file is made of.
use std::sync::Arc;
use vstd::prelude::*;

verus! {

/// A sealed run of log entries in a segment file.
#[derive(Debug)]
pub struct Block<T> {
    pub id: u64,
    pub file_path: String,
    /// How many bytes of the block hold entries.
    pub used: u64,
    /// The mapped segment file; it stays mapped as long as the block exists.
    pub mmap: Arc<T>,
}

} // verus!
