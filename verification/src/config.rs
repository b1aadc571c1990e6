//! How often written data is forced to disk.
use vstd::prelude::*;

verus! {

#[derive(Clone, Copy, Debug, PartialEq, Eq, Structural)]
pub enum FsyncSchedule {
    /// In the background, every so many milliseconds.
    Milliseconds(u64),
    /// With every single write.
    SyncEach,
    /// Never.
    NoFsync,
}

} // verus!
