//! Where the bytes of a segment file are kept: in a mapping or behind a file
//! descriptor.
//!
//! This module does not touch a file itself. `F` stands for an open file, which is
//! carried along; where bytes have to go to it or come from it, the functions say
//! so in their result.
use crate::config::FsyncSchedule;
use crate::mapping::{mapped, mapped_mut};
use crate::sync::WriteOnce;
use memmap2::MmapMut;
use vstd::prelude::*;

verus! {

/// An open file that is read and written at given positions.
#[derive(Debug)]
pub struct FdBackend<F> {
    pub file: F,
    /// The number by which the system knows the file.
    pub raw_fd: i32,
    /// The file's length when it was opened.
    pub len: usize,
}

impl<F> FdBackend<F> {
    /// Takes over a file whose metadata gave `metadata_len` as its length.
    pub fn new(file: F, raw_fd: i32, metadata_len: u64) -> (backend: Self)
        ensures
            backend.file == file,
            backend.raw_fd == raw_fd,
            backend.len == metadata_len as usize,
    {
        FdBackend { file, raw_fd, len: metadata_len as usize }
    }

    pub fn len(&self) -> (n: usize)
        ensures
            n == self.len,
    {
        self.len
    }

    pub fn file(&self) -> (file: &F)
        ensures
            *file == self.file,
    {
        &self.file
    }
}

/// What is left to do on the file after a read or a write.
#[derive(Clone, Copy, Debug, PartialEq, Eq, Structural)]
pub enum FileStep {
    /// Nothing: the bytes went through the mapping.
    Done,
    /// Transfer the same bytes at this position of the file. A failure, or a
    /// transfer of fewer bytes, is passed over.
    At(u64),
}

#[derive(Debug)]
pub enum StorageImpl<F> {
    Mmap(MmapMut),
    Fd(FdBackend<F>),
}

/// `bytes` with `data` written over it from `offset` on.
pub open spec fn overwritten(bytes: Seq<u8>, offset: int, data: Seq<u8>) -> Seq<u8> {
    Seq::new(
        bytes.len(),
        |i: int|
            if offset <= i < offset + data.len() {
                data[i - offset]
            } else {
                bytes[i]
            },
    )
}

impl<F> StorageImpl<F> {
    /// The length of the storage.
    pub open spec fn size(self) -> nat {
        match self {
            StorageImpl::Mmap(map) => crate::mapping::mapped_bytes(map).len(),
            StorageImpl::Fd(fd) => fd.len as nat,
        }
    }

    /// The storage after `data` went to `offset`: through the mapping, or not yet.
    pub open spec fn after_write(self, after: Self, offset: int, data: Seq<u8>) -> bool {
        match self {
            StorageImpl::Mmap(map) => {
                &&& after matches StorageImpl::Mmap(new_map)
                &&& crate::mapping::mapped_bytes(new_map) == overwritten(
                    crate::mapping::mapped_bytes(map),
                    offset,
                    data,
                )
            },
            StorageImpl::Fd(_) => after == self,
        }
    }

    /// What a read at `offset` leaves in a buffer that held `before`: the mapped
    /// bytes, or what was there.
    pub open spec fn after_read(self, before: Seq<u8>, offset: int) -> Seq<u8> {
        match self {
            StorageImpl::Mmap(map) => crate::mapping::mapped_bytes(map).subrange(
                offset,
                offset + before.len(),
            ),
            StorageImpl::Fd(_) => before,
        }
    }

    /// What a transfer at `offset` leaves to be done.
    pub open spec fn file_step(self, offset: usize) -> FileStep {
        match self {
            StorageImpl::Mmap(_) => FileStep::Done,
            StorageImpl::Fd(_) => FileStep::At(offset as u64),
        }
    }

    /// Writes `data` at `offset`.
    pub fn write(&mut self, offset: usize, data: &[u8]) -> (step: FileStep)
        requires
            *old(self) is Mmap ==> offset + data@.len() <= old(self).size(),
        ensures
            old(self).after_write(*final(self), offset as int, data@),
            final(self).size() == old(self).size(),
            step == old(self).file_step(offset),
            match *old(self) {
                StorageImpl::Mmap(map) => {
                    let was = crate::mapping::mapped_bytes(map);
                    &&& step == FileStep::Done
                    &&& *final(self) matches StorageImpl::Mmap(after)
                    &&& crate::mapping::mapped_bytes(after).len() == was.len()
                    &&& forall|i: int|
                        0 <= i < data@.len() ==> crate::mapping::mapped_bytes(after)[offset + i]
                            == #[trigger] data@[i]
                    &&& forall|i: int|
                        0 <= i < offset || offset + data@.len() <= i < was.len() ==> (
                        #[trigger] crate::mapping::mapped_bytes(after)[i]) == was[i]
                },
                StorageImpl::Fd(_) => step == FileStep::At(offset as u64) && *final(self) == *old(
                    self,
                ),
            },
    {
        match self {
            StorageImpl::Mmap(map) => {
                copy_into(mapped_mut(map), offset, data);
                FileStep::Done
            },
            StorageImpl::Fd(_) => FileStep::At(offset as u64),
        }
    }

    /// Reads at `offset` as many bytes as `dest` takes.
    pub fn read(&self, offset: usize, dest: &mut [u8]) -> (step: FileStep)
        requires
            *self is Mmap ==> offset + old(dest)@.len() <= self.size(),
        ensures
            final(dest)@ == self.after_read(old(dest)@, offset as int),
            step == self.file_step(offset),
            final(dest)@.len() == old(dest)@.len(),
            match *self {
                StorageImpl::Mmap(map) => {
                    &&& step == FileStep::Done
                    &&& forall|i: int|
                        0 <= i < final(dest)@.len() ==> #[trigger] final(dest)@[i]
                            == crate::mapping::mapped_bytes(map)[offset + i]
                },
                StorageImpl::Fd(_) => step == FileStep::At(offset as u64) && final(dest)@ == old(
                    dest,
                )@,
            },
    {
        match self {
            StorageImpl::Mmap(map) => {
                copy_from(dest, mapped(map), offset);
                FileStep::Done
            },
            StorageImpl::Fd(_) => FileStep::At(offset as u64),
        }
    }

    pub fn len(&self) -> (n: usize)
        ensures
            n == self.size(),
    {
        match self {
            StorageImpl::Mmap(map) => mapped(map).len(),
            StorageImpl::Fd(fd) => fd.len(),
        }
    }

    pub fn as_fd(&self) -> (fd: Option<&FdBackend<F>>)
        ensures
            match *self {
                StorageImpl::Mmap(_) => fd is None,
                StorageImpl::Fd(inner) => fd matches Some(f) && *f == inner,
            },
    {
        match self {
            StorageImpl::Mmap(_) => None,
            StorageImpl::Fd(fd) => Some(fd),
        }
    }
}

/// Writes `data` over `bytes` from `offset` on.
fn copy_into(bytes: &mut [u8], offset: usize, data: &[u8])
    requires
        offset + data@.len() <= old(bytes)@.len(),
    ensures
        final(bytes)@ == overwritten(old(bytes)@, offset as int, data@),
{
    let ghost before = bytes@;
    let n: usize = data.len();
    assert(before.len() == bytes.len());
    let mut i: usize = 0;
    while i < n
        invariant
            i <= n,
            n == data@.len(),
            offset + n <= before.len() <= usize::MAX,
            bytes@ == overwritten(before, offset as int, data@.take(i as int)),
        decreases n - i,
    {
        bytes[offset + i] = data[i];
        i += 1;
        assert(bytes@ =~= overwritten(before, offset as int, data@.take(i as int)));
    }
    assert(data@.take(n as int) =~= data@);
}

/// Fills `dest` from `bytes`, from `offset` on.
fn copy_from(dest: &mut [u8], bytes: &[u8], offset: usize)
    requires
        offset + old(dest)@.len() <= bytes@.len(),
    ensures
        final(dest)@ == bytes@.subrange(offset as int, offset + old(dest)@.len()),
{
    let n: usize = dest.len();
    assert(bytes@.len() == bytes.len());
    let mut i: usize = 0;
    while i < n
        invariant
            i <= n,
            n == dest@.len(),
            offset + n <= bytes@.len() <= usize::MAX,
            forall|j: int| 0 <= j < i ==> #[trigger] dest@[j] == bytes@[offset + j],
        decreases n - i,
    {
        dest[i] = bytes[offset + i];
        i += 1;
    }
    assert(dest@ =~= bytes@.subrange(offset as int, offset + n));
}

/// Records how data is forced to disk. The first call decides; later ones are
/// passed over.
pub fn set_fsync_schedule(cell: &mut WriteOnce<FsyncSchedule>, schedule: FsyncSchedule)
    ensures
        final(cell)@ == (match old(cell)@ {
            Some(first) => Some(first),
            None => Some(schedule),
        }),
{
    let _ = cell.set(schedule);
}

/// How data is forced to disk, if that was decided.
pub fn fsync_schedule(cell: &WriteOnce<FsyncSchedule>) -> (schedule: Option<FsyncSchedule>)
    ensures
        schedule == cell@,
{
    match cell.get() {
        Some(schedule) => Some(*schedule),
        None => None,
    }
}

/// Whether files have to be opened such that each write waits for the disk.
pub fn should_use_o_sync(cell: &WriteOnce<FsyncSchedule>) -> (o_sync: bool)
    ensures
        o_sync == (cell@ == Some(FsyncSchedule::SyncEach)),
{
    match cell.get() {
        Some(FsyncSchedule::SyncEach) => true,
        _ => false,
    }
}

/// How a segment file is to be opened, for reading and writing in either case.
#[derive(Debug)]
pub enum OpenPlan {
    /// As a descriptor; with `o_sync`, each write waits for the disk.
    Descriptor { path: String, o_sync: bool },
    /// As a mapping of the whole file.
    Mapping { path: String },
}

/// Decides how the segment file `path` is to be opened.
pub fn create_storage_impl(
    path: &str,
    use_fd_backend: bool,
    cell: &WriteOnce<FsyncSchedule>,
) -> (plan: OpenPlan)
    ensures
        match plan {
            OpenPlan::Descriptor { path: p, o_sync } => {
                &&& use_fd_backend
                &&& p@ == path@
                &&& o_sync == (cell@ == Some(FsyncSchedule::SyncEach))
            },
            OpenPlan::Mapping { path: p } => !use_fd_backend && p@ == path@,
        },
{
    if use_fd_backend {
        let o_sync: bool = should_use_o_sync(cell);
        OpenPlan::Descriptor { path: path.to_owned(), o_sync }
    } else {
        OpenPlan::Mapping { path: path.to_owned() }
    }
}

/// Decides how the segment file `path` is to be opened for being flushed.
pub fn open_storage_for_path(
    path: &str,
    use_fd_backend: bool,
    cell: &WriteOnce<FsyncSchedule>,
) -> (plan: OpenPlan)
    ensures
        match plan {
            OpenPlan::Descriptor { path: p, o_sync } => {
                &&& use_fd_backend
                &&& p@ == path@
                &&& o_sync == (cell@ == Some(FsyncSchedule::SyncEach))
            },
            OpenPlan::Mapping { path: p } => !use_fd_backend && p@ == path@,
        },
{
    create_storage_impl(path, use_fd_backend, cell)
}

/// The milliseconds of a time stamp: `since_epoch` counts from the start of 1970,
/// and is missing where the clock shows an earlier time. Of a count that is too
/// long the low 64 bits are taken.
pub open spec fn stamp_of(since_epoch: Option<u128>) -> u64 {
    match since_epoch {
        Some(ms) => ms as u64,
        None => 0,
    }
}

pub fn stamp(since_epoch: Option<u128>) -> (ms: u64)
    ensures
        ms == stamp_of(since_epoch),
        since_epoch is None ==> ms == 0,
        since_epoch matches Some(since) ==> since <= u64::MAX ==> ms == since,
{
    match since_epoch {
        Some(ms) => ms as u64,
        None => 0,
    }
}

/// A segment file that readers and writers share, and when it was last written.
#[derive(Debug)]
pub struct SharedMmap<F> {
    pub storage: StorageImpl<F>,
    pub last_touched_at: u64,
}

impl<F> SharedMmap<F> {
    /// Takes over a storage that was just opened.
    pub fn new(storage: StorageImpl<F>, since_epoch: Option<u128>) -> (shared: Self)
        ensures
            shared.storage == storage,
            shared.last_touched_at == stamp_of(since_epoch),
    {
        SharedMmap { storage, last_touched_at: stamp(since_epoch) }
    }

    /// Writes `data` at `offset`. When the bytes have reached the storage,
    /// [`SharedMmap::touch`] is to be called.
    pub fn write(&mut self, offset: usize, data: &[u8]) -> (step: FileStep)
        requires
            offset + data@.len() <= old(self).storage.size(),
        ensures
            old(self).storage.after_write(final(self).storage, offset as int, data@),
            final(self).storage.size() == old(self).storage.size(),
            final(self).last_touched_at == old(self).last_touched_at,
            step == old(self).storage.file_step(offset),
    {
        self.storage.write(offset, data)
    }

    /// Records when a write was finished.
    pub fn touch(&mut self, since_epoch: Option<u128>)
        ensures
            final(self).storage == old(self).storage,
            final(self).last_touched_at == stamp_of(since_epoch),
    {
        self.last_touched_at = stamp(since_epoch);
    }

    /// Reads at `offset` as many bytes as `dest` takes.
    pub fn read(&self, offset: usize, dest: &mut [u8]) -> (step: FileStep)
        requires
            offset + old(dest)@.len() <= self.storage.size(),
        ensures
            final(dest)@ == self.storage.after_read(old(dest)@, offset as int),
            step == self.storage.file_step(offset),
    {
        self.storage.read(offset, dest)
    }

    /// Writes `data` at `offset` if it fits there.
    pub fn try_write(&mut self, offset: usize, data: &[u8]) -> (step: Option<FileStep>)
        ensures
            match step {
                Some(s) => {
                    &&& offset + data@.len() <= old(self).storage.size()
                    &&& old(self).storage.after_write(final(self).storage, offset as int, data@)
                    &&& final(self).storage.size() == old(self).storage.size()
                    &&& final(self).last_touched_at == old(self).last_touched_at
                    &&& s == old(self).storage.file_step(offset)
                },
                None => {
                    &&& offset + data@.len() > old(self).storage.size()
                    &&& *final(self) == *old(self)
                },
            },
    {
        let len: usize = self.len();
        if offset <= len && data.len() <= len - offset {
            Some(self.write(offset, data))
        } else {
            None
        }
    }

    /// Reads at `offset` as many bytes as `dest` takes, if the storage has them.
    pub fn try_read(&self, offset: usize, dest: &mut [u8]) -> (step: Option<FileStep>)
        ensures
            match step {
                Some(s) => {
                    &&& offset + old(dest)@.len() <= self.storage.size()
                    &&& final(dest)@ == self.storage.after_read(old(dest)@, offset as int)
                    &&& s == self.storage.file_step(offset)
                },
                None => {
                    &&& offset + old(dest)@.len() > self.storage.size()
                    &&& final(dest)@ == old(dest)@
                },
            },
    {
        let len: usize = self.len();
        if offset <= len && dest.len() <= len - offset {
            Some(self.read(offset, dest))
        } else {
            None
        }
    }

    pub fn len(&self) -> (n: usize)
        ensures
            n == self.storage.size(),
    {
        self.storage.len()
    }

    pub fn storage(&self) -> (storage: &StorageImpl<F>)
        ensures
            *storage == self.storage,
    {
        &self.storage
    }
}

} // verus!
