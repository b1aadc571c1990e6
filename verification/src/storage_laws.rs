//! What holds of storages whatever is written to them.
//!
//! A descriptor leaves a step to be done on its file. Here a file is taken as its
//! bytes, and a step as carried out in full; then a descriptor behaves as a mapping
//! does, and beyond that lets a file grow.
use crate::mapping::mapped_bytes;
use crate::storage::{stamp_of, FileStep, StorageImpl};
use vstd::prelude::*;

verus! {

/// The file after a write's step was carried out in full: `data` stands at the
/// position, and where the file was too short for it, zeros come before it.
pub open spec fn file_after_write(file: Seq<u8>, step: FileStep, data: Seq<u8>) -> Seq<u8> {
    match step {
        FileStep::Done => file,
        FileStep::At(at) => if data.len() == 0 {
            file
        } else {
            let len = if file.len() >= at + data.len() {
                file.len()
            } else {
                (at + data.len()) as nat
            };
            Seq::new(
                len,
                |i: int|
                    if at <= i < at + data.len() {
                        data[i - at]
                    } else if i < file.len() {
                        file[i]
                    } else {
                        0
                    },
            )
        },
    }
}

/// The buffer after a read's step was carried out in full: it holds what the file has
/// from the position on, and keeps its own bytes where the file has ended.
pub open spec fn buffer_after_read(file: Seq<u8>, step: FileStep, dest: Seq<u8>) -> Seq<u8> {
    match step {
        FileStep::Done => dest,
        FileStep::At(at) => Seq::new(
            dest.len(),
            |i: int|
                if at + i < file.len() {
                    file[at + i]
                } else {
                    dest[i]
                },
        ),
    }
}

/// What is in a buffer that held `dest` after it was read from `storage`, whose file
/// is `file`, and the step that is left was carried out.
pub open spec fn read_through<F>(
    storage: StorageImpl<F>,
    file: Seq<u8>,
    offset: usize,
    dest: Seq<u8>,
) -> Seq<u8> {
    buffer_after_read(file, storage.file_step(offset), storage.after_read(dest, offset as int))
}

/// A read gives back what was written there last, through a mapping as through a
/// descriptor.
pub proof fn law_read_gives_back_the_write<F>(
    before: StorageImpl<F>,
    after: StorageImpl<F>,
    file: Seq<u8>,
    offset: usize,
    data: Seq<u8>,
    dest: Seq<u8>,
)
    requires
        before is Mmap ==> offset + data.len() <= before.size(),
        before.after_write(after, offset as int, data),
        dest.len() == data.len(),
    ensures
        read_through(
            after,
            file_after_write(file, before.file_step(offset), data),
            offset,
            dest,
        ) == data,
{
    let now = file_after_write(file, before.file_step(offset), data);
    assert(read_through(after, now, offset, dest) =~= data);
}

/// A write leaves what is beside it as it was: a read that does not overlap it gives
/// what it gave before, unless it reaches into the gap between the end of a file and a
/// write behind that end, which is filled with zeros. The length that the storage
/// reports stays too.
pub proof fn law_write_leaves_the_rest<F>(
    before: StorageImpl<F>,
    after: StorageImpl<F>,
    file: Seq<u8>,
    offset: usize,
    data: Seq<u8>,
    dest: Seq<u8>,
    elsewhere: usize,
)
    requires
        before is Mmap ==> offset + data.len() <= before.size(),
        before.after_write(after, offset as int, data),
        before is Mmap ==> elsewhere + dest.len() <= before.size(),
        before is Fd ==> {
            ||| data.len() == 0
            ||| offset <= file.len()
            ||| offset + data.len() <= elsewhere
            ||| elsewhere + dest.len() <= file.len()
        },
        elsewhere + dest.len() <= offset || offset + data.len() <= elsewhere,
    ensures
        read_through(
            after,
            file_after_write(file, before.file_step(offset), data),
            elsewhere,
            dest,
        ) == read_through(before, file, elsewhere, dest),
        after.size() == before.size(),
{
    let now = file_after_write(file, before.file_step(offset), data);
    assert(read_through(after, now, elsewhere, dest) =~= read_through(
        before,
        file,
        elsewhere,
        dest,
    ));
}

/// After a write through a mapping, byte `offset + i` of the mapping is byte `i` of what
/// was written, and every other byte is what it was; there are as many as before.
pub proof fn law_written_bytes_stand_at_their_offset<F>(
    before: StorageImpl<F>,
    after: StorageImpl<F>,
    offset: int,
    data: Seq<u8>,
)
    requires
        before is Mmap,
        0 <= offset,
        offset + data.len() <= mapped_bytes(before->Mmap_0).len(),
        before.after_write(after, offset, data),
    ensures
        after is Mmap,
        ({
            let was = mapped_bytes(before->Mmap_0);
            let now = mapped_bytes(after->Mmap_0);
            &&& now.len() == was.len()
            &&& forall|i: int| 0 <= i < data.len() ==> now[offset + i] == #[trigger] data[i]
            &&& forall|i: int|
                0 <= i < offset || offset + data.len() <= i < was.len() ==> #[trigger] now[i]
                    == was[i]
        }),
{
}

/// Byte `i` of what is read through a mapping is byte `offset + i` of the mapping.
pub proof fn law_read_bytes_come_from_their_offset<F>(
    storage: StorageImpl<F>,
    offset: int,
    dest: Seq<u8>,
    i: int,
)
    requires
        storage is Mmap,
        0 <= offset,
        offset + dest.len() <= mapped_bytes(storage->Mmap_0).len(),
        0 <= i < dest.len(),
    ensures
        storage.after_read(dest, offset).len() == dest.len(),
        storage.after_read(dest, offset)[i] == mapped_bytes(storage->Mmap_0)[offset + i],
{
}

/// A mapping and a descriptor keep the same bytes: what a write leaves in a mapping is
/// what the descriptor's step leaves in a file that held the same bytes, and a read of
/// either gives the same.
pub proof fn law_mapping_agrees_with_the_file<F>(
    mapping: StorageImpl<F>,
    after: StorageImpl<F>,
    descriptor: StorageImpl<F>,
    offset: usize,
    data: Seq<u8>,
    dest: Seq<u8>,
)
    requires
        mapping is Mmap,
        descriptor is Fd,
        offset + data.len() <= mapped_bytes(mapping->Mmap_0).len(),
        offset + dest.len() <= mapped_bytes(mapping->Mmap_0).len(),
        mapping.after_write(after, offset as int, data),
    ensures
        mapped_bytes(after->Mmap_0) == file_after_write(
            mapped_bytes(mapping->Mmap_0),
            descriptor.file_step(offset),
            data,
        ),
        mapping.after_read(dest, offset as int) == buffer_after_read(
            mapped_bytes(mapping->Mmap_0),
            descriptor.file_step(offset),
            dest,
        ),
{
    let was = mapped_bytes(mapping->Mmap_0);
    let step = descriptor.file_step(offset);
    assert(mapped_bytes(after->Mmap_0) =~= file_after_write(was, step, data));
    assert(mapping.after_read(dest, offset as int) =~= buffer_after_read(was, step, dest));
}

/// A descriptor moves no bytes itself: a write leaves it as it is and a read leaves the
/// buffer as it is, and the step that is left goes to the offset that was asked for. A
/// mapping leaves no step.
pub proof fn law_step_goes_to_the_offset<F>(
    storage: StorageImpl<F>,
    after: StorageImpl<F>,
    offset: usize,
    data: Seq<u8>,
    dest: Seq<u8>,
)
    ensures
        storage is Mmap ==> storage.file_step(offset) == FileStep::Done,
        storage is Fd ==> {
            &&& storage.file_step(offset) == FileStep::At(offset as u64)
            &&& storage.after_write(after, offset as int, data) <==> after == storage
            &&& storage.after_read(dest, offset as int) == dest
        },
{
}

/// A storage is as long as its mapping is, or as its file was when it was opened.
pub proof fn law_size_is_the_length<F>(storage: StorageImpl<F>)
    ensures
        storage is Mmap ==> storage.size() == mapped_bytes(storage->Mmap_0).len(),
        storage is Fd ==> storage.size() == storage->Fd_0.len,
{
}

/// A stamp counts the milliseconds as they are while 64 bits can hold them, and in any
/// case their remainder; a clock that is before 1970 gives zero.
pub proof fn law_stamp_counts_milliseconds(ms: u128)
    ensures
        stamp_of(None) == 0,
        ms <= u64::MAX ==> stamp_of(Some(ms)) == ms,
        stamp_of(Some(ms)) == ms % 0x1_0000_0000_0000_0000u128,
{
    assert(ms as u64 == ms % 0x1_0000_0000_0000_0000u128) by (bit_vector);
}

} // verus!
