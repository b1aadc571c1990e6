//! Submission entries: what this crate believes of `io_uring`.
use io_uring::squeue;
use vstd::prelude::*;

verus! {

/// `io_uring::squeue::Entry`, one request to the kernel. Its inside is not looked at.
#[verifier::external_type_specification]
#[verifier::external_body]
pub struct ExEntry(io_uring::squeue::Entry);

/// What a request asks for: the operation, the descriptor, the number under which
/// the kernel answers, the start and the length of the range (both zero for the
/// whole file), and the operation's flags.
pub uninterp spec fn entry_fields(entry: squeue::Entry) -> (u8, i32, u64, u64, u32, u32);

/// The operation `IORING_OP_FSYNC`.
pub const OP_FSYNC: u8 = 3;

/// The request asks to sync all of the file that the system knows as `raw_fd`,
/// data and metadata, and is answered under the number `user_data`.
pub open spec fn asks_to_sync(entry: squeue::Entry, raw_fd: i32, user_data: u64) -> bool {
    entry_fields(entry) == (OP_FSYNC, raw_fd, user_data, 0u64, 0u32, 0u32)
}

/// `io_uring::opcode::Fsync::new` on an `io_uring::types::Fd`, `Fsync::build`, and
/// `squeue::Entry::user_data`: the request to sync a file.
///
/// Claimed without proof: the request is an fsync of that descriptor over the whole
/// file, without flags, and bears that number.
#[verifier::external_body]
pub(crate) fn fsync_entry(raw_fd: i32, user_data: u64) -> (entry: squeue::Entry)
    ensures
        entry_fields(entry) == (OP_FSYNC, raw_fd, user_data, 0u64, 0u32, 0u32),
{
    io_uring::opcode::Fsync::new(io_uring::types::Fd(raw_fd)).build().user_data(user_data)
}

} // verus!
