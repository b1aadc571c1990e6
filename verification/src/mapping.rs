//! Mapped files: what this crate believes of `memmap2`.
use memmap2::MmapMut;
use vstd::prelude::*;

verus! {

/// `memmap2::MmapMut`, a writable mapping. Its inside is not looked at.
#[verifier::external_type_specification]
#[verifier::external_body]
pub struct ExMmapMut(memmap2::MmapMut);

/// The bytes that a mapping shows, for as long as the mapping is the only way by
/// which they change. Whoever maps a file vouches for that: `MmapMut::map_mut` is
/// `unsafe` for this reason, and `memmap2` asks there that the file be left alone by
/// everybody else. A file that is mapped a second time only to be flushed is never
/// read through that second mapping.
pub uninterp spec fn mapped_bytes(map: MmapMut) -> Seq<u8>;

/// `<MmapMut as Deref>::deref`: the mapped bytes, to look at.
///
/// Claimed without proof: the slice covers the whole mapping and nothing else.
#[verifier::external_body]
pub(crate) fn mapped(map: &MmapMut) -> (bytes: &[u8])
    ensures
        bytes@ == mapped_bytes(*map),
{
    map
}

/// `<MmapMut as DerefMut>::deref_mut`: the mapped bytes, to change.
///
/// Claimed without proof: the slice covers the whole mapping and nothing else,
/// and the mapping shows what is left in the slice.
#[verifier::external_body]
pub(crate) fn mapped_mut(map: &mut MmapMut) -> (bytes: &mut [u8])
    ensures
        bytes@ == mapped_bytes(*old(map)),
        mapped_bytes(*final(map)) == final(bytes)@,
{
    map
}

} // verus!
