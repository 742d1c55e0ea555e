//! A memory map, as the run of bytes that it maps.
use memmap::MmapMut;
use vstd::prelude::*;

verus! {

/// `memmap::MmapMut`, a writable memory map.
#[verifier::external_type_specification]
#[verifier::external_body]
pub struct ExMmapMut(memmap::MmapMut);

/// The bytes that a map holds. They are the map's owner's alone to change: a map of a file is made
/// on the condition, which the one who makes it answers for, that nothing else writes to the file
/// while the map lasts.
pub uninterp spec fn mapped_bytes(map: MmapMut) -> Seq<u8>;

/// `MmapMut::deref`: the map's bytes.
#[verifier::external_body]
pub(crate) fn mapped(map: &MmapMut) -> (r: &[u8])
    ensures
        r@ == mapped_bytes(*map),
{
    &map[..]
}

/// `MmapMut::deref_mut`: the map's bytes, for writing. What is written there is what the map holds
/// afterwards.
#[verifier::external_body]
pub(crate) fn mapped_mut(map: &mut MmapMut) -> (r: &mut [u8])
    ensures
        r@ == mapped_bytes(*old(map)),
        mapped_bytes(*final(map)) == final(r)@,
{
    &mut map[..]
}

/// The number of bytes that the map holds.
pub fn mapped_len(map: &MmapMut) -> (r: usize)
    ensures
        r == mapped_bytes(*map).len(),
{
    mapped(map).len()
}

} // verus!
