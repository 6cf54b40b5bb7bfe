//! A reserved region of pinned memory and its byte contents as the proofs
//! see them: an opaque mapping handle paired with its recorded size.

use vstd::prelude::*;
use crate::layout::is_valid_region_size;

verus! {

/// Makes Verus aware of memmap2's owned-mapping handle. A value of it is
/// opaque here; its contents are reached only through the trusted functions
/// of this crate.
#[verifier::external_type_specification]
#[verifier::external_body]
pub struct ExMmapMut(memmap2::MmapMut);

/// The byte contents of a mapping.
pub uninterp spec fn region_bytes(m: memmap2::MmapMut) -> Seq<u8>;

/// A sequence of `n` zero bytes.
pub open spec fn zero_bytes(n: nat) -> Seq<u8> {
    Seq::new(n, |i: int| 0u8)
}

/// Relies on memmap2::MmapMut's Deref to the mapped bytes: returns the byte
/// at `idx` of the region.
#[verifier::external_body]
fn map_read_byte(m: &memmap2::MmapMut, idx: usize) -> (r: u8)
    requires
        idx < region_bytes(*m).len(),
    ensures
        r == region_bytes(*m)[idx as int],
{
    m.as_ref()[idx]
}

/// Relies on memmap2::MmapMut's DerefMut to the mapped bytes: writes `b` at
/// `idx` of the region and changes no other byte.
#[verifier::external_body]
fn map_write_byte(m: &mut memmap2::MmapMut, idx: usize, b: u8)
    requires
        idx < region_bytes(*old(m)).len(),
    ensures
        region_bytes(*final(m)) == region_bytes(*old(m)).update(idx as int, b),
{
    m.as_mut()[idx] = b;
}

/// A contiguous region of memory reserved and pinned by the page provider
/// and not yet released. Exclusively owned: releasing it consumes it, and
/// dropping it releases it.
pub struct MemoryRegion {
    pub(crate) map: memmap2::MmapMut,
    pub(crate) size: usize,
}

impl MemoryRegion {
    /// The region's byte contents.
    pub closed spec fn bytes(self) -> Seq<u8> {
        region_bytes(self.map)
    }

    /// The region's length in bytes.
    pub closed spec fn size_bytes(self) -> int {
        self.size as int
    }

    /// A well-formed region covers a positive number of whole pages, and its
    /// recorded size is the length of its contents.
    pub open spec fn wf(self) -> bool {
        &&& is_valid_region_size(self.size_bytes())
        &&& self.size_bytes() <= usize::MAX
        &&& self.bytes().len() == self.size_bytes()
    }

    /// Pairs a mapping with its recorded size. Callers in this crate hand
    /// over a mapping they have reserved and pinned.
    pub(crate) fn from_map(map: memmap2::MmapMut, size: usize) -> (r: MemoryRegion)
        requires
            is_valid_region_size(size as int),
            region_bytes(map).len() == size,
        ensures
            r.wf(),
            r.size_bytes() == size,
            r.bytes() == region_bytes(map),
    {
        MemoryRegion { map, size }
    }

    /// The region's length in bytes.
    pub fn len(&self) -> (r: usize)
        ensures
            r == self.size_bytes(),
    {
        self.size
    }

    /// Reads the byte at `idx`.
    pub fn read_byte(&self, idx: usize) -> (r: u8)
        requires
            self.wf(),
            idx < self.size_bytes(),
        ensures
            r == self.bytes()[idx as int],
    {
        map_read_byte(&self.map, idx)
    }

    /// Writes `b` at `idx`, changing no other byte.
    pub fn write_byte(&mut self, idx: usize, b: u8)
        requires
            old(self).wf(),
            idx < old(self).size_bytes(),
        ensures
            final(self).wf(),
            final(self).size_bytes() == old(self).size_bytes(),
            final(self).bytes() == old(self).bytes().update(idx as int, b),
    {
        map_write_byte(&mut self.map, idx, b)
    }
}

} // verus!
