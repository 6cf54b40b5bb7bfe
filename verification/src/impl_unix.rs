//! The page provider for Unix targets: an anonymous, private, read-write
//! mapping, pinned in physical memory with `mlock`, released by unmapping.

use vstd::prelude::*;
use crate::Error;
use crate::OsImpl;
use crate::layout::PAGE_SIZE;
use crate::region::MemoryRegion;
use crate::region::region_bytes;
use crate::region::zero_bytes;

verus! {

/// Relies on memmap2::MmapMut::map_anon: an anonymous, private, read-write
/// mapping of exactly `size` bytes, zero-filled by the operating system.
#[verifier::external_body]
fn map_anon(size: usize) -> (r: Option<memmap2::MmapMut>)
    requires
        1 <= size,
    ensures
        r matches Some(m) ==> region_bytes(m) == zero_bytes(size as nat),
{
    memmap2::MmapMut::map_anon(size).ok()
}

/// Relies on memmap2::MmapMut::lock: pins the whole mapping in physical
/// memory with `mlock`; returns whether pinning succeeded.
#[verifier::external_body]
fn lock_map(m: &memmap2::MmapMut) -> (r: bool) {
    m.lock().is_ok()
}

/// Relies on memmap2::MmapMut's Drop: consuming the handle unmaps the
/// region with `munmap`, which reports no failure.
#[verifier::external_body]
fn unmap(m: memmap2::MmapMut) {
    drop(m);
}

/// The one page provider compiled into this build.
pub struct UnixImpl;

impl OsImpl for UnixImpl {
    fn alloc_pages(size: usize) -> (r: Result<MemoryRegion, Error>) {
        if size == 0 || size % PAGE_SIZE != 0 {
            return Err(Error::AlignError);
        }
        match map_anon(size) {
            None => Err(Error::OsError),
            Some(m) => {
                if lock_map(&m) {
                    Ok(MemoryRegion::from_map(m, size))
                } else {
                    // The mapping was obtained but could not be pinned:
                    // release it before reporting failure, so that no
                    // reservation outlives the error.
                    unmap(m);
                    Err(Error::OsError)
                }
            },
        }
    }

    fn free_pages(region: MemoryRegion) {
        unmap(region.map);
    }
}

} // verus!
