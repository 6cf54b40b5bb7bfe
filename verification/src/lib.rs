//! Fixed-length buffers whose backing memory is pinned in RAM, so that
//! sensitive values (keys, secrets) held in them are never written out to
//! swap. A page-granular provider reserves and pins whole pages; a generic
//! owning container sizes, initializes, and releases such a region.

use vstd::prelude::*;

mod array;
mod element;
mod impl_unix;
mod layout;
mod region;

verus! {

pub use crate::array::UnswapArray;
pub use crate::element::Element;
pub use crate::impl_unix::UnixImpl;
pub use crate::layout::PAGE_SIZE;
pub use crate::layout::is_valid_region_size;
pub use crate::layout::round_up_to_page;
pub use crate::layout::spec_round_up_to_page;
pub use crate::layout::supports_alignment;
pub use crate::region::MemoryRegion;
pub use crate::region::zero_bytes;

/// Errors related to allocating and locking memory buffers.
#[derive(Clone, Copy, Debug, PartialEq, Eq, Structural)]
pub enum Error {
    /// The requested size was not a positive multiple of the page size.
    AlignError,
    /// An operating-system call (mapping or pinning) failed.
    OsError,
}

/// OS-specific memory management: page-granular "reserve pinned memory" and
/// "release memory" over exclusively owned regions. Exactly one
/// implementation is compiled into any given build.
pub trait OsImpl {
    /// Reserves a pinned region of exactly `size` bytes. A `size` that is
    /// not a positive multiple of the page size fails with `AlignError`
    /// before any OS call; a failing OS call yields `OsError`, and a region
    /// that was mapped but could not be pinned is released before the
    /// failure is reported.
    fn alloc_pages(size: usize) -> (r: Result<MemoryRegion, Error>)
        ensures
            !crate::layout::is_valid_region_size(size as int) ==> r is Err,
            r matches Err(e) ==> (e == Error::AlignError <==> !crate::layout::is_valid_region_size(
                size as int,
            )),
            r matches Ok(region) ==> crate::layout::is_valid_region_size(size as int),
            r matches Ok(region) ==> region.wf(),
            r matches Ok(region) ==> region.size_bytes() == size,
            r matches Ok(region) ==> region.bytes() == crate::region::zero_bytes(size as nat);

    /// Releases a reserved region, consuming it.
    fn free_pages(region: MemoryRegion);
}

} // verus!
