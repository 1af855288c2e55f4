//! Trusted view of a mutable memory map. The map is modelled as the
//! sequence of bytes it currently holds; each wrapper states what one
//! operation of `memmap::MmapMut` does to that sequence.

use vstd::prelude::*;

verus! {

#[verifier::external_type_specification]
#[verifier::external_body]
pub struct ExMmapMut(memmap::MmapMut);

/// The bytes a mutable memory map currently holds.
pub uninterp spec fn mmap_bytes(m: memmap::MmapMut) -> Seq<u8>;

/// Relies on `memmap::MmapMut`'s deref to `[u8]`: the mapped length in bytes.
#[verifier::external_body]
pub(crate) fn mmap_len(m: &memmap::MmapMut) -> (r: usize)
    ensures
        r == mmap_bytes(*m).len(),
{
    m.len()
}

/// Relies on `memmap::MmapMut`'s deref to `[u8]`: reads one mapped byte.
#[verifier::external_body]
pub(crate) fn mmap_read(m: &memmap::MmapMut, i: usize) -> (r: u8)
    requires
        i < mmap_bytes(*m).len(),
    ensures
        r == mmap_bytes(*m)[i as int],
{
    m[i]
}

/// Relies on `memmap::MmapMut`'s deref to `[u8]`: overwrites one mapped byte.
#[verifier::external_body]
pub(crate) fn mmap_write(m: &mut memmap::MmapMut, i: usize, b: u8)
    requires
        i < mmap_bytes(*old(m)).len(),
    ensures
        mmap_bytes(*final(m)) == mmap_bytes(*old(m)).update(i as int, b),
{
    m[i] = b;
}

/// Relies on `memmap::MmapMut::flush`: forces the mapped bytes to durable
/// storage and reports whether the underlying system call succeeded. The
/// call takes the map by shared reference and leaves its bytes untouched.
#[verifier::external_body]
pub(crate) fn mmap_flush(m: &memmap::MmapMut) -> (r: bool) {
    m.flush().is_ok()
}

} // verus!
