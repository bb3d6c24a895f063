//! The byte region backing a persistent array.
//!
//! The array's logic only needs a contiguous run of bytes it can measure,
//! read and write one position at a time. [`Region`] offers two such
//! stores: a file mapped read/write into memory with `memmap`, through
//! which every write reaches the backing file, and a plain in-memory
//! buffer, for callers (and tests) that provide durability themselves by
//! reading and writing whole byte blocks.
//!
//! The memory-mapped store is the trusted edge of this crate: `memmap`'s
//! mapped region is opaque here, so its length, reads and writes are relied
//! on through the small wrappers below, each of which states over
//! [`mmap_bytes`] what one `memmap` operation does. Each wrapper speaks of
//! a region exclusively held by this process; changes made to the backing
//! file from elsewhere while it is mapped are outside this model.

use vstd::prelude::*;

verus! {

/// `memmap::MmapMut`, declared so that a mapped region can be held and
/// passed around here; its inside stays opaque.
#[verifier::external_type_specification]
#[verifier::external_body]
pub struct ExMmapMut(memmap::MmapMut);

/// The bytes a mapped region currently holds.
pub uninterp spec fn mmap_bytes(m: memmap::MmapMut) -> Seq<u8>;

/// Relies on `memmap::MmapMut`'s slice view: `len` returns the length of
/// the mapped region in bytes.
#[verifier::external_body]
fn mmap_len(m: &memmap::MmapMut) -> (n: usize)
    ensures
        n == mmap_bytes(*m).len(),
{
    m.len()
}

/// Relies on `memmap::MmapMut`'s slice view: indexing within the region's
/// length reads the byte at that offset.
#[verifier::external_body]
fn mmap_read(m: &memmap::MmapMut, i: usize) -> (b: u8)
    requires
        i < mmap_bytes(*m).len(),
    ensures
        b == mmap_bytes(*m)[i as int],
{
    m[i]
}

/// Relies on `memmap::MmapMut`'s mutable slice view: assigning within the
/// region's length writes that byte and no other.
#[verifier::external_body]
fn mmap_write(m: &mut memmap::MmapMut, i: usize, b: u8)
    requires
        i < mmap_bytes(*old(m)).len(),
    ensures
        mmap_bytes(*final(m)) == mmap_bytes(*old(m)).update(i as int, b),
{
    m[i] = b;
}

/// A contiguous, readable and writable run of bytes: a file mapped
/// read/write into memory, or a plain in-memory buffer.
pub enum Region {
    /// A file's bytes mapped into memory; writes reach the backing file.
    Mapped(memmap::MmapMut),
    /// An in-memory buffer with no backing file of its own.
    Buffer(Vec<u8>),
}

impl View for Region {
    type V = Seq<u8>;

    open spec fn view(&self) -> Seq<u8> {
        match self {
            Region::Mapped(m) => mmap_bytes(*m),
            Region::Buffer(v) => v@,
        }
    }
}

impl Region {
    /// The region's length in bytes.
    pub fn len(&self) -> (n: usize)
        ensures
            n == self@.len(),
    {
        match self {
            Region::Mapped(m) => mmap_len(m),
            Region::Buffer(v) => v.len(),
        }
    }

    /// Reads the byte at offset `i`.
    pub fn read(&self, i: usize) -> (b: u8)
        requires
            i < self@.len(),
        ensures
            b == self@[i as int],
    {
        match self {
            Region::Mapped(m) => mmap_read(m, i),
            Region::Buffer(v) => *vstd::slice::slice_index_get(v.as_slice(), i),
        }
    }

    /// Writes `b` at offset `i`, leaving every other byte as it was.
    pub fn write(&mut self, i: usize, b: u8)
        requires
            i < old(self)@.len(),
        ensures
            final(self)@ == old(self)@.update(i as int, b),
    {
        match self {
            Region::Mapped(m) => mmap_write(m, i, b),
            Region::Buffer(v) => {
                v.set(i, b);
            },
        }
    }
}

} // verus!
