//! The fixed-size on-disk header and its encode/decode rules.
//!
//! The header occupies the first [`HEADER_SIZE`] bytes of a file, with no
//! padding between fields, all multi-byte integers little-endian:
//!
//! - offset 0, 4 bytes: the magic marker `"PADB"`;
//! - offset 4, 8 bytes: the element count;
//! - offset 12, 8 bytes: the element type's fingerprint.
//!
//! Decoding does not validate field values (magic correctness and the like);
//! that is the job of the code that opens a file.

use vstd::bytes::*;
use vstd::prelude::*;
use vstd::slice::slice_subrange;

verus! {

/// Number of bytes the header occupies: four magic bytes, an eight-byte
/// element count and an eight-byte type fingerprint.
pub const HEADER_SIZE: usize = 20;

/// The magic marker `"PADB"` read as a little-endian 32-bit integer, so that
/// `'P' = 0x50` is the byte at offset 0 of the file.
pub const MAGIC: u32 = 0x42444150;

/// The decoded form of a file's first [`HEADER_SIZE`] bytes.
#[derive(Clone, Copy, Debug)]
pub struct Header {
    /// Marker identifying the file format; [`MAGIC`] in every valid file.
    pub magic: u32,
    /// Number of elements the file was created to hold.
    pub element_count: u64,
    /// Fingerprint of the element type the file was created with.
    pub type_fingerprint: u64,
}

/// The exact byte block that `encode` produces for a header.
pub open spec fn spec_encode(h: Header) -> Seq<u8> {
    spec_u32_to_le_bytes(h.magic) + spec_u64_to_le_bytes(h.element_count)
        + spec_u64_to_le_bytes(h.type_fingerprint)
}

/// The header stored in the first [`HEADER_SIZE`] bytes of `bytes`.
pub open spec fn spec_decode(bytes: Seq<u8>) -> Header
    recommends
        bytes.len() >= HEADER_SIZE,
{
    Header {
        magic: spec_u32_from_le_bytes(bytes.subrange(0, 4)),
        element_count: spec_u64_from_le_bytes(bytes.subrange(4, 12)),
        type_fingerprint: spec_u64_from_le_bytes(bytes.subrange(12, 20)),
    }
}

/// Encodes a header as its fixed-size byte block.
pub fn encode(h: &Header) -> (bytes: Vec<u8>)
    ensures
        bytes@ == spec_encode(*h),
        bytes@.len() == HEADER_SIZE,
{
    proof {
        lemma_auto_spec_u32_to_from_le_bytes();
        lemma_auto_spec_u64_to_from_le_bytes();
    }
    let mut bytes = u32_to_le_bytes(h.magic);
    let mut count = u64_to_le_bytes(h.element_count);
    let mut fingerprint = u64_to_le_bytes(h.type_fingerprint);
    bytes.append(&mut count);
    bytes.append(&mut fingerprint);
    bytes
}

/// Decodes the header from the first [`HEADER_SIZE`] bytes of `bytes`;
/// fails exactly when `bytes` is too short to hold one.
pub fn decode(bytes: &[u8]) -> (h: Option<Header>)
    ensures
        h is Some <==> bytes@.len() >= HEADER_SIZE,
        h matches Some(hdr) ==> hdr == spec_decode(bytes@),
{
    if bytes.len() < HEADER_SIZE {
        None
    } else {
        let magic = u32_from_le_bytes(slice_subrange(bytes, 0, 4));
        let element_count = u64_from_le_bytes(slice_subrange(bytes, 4, 12));
        let type_fingerprint = u64_from_le_bytes(slice_subrange(bytes, 12, 20));
        Some(Header { magic, element_count, type_fingerprint })
    }
}

/// Law: decoding an encoded header yields the header back, so the two
/// directions of the codec agree.
pub proof fn lemma_header_round_trip(h: Header)
    ensures
        spec_encode(h).len() == HEADER_SIZE,
        spec_decode(spec_encode(h)) == h,
{
    lemma_auto_spec_u32_to_from_le_bytes();
    lemma_auto_spec_u64_to_from_le_bytes();
    let b = spec_encode(h);
    assert(b.subrange(0, 4) =~= spec_u32_to_le_bytes(h.magic));
    assert(b.subrange(4, 12) =~= spec_u64_to_le_bytes(h.element_count));
    assert(b.subrange(12, 20) =~= spec_u64_to_le_bytes(h.type_fingerprint));
}

} // verus!
