//! The capability an element type must have to be stored in a persistent
//! array.
//!
//! An element is a plain value with a fixed, statically known byte width: it
//! can be turned into exactly that many bytes and rebuilt from them, it has a
//! well-defined default value (used to initialize every slot of a fresh
//! array), and it carries a programmer-assigned fingerprint that identifies
//! its layout. The fingerprint is stored in a file's header when the file is
//! created and checked when the file is opened, so that a file written for
//! one element type is not silently reinterpreted as a structurally
//! different type of the same width. Keep a type's fingerprint stable for as
//! long as files written with it are in use, and give structurally different
//! types different fingerprints.
//!
//! Impls are provided for the unsigned integers `u8`, `u32` and `u64`,
//! little-endian on disk; their fingerprints are the `ELEMENT_TAG_*`
//! constants below.

use vstd::bytes::*;
use vstd::prelude::*;

verus! {

/// Fingerprint assigned to `u8` elements.
pub const ELEMENT_TAG_U8: u64 = 1;

/// Fingerprint assigned to `u32` elements.
pub const ELEMENT_TAG_U32: u64 = 2;

/// Fingerprint assigned to `u64` elements.
pub const ELEMENT_TAG_U64: u64 = 3;

/// A fixed-width, byte-copyable, default-constructible element type.
///
/// The three laws below make the byte codec an exact round trip, and every
/// impl must prove them; the array's contracts rest on nothing else about
/// the element type.
pub trait Element: Sized + Copy {
    /// The element's width on disk, in bytes.
    spec fn spec_size() -> nat;

    /// The element type's declared fingerprint.
    spec fn spec_tag() -> u64;

    /// The element's default value.
    spec fn spec_default() -> Self;

    /// The bytes that encode this element.
    spec fn enc(self) -> Seq<u8>;

    /// The element encoded by a block of [`Element::spec_size`] bytes.
    spec fn dec(bytes: Seq<u8>) -> Self;

    /// Law: an element occupies at least one byte.
    proof fn lemma_size_positive()
        ensures
            Self::spec_size() > 0,
    ;

    /// Law: an element encodes to exactly its declared width.
    proof fn lemma_enc_len(self)
        ensures
            self.enc().len() == Self::spec_size(),
    ;

    /// Law: decoding an encoded element yields the element back.
    proof fn lemma_dec_enc(self)
        ensures
            Self::dec(self.enc()) == self,
    ;

    /// The element's width on disk, in bytes.
    fn byte_size() -> (size: usize)
        ensures
            size == Self::spec_size(),
    ;

    /// The element type's declared fingerprint.
    fn type_tag() -> (tag: u64)
        ensures
            tag == Self::spec_tag(),
    ;

    /// The element's default value.
    fn default_value() -> (value: Self)
        ensures
            value == Self::spec_default(),
    ;

    /// Encodes this element as exactly [`Element::byte_size`] bytes.
    fn to_bytes(&self) -> (bytes: Vec<u8>)
        ensures
            bytes@ == self.enc(),
    ;

    /// Rebuilds an element from a block of exactly [`Element::byte_size`]
    /// bytes.
    fn from_bytes(bytes: &[u8]) -> (value: Self)
        requires
            bytes@.len() == Self::spec_size(),
        ensures
            value == Self::dec(bytes@),
    ;
}

impl Element for u8 {
    open spec fn spec_size() -> nat {
        1
    }

    open spec fn spec_tag() -> u64 {
        ELEMENT_TAG_U8
    }

    open spec fn spec_default() -> u8 {
        0
    }

    open spec fn enc(self) -> Seq<u8> {
        seq![self]
    }

    open spec fn dec(bytes: Seq<u8>) -> u8 {
        bytes[0]
    }

    proof fn lemma_size_positive() {
    }

    proof fn lemma_enc_len(self) {
    }

    proof fn lemma_dec_enc(self) {
    }

    fn byte_size() -> usize {
        1
    }

    fn type_tag() -> u64 {
        ELEMENT_TAG_U8
    }

    fn default_value() -> u8 {
        0
    }

    fn to_bytes(&self) -> (bytes: Vec<u8>) {
        let mut bytes: Vec<u8> = Vec::new();
        bytes.push(*self);
        proof {
            assert(bytes@ =~= self.enc());
        }
        bytes
    }

    fn from_bytes(bytes: &[u8]) -> u8 {
        *vstd::slice::slice_index_get(bytes, 0)
    }
}

impl Element for u32 {
    open spec fn spec_size() -> nat {
        4
    }

    open spec fn spec_tag() -> u64 {
        ELEMENT_TAG_U32
    }

    open spec fn spec_default() -> u32 {
        0
    }

    open spec fn enc(self) -> Seq<u8> {
        spec_u32_to_le_bytes(self)
    }

    open spec fn dec(bytes: Seq<u8>) -> u32 {
        spec_u32_from_le_bytes(bytes)
    }

    proof fn lemma_size_positive() {
    }

    proof fn lemma_enc_len(self) {
        lemma_auto_spec_u32_to_from_le_bytes();
    }

    proof fn lemma_dec_enc(self) {
        lemma_auto_spec_u32_to_from_le_bytes();
        assert(spec_u32_to_le_bytes(self).len() == 4);
    }

    fn byte_size() -> usize {
        4
    }

    fn type_tag() -> u64 {
        ELEMENT_TAG_U32
    }

    fn default_value() -> u32 {
        0
    }

    fn to_bytes(&self) -> (bytes: Vec<u8>) {
        u32_to_le_bytes(*self)
    }

    fn from_bytes(bytes: &[u8]) -> u32 {
        u32_from_le_bytes(bytes)
    }
}

impl Element for u64 {
    open spec fn spec_size() -> nat {
        8
    }

    open spec fn spec_tag() -> u64 {
        ELEMENT_TAG_U64
    }

    open spec fn spec_default() -> u64 {
        0
    }

    open spec fn enc(self) -> Seq<u8> {
        spec_u64_to_le_bytes(self)
    }

    open spec fn dec(bytes: Seq<u8>) -> u64 {
        spec_u64_from_le_bytes(bytes)
    }

    proof fn lemma_size_positive() {
    }

    proof fn lemma_enc_len(self) {
        lemma_auto_spec_u64_to_from_le_bytes();
    }

    proof fn lemma_dec_enc(self) {
        lemma_auto_spec_u64_to_from_le_bytes();
    }

    fn byte_size() -> usize {
        8
    }

    fn type_tag() -> u64 {
        ELEMENT_TAG_U64
    }

    fn default_value() -> u64 {
        0
    }

    fn to_bytes(&self) -> (bytes: Vec<u8>) {
        u64_to_le_bytes(*self)
    }

    fn from_bytes(bytes: &[u8]) -> u64 {
        u64_from_le_bytes(bytes)
    }
}

} // verus!
