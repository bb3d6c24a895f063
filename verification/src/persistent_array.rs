//! The persistent array: creation, opening with validation, and the typed
//! view over the element bytes.
//!
//! A region of `HEADER_SIZE + n * size` bytes holds a header followed by
//! `n` elements of a fixed-width type. `new` writes the header and fills
//! every slot with the element type's default value; `open` validates an
//! existing region — magic marker first, then total size, then the element
//! type's fingerprint — so that a file of some other format is reported as
//! not this format rather than as the wrong element type.

use core::marker::PhantomData;
use vstd::arithmetic::mul::{lemma_mul_inequality, lemma_mul_nonnegative};
use vstd::prelude::*;

use crate::element::Element;
use crate::header::{self, spec_decode, spec_encode, Header, HEADER_SIZE, MAGIC};
use crate::region::Region;

verus! {

/// `std::io::Error`, declared so that an I/O failure's cause can ride along
/// in [`Error::UnableToOpenFile`]; its inside stays opaque.
#[verifier::external_type_specification]
#[verifier::external_body]
pub struct ExIoError(std::io::Error);

/// Why a persistent array could not be created or opened. All four are
/// recoverable results, never panics.
#[derive(Debug)]
pub enum Error {
    /// An underlying I/O failure while creating, sizing, opening or mapping
    /// the backing file. Raised by the caller that performs the file
    /// operations; the in-memory validation here never produces it.
    UnableToOpenFile(std::io::Error),
    /// The region's first four bytes are not the format's magic marker.
    WrongMagicBytes,
    /// The region's length is inconsistent with the stored element count
    /// and the requested element type's width.
    WrongFileSize,
    /// The stored type fingerprint is not the requested element type's,
    /// though magic and size matched.
    WrongTypeId,
}

/// The bytes of element slot `i`: `spec_size` bytes starting right after
/// the header.
pub open spec fn spec_slot<T: Element>(bytes: Seq<u8>, i: int) -> Seq<u8> {
    bytes.subrange(
        HEADER_SIZE + i * T::spec_size(),
        HEADER_SIZE + (i + 1) * T::spec_size(),
    )
}

/// The `n` elements stored after the header of `bytes`.
pub open spec fn spec_elements<T: Element>(bytes: Seq<u8>, n: int) -> Seq<T> {
    Seq::new(n as nat, |i: int| T::dec(spec_slot::<T>(bytes, i)))
}

/// The region is long enough for a header and begins with the magic marker.
pub open spec fn magic_ok(bytes: Seq<u8>) -> bool {
    bytes.len() >= HEADER_SIZE && spec_decode(bytes).magic == MAGIC
}

/// The bytes after the header are exactly the stored element count's worth
/// of `T`-sized slots: no trailing data, and no disagreement between the
/// stored count and the region's length.
pub open spec fn size_ok<T: Element>(bytes: Seq<u8>) -> bool {
    bytes.len() - HEADER_SIZE == spec_decode(bytes).element_count * T::spec_size()
}

/// The stored type fingerprint is `T`'s.
pub open spec fn fingerprint_ok<T: Element>(bytes: Seq<u8>) -> bool {
    spec_decode(bytes).type_fingerprint == T::spec_tag()
}

/// A region that `open::<T>` accepts: long enough for a header, magic
/// marker present, length consistent with the stored count, fingerprint
/// matching `T`.
pub open spec fn valid_file<T: Element>(bytes: Seq<u8>) -> bool {
    &&& bytes.len() >= HEADER_SIZE
    &&& magic_ok(bytes)
    &&& size_ok::<T>(bytes)
    &&& fingerprint_ok::<T>(bytes)
}

/// A memory-mapped (or buffered) fixed-size array of `n` elements of a
/// fixed-width type `T`, usable like a slice through `get` and `set`.
pub struct PersistentArray<T: Element> {
    /// The backing bytes: header first, then the element slots.
    pub region: Region,
    /// Number of element slots; immutable for the life of the file.
    pub elements: u64,
    /// The element type the slots are read and written as.
    pub element_type: PhantomData<T>,
}

impl<T: Element> PersistentArray<T> {
    /// The handle's internal invariant: the region is exactly a header and
    /// `elements` slots, and the header records this handle's count and
    /// element type.
    pub open spec fn wf(self) -> bool {
        &&& self.region@.len() <= usize::MAX
        &&& self.region@.len() == HEADER_SIZE + self.elements * T::spec_size()
        &&& spec_decode(self.region@) == (Header {
            magic: MAGIC,
            element_count: self.elements,
            type_fingerprint: T::spec_tag(),
        })
    }
}

impl<T: Element> View for PersistentArray<T> {
    type V = Seq<T>;

    open spec fn view(&self) -> Seq<T> {
        spec_elements::<T>(self.region@, self.elements as int)
    }
}

/// Slot `i` of `n` lies between the header and the region's end.
proof fn lemma_slot_in_bounds<T: Element>(bytes_len: int, n: int, i: int)
    by (nonlinear_arith)
    requires
        bytes_len == HEADER_SIZE + n * T::spec_size(),
        T::spec_size() > 0,
        0 <= i < n,
    ensures
        0 <= i * T::spec_size(),
        (i + 1) * T::spec_size() == i * T::spec_size() + T::spec_size(),
        HEADER_SIZE + (i + 1) * T::spec_size() <= bytes_len,
        n <= n * T::spec_size(),
{
}

impl<T: Element> PersistentArray<T> {
    /// Creates a new persistent array over a freshly allocated region.
    ///
    /// The caller supplies a region of exactly `HEADER_SIZE + size *
    /// byte_size` bytes (for a file: created, truncated and sized, then
    /// mapped); any other length is rejected as `WrongFileSize`. On
    /// success the header has been written and every one of the `size`
    /// slots holds `T`'s default value, so no slot is ever exposed
    /// uninitialized.
    pub fn new(region: Region, size: u64) -> (result: Result<PersistentArray<T>, Error>)
        ensures
            result is Ok <==> region@.len() == HEADER_SIZE + size * T::spec_size(),
            result matches Ok(arr) ==> {
                &&& arr.wf()
                &&& arr.elements == size
                &&& arr@ == Seq::new(size as nat, |i: int| T::spec_default())
            },
            result matches Err(e) ==> e is WrongFileSize,
    {
        let len = region.len();
        let elem_size = T::byte_size();
        proof {
            T::lemma_size_positive();
            assert((size as int) * (elem_size as int)
                <= 0xffff_ffff_ffff_ffff * 0xffff_ffff_ffff_ffff) by (nonlinear_arith)
                requires
                    size <= 0xffff_ffff_ffff_ffff,
                    elem_size <= 0xffff_ffff_ffff_ffff,
            ;
            lemma_mul_nonnegative(size as int, T::spec_size() as int);
        }
        let expected: u128 = (HEADER_SIZE as u128) + (size as u128) * (elem_size as u128);
        if (len as u128) != expected {
            return Err(Error::WrongFileSize);
        }
        let mut region = region;
        let hdr = Header { magic: MAGIC, element_count: size, type_fingerprint: T::type_tag() };
        let header_bytes = header::encode(&hdr);
        write_bytes(&mut region, 0, &header_bytes);
        proof {
            assert(region@.subrange(0, HEADER_SIZE as int) =~= header_bytes@);
        }
        let default = T::default_value();
        let default_bytes = default.to_bytes();
        proof {
            T::lemma_enc_len(T::spec_default());
        }
        let mut i: u64 = 0;
        while i < size
            invariant
                i <= size,
                elem_size == T::spec_size(),
                T::spec_size() > 0,
                default_bytes@ == T::spec_default().enc(),
                default_bytes@.len() == T::spec_size(),
                region@.len() == HEADER_SIZE + size * T::spec_size(),
                region@.len() <= usize::MAX,
                region@.subrange(0, HEADER_SIZE as int) == header_bytes@,
                header_bytes@ == spec_encode(
                    Header { magic: MAGIC, element_count: size, type_fingerprint: T::spec_tag() },
                ),
                forall|k: int|
                    0 <= k < i ==> spec_slot::<T>(region@, k) == T::spec_default().enc(),
            decreases size - i,
        {
            proof {
                lemma_slot_in_bounds::<T>(region@.len() as int, size as int, i as int);
            }
            let offset = HEADER_SIZE + (i as usize) * elem_size;
            let ghost pre = region@;
            write_bytes(&mut region, offset, &default_bytes);
            proof {
                assert(region@.subrange(0, HEADER_SIZE as int) =~= header_bytes@);
                let s = T::spec_size() as int;
                assert forall|k: int|
                    0 <= k < i + 1 implies spec_slot::<T>(region@, k)
                    == T::spec_default().enc() by {
                    lemma_slot_in_bounds::<T>(region@.len() as int, size as int, k);
                    if k < i {
                        lemma_mul_inequality(k + 1, i as int, s);
                        assert(spec_slot::<T>(pre, k) == T::spec_default().enc());
                        assert forall|m: int|
                            0 <= m < s implies spec_slot::<T>(region@, k)[m]
                            == T::spec_default().enc()[m] by {
                            assert(spec_slot::<T>(region@, k)[m]
                                == region@[HEADER_SIZE + k * s + m]);
                            assert(region@[HEADER_SIZE + k * s + m]
                                == pre[HEADER_SIZE + k * s + m]);
                            assert(pre[HEADER_SIZE + k * s + m]
                                == spec_slot::<T>(pre, k)[m]);
                        }
                        assert(spec_slot::<T>(region@, k) =~= T::spec_default().enc());
                    } else {
                        assert forall|m: int|
                            0 <= m < s implies spec_slot::<T>(region@, k)[m]
                            == default_bytes@[m] by {
                            assert(spec_slot::<T>(region@, k)[m]
                                == region@[HEADER_SIZE + k * s + m]);
                            assert(region@[HEADER_SIZE + k * s + m] == default_bytes@[m]);
                        }
                        assert(spec_slot::<T>(region@, k) =~= default_bytes@);
                    }
                }
            }
            i = i + 1;
        }
        let arr = PersistentArray::<T> { region, elements: size, element_type: PhantomData };
        proof {
            let h = Header { magic: MAGIC, element_count: size, type_fingerprint: T::spec_tag() };
            header::lemma_header_round_trip(h);
            assert(arr.region@.subrange(0, 4) =~= header_bytes@.subrange(0, 4));
            assert(arr.region@.subrange(4, 12) =~= header_bytes@.subrange(4, 12));
            assert(arr.region@.subrange(12, 20) =~= header_bytes@.subrange(12, 20));
            T::lemma_dec_enc(T::spec_default());
            assert(arr@ =~= Seq::new(size as nat, |j: int| T::spec_default()));
        }
        Ok(arr)
    }

    /// Opens an existing persistent array held in `region`.
    ///
    /// Validation order matters for diagnostics: a region too short for a
    /// header, then the magic marker, then the length against the stored
    /// count, then the type fingerprint — so a file of some other format
    /// is reported as `WrongMagicBytes`, not as the wrong element type.
    pub fn open(region: Region) -> (result: Result<PersistentArray<T>, Error>)
        ensures
            result is Ok <==> valid_file::<T>(region@),
            result matches Ok(arr) ==> {
                &&& arr.wf()
                &&& arr.region@ == region@
                &&& arr.elements == spec_decode(region@).element_count
                &&& arr@ == spec_elements::<T>(
                    region@,
                    spec_decode(region@).element_count as int,
                )
            },
            result matches Err(e) ==> ((e is WrongFileSize) <==> (region@.len() < HEADER_SIZE
                || (magic_ok(region@) && !size_ok::<T>(region@)))),
            result matches Err(e) ==> ((e is WrongMagicBytes) <==> (region@.len() >= HEADER_SIZE
                && !magic_ok(region@))),
            result matches Err(e) ==> ((e is WrongTypeId) <==> (magic_ok(region@)
                && size_ok::<T>(region@) && !fingerprint_ok::<T>(region@))),
            result matches Err(e) ==> !(e is UnableToOpenFile),
    {
        let len = region.len();
        if len < HEADER_SIZE {
            return Err(Error::WrongFileSize);
        }
        let header_block = read_bytes(&region, 0, HEADER_SIZE);
        proof {
            assert(header_block@.subrange(0, 4) =~= region@.subrange(0, 4));
            assert(header_block@.subrange(4, 12) =~= region@.subrange(4, 12));
            assert(header_block@.subrange(12, 20) =~= region@.subrange(12, 20));
        }
        let hdr = match header::decode(header_block.as_slice()) {
            Some(h) => h,
            None => {
                return Err(Error::WrongFileSize);
            },
        };
        if hdr.magic != MAGIC {
            return Err(Error::WrongMagicBytes);
        }
        let elem_size = T::byte_size();
        proof {
            T::lemma_size_positive();
            assert((hdr.element_count as int) * (elem_size as int)
                <= 0xffff_ffff_ffff_ffff * 0xffff_ffff_ffff_ffff) by (nonlinear_arith)
                requires
                    hdr.element_count <= 0xffff_ffff_ffff_ffff,
                    elem_size <= 0xffff_ffff_ffff_ffff,
            ;
        }
        let data_len = len - HEADER_SIZE;
        let expected: u128 = (hdr.element_count as u128) * (elem_size as u128);
        if (data_len as u128) != expected {
            return Err(Error::WrongFileSize);
        }
        if hdr.type_fingerprint != T::type_tag() {
            return Err(Error::WrongTypeId);
        }
        let arr = PersistentArray::<T> {
            region,
            elements: hdr.element_count,
            element_type: PhantomData,
        };
        Ok(arr)
    }

    /// Number of elements the array holds, as recorded at creation.
    pub fn len(&self) -> (n: u64)
        ensures
            n == self.elements,
            n == self@.len(),
    {
        self.elements
    }

    /// Reads element `index`. Out-of-range access is excluded by
    /// precondition; callers that cannot establish it use `try_get`.
    pub fn get(&self, index: u64) -> (value: T)
        requires
            self.wf(),
            index < self.elements,
        ensures
            value == self@[index as int],
    {
        let elem_size = T::byte_size();
        proof {
            T::lemma_size_positive();
            lemma_slot_in_bounds::<T>(
                self.region@.len() as int,
                self.elements as int,
                index as int,
            );
        }
        let offset = HEADER_SIZE + (index as usize) * elem_size;
        let bytes = read_bytes(&self.region, offset, elem_size);
        proof {
            assert(bytes@ =~= spec_slot::<T>(self.region@, index as int));
        }
        T::from_bytes(bytes.as_slice())
    }

    /// Reads element `index`, or `None` exactly when `index` is out of
    /// range.
    pub fn try_get(&self, index: u64) -> (value: Option<T>)
        requires
            self.wf(),
        ensures
            value is Some <==> index < self@.len(),
            value matches Some(v) ==> v == self@[index as int],
    {
        if index < self.elements {
            Some(self.get(index))
        } else {
            None
        }
    }

    /// Writes `value` into element `index`, leaving every other element —
    /// and the header — as it was. The write is visible through the
    /// backing region immediately.
    pub fn set(&mut self, index: u64, value: T)
        requires
            old(self).wf(),
            index < old(self).elements,
        ensures
            final(self).wf(),
            final(self).elements == old(self).elements,
            final(self).region@.len() == old(self).region@.len(),
            final(self)@ == old(self)@.update(index as int, value),
    {
        let elem_size = T::byte_size();
        proof {
            T::lemma_size_positive();
            T::lemma_enc_len(value);
            lemma_slot_in_bounds::<T>(
                self.region@.len() as int,
                self.elements as int,
                index as int,
            );
        }
        let bytes = value.to_bytes();
        let offset = HEADER_SIZE + (index as usize) * elem_size;
        let ghost pre = self.region@;
        write_bytes(&mut self.region, offset, &bytes);
        proof {
            let s = T::spec_size() as int;
            assert(self.region@.subrange(0, 4) =~= pre.subrange(0, 4));
            assert(self.region@.subrange(4, 12) =~= pre.subrange(4, 12));
            assert(self.region@.subrange(12, 20) =~= pre.subrange(12, 20));
            T::lemma_dec_enc(value);
            assert forall|k: int|
                0 <= k < self.elements && k != index implies spec_slot::<T>(self.region@, k)
                == spec_slot::<T>(pre, k) by {
                lemma_slot_in_bounds::<T>(pre.len() as int, self.elements as int, k);
                if k < index {
                    lemma_mul_inequality(k + 1, index as int, s);
                } else {
                    lemma_mul_inequality(index as int + 1, k, s);
                }
                assert forall|m: int|
                    0 <= m < s implies spec_slot::<T>(self.region@, k)[m]
                    == spec_slot::<T>(pre, k)[m] by {
                    assert(spec_slot::<T>(self.region@, k)[m]
                        == self.region@[HEADER_SIZE + k * s + m]);
                    assert(self.region@[HEADER_SIZE + k * s + m]
                        == pre[HEADER_SIZE + k * s + m]);
                }
                assert(spec_slot::<T>(self.region@, k) =~= spec_slot::<T>(pre, k));
            }
            assert(spec_slot::<T>(self.region@, index as int) =~= value.enc());
            assert(self@ =~= old(self)@.update(index as int, value));
        }
    }

    /// Hands the backing region back, consuming the handle; for a mapped
    /// region this releases nothing until the region itself is dropped.
    pub fn into_region(self) -> (region: Region)
        ensures
            region@ == self.region@,
    {
        self.region
    }
}

/// Law (round trip through reopening): the backing bytes of any
/// well-formed array form a valid file for its element type, the stored
/// count is the array's count, and the elements decoded from those bytes
/// are exactly the array's elements. Together with `open`'s contract this
/// says that however an array was built — `new`, then any run of `set`s —
/// handing its region back to `open` succeeds and yields the same
/// elements, so a written value survives reopening.
pub proof fn lemma_reopen_round_trip<T: Element>(arr: PersistentArray<T>)
    requires
        arr.wf(),
    ensures
        valid_file::<T>(arr.region@),
        spec_decode(arr.region@).element_count == arr.elements,
        spec_elements::<T>(arr.region@, spec_decode(arr.region@).element_count as int) == arr@,
{
}

/// Law (width mismatch): the backing bytes of a well-formed, non-empty
/// array of element type `A` are never a valid file for a type `B` of a
/// different width — the stored count and the derived count disagree. With
/// `open`'s contract, opening them as `B` fails with `WrongFileSize`.
pub proof fn lemma_open_wrong_width_fails<A: Element, B: Element>(arr: PersistentArray<A>)
    requires
        arr.wf(),
        arr.elements > 0,
        A::spec_size() != B::spec_size(),
    ensures
        magic_ok(arr.region@),
        !size_ok::<B>(arr.region@),
        !valid_file::<B>(arr.region@),
{
    assert((arr.elements as int) * (A::spec_size() as int) != (arr.elements as int) * (
    B::spec_size() as int)) by (nonlinear_arith)
        requires
            arr.elements > 0,
            A::spec_size() != B::spec_size(),
    ;
}

/// Law (fingerprint mismatch): the backing bytes of a well-formed array of
/// element type `A` are never a valid file for a structurally distinct
/// type `B` of the same width — magic and size match, the fingerprint does
/// not. With `open`'s contract, opening them as `B` fails with
/// `WrongTypeId`.
pub proof fn lemma_open_wrong_fingerprint_fails<A: Element, B: Element>(
    arr: PersistentArray<A>,
)
    requires
        arr.wf(),
        A::spec_size() == B::spec_size(),
        A::spec_tag() != B::spec_tag(),
    ensures
        magic_ok(arr.region@),
        size_ok::<B>(arr.region@),
        !fingerprint_ok::<B>(arr.region@),
        !valid_file::<B>(arr.region@),
{
}

/// Reads `count` bytes of the region starting at `offset`.
fn read_bytes(region: &Region, offset: usize, count: usize) -> (bytes: Vec<u8>)
    requires
        offset + count <= region@.len() <= usize::MAX,
    ensures
        bytes@ == region@.subrange(offset as int, offset + count),
{
    let mut bytes: Vec<u8> = Vec::new();
    let mut i: usize = 0;
    while i < count
        invariant
            i <= count,
            offset + count <= region@.len() <= usize::MAX,
            bytes@ == region@.subrange(offset as int, offset + i),
        decreases count - i,
    {
        let b = region.read(offset + i);
        bytes.push(b);
        i = i + 1;
        proof {
            assert(bytes@ =~= region@.subrange(offset as int, offset + i));
        }
    }
    bytes
}

/// Writes `bytes` into the region starting at `offset`, leaving every byte
/// outside that range as it was.
fn write_bytes(region: &mut Region, offset: usize, bytes: &Vec<u8>)
    requires
        offset + bytes@.len() <= old(region)@.len() <= usize::MAX,
    ensures
        final(region)@.len() == old(region)@.len(),
        forall|k: int|
            0 <= k < bytes@.len() ==> final(region)@[offset + k] == bytes@[k],
        forall|k: int|
            0 <= k < old(region)@.len() && !(offset <= k < offset + bytes@.len())
                ==> final(region)@[k] == old(region)@[k],
{
    let count = bytes.len();
    let mut i: usize = 0;
    while i < count
        invariant
            i <= count == bytes@.len(),
            offset + count <= old(region)@.len() <= usize::MAX,
            region@.len() == old(region)@.len(),
            forall|k: int| 0 <= k < i ==> region@[offset + k] == bytes@[k],
            forall|k: int|
                0 <= k < old(region)@.len() && !(offset <= k < offset + i)
                    ==> region@[k] == old(region)@[k],
        decreases count - i,
    {
        region.write(offset + i, bytes[i]);
        i = i + 1;
    }
}

} // verus!
