//! The full lifecycle over a two-field record: create, write, persist,
//! reopen, and the three validation failures.

use persistent_array::{Element, Error, PersistentArray, Region};
use vstd::prelude::*;

fn u32_from_le(bytes: &[u8]) -> u32 {
    u32::from_le_bytes([bytes[0], bytes[1], bytes[2], bytes[3]])
}

#[derive(Debug, Copy, Clone, PartialEq)]
struct Pair {
    a: u32,
    b: u32,
}

// An `Element` impl written outside the verifier must still provide the
// trait's ghost items (`spec_*`, `enc`, `dec` and the `lemma_*` laws).
// They exist only for verification and are never called at run time, so
// each is a stub here, as in the other impls below.
impl Element for Pair {
    fn spec_size() -> nat {
        panic!()
    }

    fn spec_tag() -> u64 {
        panic!()
    }

    fn spec_default() -> Pair {
        panic!()
    }

    fn enc(self) -> Seq<u8> {
        panic!()
    }

    fn dec(_bytes: Seq<u8>) -> Pair {
        panic!()
    }

    fn lemma_size_positive() {
        panic!()
    }

    fn lemma_enc_len(self) {
        panic!()
    }

    fn lemma_dec_enc(self) {
        panic!()
    }

    fn byte_size() -> usize {
        8
    }

    fn type_tag() -> u64 {
        0x1001
    }

    fn default_value() -> Pair {
        Pair { a: 0xddaaddaa, b: 0xffeeffee }
    }

    fn to_bytes(&self) -> Vec<u8> {
        let mut bytes = self.a.to_le_bytes().to_vec();
        bytes.extend_from_slice(&self.b.to_le_bytes());
        bytes
    }

    fn from_bytes(bytes: &[u8]) -> Pair {
        Pair { a: u32_from_le(&bytes[0..4]), b: u32_from_le(&bytes[4..8]) }
    }
}

/// Same byte width as `Pair`, but a structurally distinct type: its
/// fingerprint differs.
#[derive(Debug, Default, Copy, Clone)]
struct OtherPair2 {
    a: u32,
    b: u32,
}

impl Element for OtherPair2 {
    fn spec_size() -> nat {
        panic!()
    }

    fn spec_tag() -> u64 {
        panic!()
    }

    fn spec_default() -> OtherPair2 {
        panic!()
    }

    fn enc(self) -> Seq<u8> {
        panic!()
    }

    fn dec(_bytes: Seq<u8>) -> OtherPair2 {
        panic!()
    }

    fn lemma_size_positive() {
        panic!()
    }

    fn lemma_enc_len(self) {
        panic!()
    }

    fn lemma_dec_enc(self) {
        panic!()
    }

    fn byte_size() -> usize {
        8
    }

    fn type_tag() -> u64 {
        0x1002
    }

    fn default_value() -> OtherPair2 {
        OtherPair2 { a: 0, b: 0 }
    }

    fn to_bytes(&self) -> Vec<u8> {
        let mut bytes = self.a.to_le_bytes().to_vec();
        bytes.extend_from_slice(&self.b.to_le_bytes());
        bytes
    }

    fn from_bytes(bytes: &[u8]) -> OtherPair2 {
        OtherPair2 { a: u32_from_le(&bytes[0..4]), b: u32_from_le(&bytes[4..8]) }
    }
}

/// A three-field variant of the same prefix: a different byte width, so a
/// file of `Pair`s has the wrong size for it.
#[derive(Debug, Default, Copy, Clone)]
struct Pair3 {
    a: u32,
    b: u32,
    c: u32,
}

impl Element for Pair3 {
    fn spec_size() -> nat {
        panic!()
    }

    fn spec_tag() -> u64 {
        panic!()
    }

    fn spec_default() -> Pair3 {
        panic!()
    }

    fn enc(self) -> Seq<u8> {
        panic!()
    }

    fn dec(_bytes: Seq<u8>) -> Pair3 {
        panic!()
    }

    fn lemma_size_positive() {
        panic!()
    }

    fn lemma_enc_len(self) {
        panic!()
    }

    fn lemma_dec_enc(self) {
        panic!()
    }

    fn byte_size() -> usize {
        12
    }

    fn type_tag() -> u64 {
        0x1003
    }

    fn default_value() -> Pair3 {
        Pair3 { a: 0, b: 0, c: 0 }
    }

    fn to_bytes(&self) -> Vec<u8> {
        let mut bytes = self.a.to_le_bytes().to_vec();
        bytes.extend_from_slice(&self.b.to_le_bytes());
        bytes.extend_from_slice(&self.c.to_le_bytes());
        bytes
    }

    fn from_bytes(bytes: &[u8]) -> Pair3 {
        Pair3 {
            a: u32_from_le(&bytes[0..4]),
            b: u32_from_le(&bytes[4..8]),
            c: u32_from_le(&bytes[8..12]),
        }
    }
}

fn buffer_for(elements: usize, element_size: usize) -> Region {
    Region::Buffer(vec![0u8; 20 + elements * element_size])
}

fn take_buffer(region: Region) -> Vec<u8> {
    match region {
        Region::Buffer(bytes) => bytes,
        Region::Mapped(_) => panic!("expected an in-memory buffer"),
    }
}

#[test]
fn test() {
    let dir = tempfile::tempdir().unwrap();
    let db_path = dir.path().join("pair.db");
    {
        let mut db = PersistentArray::<Pair>::new(buffer_for(1024, 8), 1024).unwrap();

        db.set(0, Pair { a: 1, b: 2 });

        assert_eq!(db.get(0).a, 1);
        assert_eq!(db.get(0).b, 2);

        assert_eq!(db.get(1023).a, 0xddaaddaa);
        assert_eq!(db.get(1023).b, 0xffeeffee);

        fs_err::write(&db_path, take_buffer(db.into_region())).unwrap();
    }
    {
        let bytes = fs_err::read(&db_path).unwrap();
        let db = PersistentArray::<Pair>::open(Region::Buffer(bytes)).unwrap();

        assert_eq!(db.len(), 1024);

        assert_eq!(db.get(0).a, 1);
        assert_eq!(db.get(0).b, 2);

        assert_eq!(db.get(1023).a, 0xddaaddaa);
        assert_eq!(db.get(1023).b, 0xffeeffee);
    }
    {
        let readme_path = dir.path().join("README.md");
        fs_err::write(&readme_path, "A scratch file of plain text, much longer than one header.")
            .unwrap();
        let bytes = fs_err::read(&readme_path).unwrap();
        let db = PersistentArray::<Pair>::open(Region::Buffer(bytes));

        match db {
            Err(Error::WrongMagicBytes) => (),
            _ => assert!(false),
        };
    }
    {
        let bytes = fs_err::read(&db_path).unwrap();
        let db = PersistentArray::<Pair3>::open(Region::Buffer(bytes));

        match db {
            Err(Error::WrongFileSize) => (),
            _ => assert!(false),
        };
    }
    {
        let bytes = fs_err::read(&db_path).unwrap();
        let db = PersistentArray::<OtherPair2>::open(Region::Buffer(bytes));

        match db {
            Err(Error::WrongTypeId) => (),
            _ => assert!(false),
        };
    }
}
