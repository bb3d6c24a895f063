//! Opening's validation: which regions are accepted, and which error each
//! kind of damage produces, in the documented order — magic before size,
//! size before type identity.

use persistent_array::{Error, PersistentArray, Region};

/// A valid file of four u64 elements, built through the library itself.
fn valid_u64_file() -> Vec<u8> {
    let mut db = PersistentArray::<u64>::new(Region::Buffer(vec![0u8; 20 + 4 * 8]), 4).unwrap();
    db.set(0, 11);
    db.set(3, 44);
    match db.into_region() {
        Region::Buffer(bytes) => bytes,
        Region::Mapped(_) => panic!("expected an in-memory buffer"),
    }
}

#[test]
fn open_accepts_what_new_built() {
    let db = PersistentArray::<u64>::open(Region::Buffer(valid_u64_file())).unwrap();
    assert_eq!(db.len(), 4);
    assert_eq!(db.get(0), 11);
    assert_eq!(db.get(1), 0);
    assert_eq!(db.get(2), 0);
    assert_eq!(db.get(3), 44);
}

#[test]
fn open_rejects_short_region_as_wrong_file_size() {
    for len in [0usize, 1, 4, 19] {
        let result = PersistentArray::<u64>::open(Region::Buffer(vec![0u8; len]));
        assert!(matches!(result, Err(Error::WrongFileSize)));
    }
}

#[test]
fn open_rejects_bad_magic_as_wrong_magic_bytes() {
    let mut bytes = valid_u64_file();
    bytes[0] ^= 0xff;
    let result = PersistentArray::<u64>::open(Region::Buffer(bytes));
    assert!(matches!(result, Err(Error::WrongMagicBytes)));
}

#[test]
fn magic_is_checked_before_size_and_type() {
    // Garbage long enough for a header: every later check would also fail,
    // but the report is "not this format".
    let bytes = vec![0xabu8; 32];
    let result = PersistentArray::<u64>::open(Region::Buffer(bytes));
    assert!(matches!(result, Err(Error::WrongMagicBytes)));
}

#[test]
fn open_rejects_trailing_bytes_as_wrong_file_size() {
    let mut bytes = valid_u64_file();
    bytes.push(0);
    let result = PersistentArray::<u64>::open(Region::Buffer(bytes));
    assert!(matches!(result, Err(Error::WrongFileSize)));
}

#[test]
fn open_rejects_truncated_data_as_wrong_file_size() {
    let mut bytes = valid_u64_file();
    bytes.truncate(bytes.len() - 8);
    let result = PersistentArray::<u64>::open(Region::Buffer(bytes));
    assert!(matches!(result, Err(Error::WrongFileSize)));
}

#[test]
fn open_rejects_count_mismatch_as_wrong_file_size() {
    // Bump the stored element count without changing the region's length.
    let mut bytes = valid_u64_file();
    bytes[4] = 5;
    let result = PersistentArray::<u64>::open(Region::Buffer(bytes));
    assert!(matches!(result, Err(Error::WrongFileSize)));
}

#[test]
fn size_is_checked_before_type() {
    // Both the stored count and the fingerprint are damaged: size wins.
    let mut bytes = valid_u64_file();
    bytes[4] = 5;
    bytes[12] ^= 0xff;
    let result = PersistentArray::<u64>::open(Region::Buffer(bytes));
    assert!(matches!(result, Err(Error::WrongFileSize)));
}

#[test]
fn open_rejects_foreign_fingerprint_as_wrong_type_id() {
    let mut bytes = valid_u64_file();
    bytes[12] ^= 0xff;
    let result = PersistentArray::<u64>::open(Region::Buffer(bytes));
    assert!(matches!(result, Err(Error::WrongTypeId)));
}

#[test]
fn open_as_narrower_type_is_wrong_file_size() {
    // Four u64 slots hold 32 data bytes: as u32 the derived count is 8,
    // not the stored 4.
    let result = PersistentArray::<u32>::open(Region::Buffer(valid_u64_file()));
    assert!(matches!(result, Err(Error::WrongFileSize)));
}

#[test]
fn new_rejects_wrongly_sized_region() {
    let result = PersistentArray::<u64>::new(Region::Buffer(vec![0u8; 20 + 4 * 8 + 1]), 4);
    assert!(matches!(result, Err(Error::WrongFileSize)));
    let result = PersistentArray::<u64>::new(Region::Buffer(vec![0u8; 20 + 3 * 8]), 4);
    assert!(matches!(result, Err(Error::WrongFileSize)));
}
