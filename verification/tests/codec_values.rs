use parity_scale_codec::{Decode, Encode};
use partition_store::error::{StorageFault, StoreError};
use partition_store::record::{to_entry, Entry, Record};
use partition_store::value::Stored;

fn bytes_of_len(len: usize) -> Vec<u8> {
    (0..len).map(|i| (i % 251) as u8).collect()
}

#[test]
fn integer_is_four_little_endian_bytes() {
    assert_eq!(Stored::encode(&7u32), Ok(vec![7, 0, 0, 0]));
    assert_eq!(Stored::encode(&0x0102_0304u32), Ok(vec![4, 3, 2, 1]));
    assert_eq!(Stored::encode(&u32::MAX), Ok(vec![255, 255, 255, 255]));
    assert_eq!(<u32 as Stored>::decode(&[7, 0, 0, 0]), Ok(7));
    assert_eq!(<u32 as Stored>::decode(&[4, 3, 2, 1]), Ok(0x0102_0304));
}

#[test]
fn integer_ignores_what_follows() {
    assert_eq!(<u32 as Stored>::decode(&[1, 0, 0, 0, 99, 98]), Ok(1));
}

#[test]
fn short_integer_is_refused() {
    assert_eq!(<u32 as Stored>::decode(&[]), Err(StoreError::Decode));
    assert_eq!(<u32 as Stored>::decode(&[1, 2, 3]), Err(StoreError::Decode));
}

#[test]
fn byte_string_has_a_length_prefix() {
    assert_eq!(Stored::encode(&Vec::<u8>::new()), Ok(vec![0]));
    assert_eq!(Stored::encode(&vec![1u8, 2, 3]), Ok(vec![12, 1, 2, 3]));
    let v63 = bytes_of_len(63);
    let e63 = Stored::encode(&v63).unwrap();
    assert_eq!(e63.len(), 64);
    assert_eq!(e63[0], 252);
    let v64 = bytes_of_len(64);
    let e64 = Stored::encode(&v64).unwrap();
    assert_eq!(e64.len(), 66);
    assert_eq!(&e64[..2], &[1, 1]);
    let v16383 = bytes_of_len(16383);
    let e16383 = Stored::encode(&v16383).unwrap();
    assert_eq!(e16383.len(), 16385);
    assert_eq!(&e16383[..2], &[253, 255]);
    let v16384 = bytes_of_len(16384);
    let e16384 = Stored::encode(&v16384).unwrap();
    assert_eq!(e16384.len(), 16388);
    assert_eq!(&e16384[..4], &[2, 0, 1, 0]);
    assert_eq!(&e16384[4..], &v16384[..]);
}

#[test]
fn byte_string_round_trips() {
    for len in [0usize, 1, 2, 63, 64, 65, 255, 256, 16383, 16384, 16385, 70_000] {
        let value = bytes_of_len(len);
        let encoded = Stored::encode(&value).unwrap();
        assert_eq!(encoded, Encode::encode(&value));
        assert_eq!(<Vec<u8> as Stored>::decode(&encoded), Ok(value));
    }
}

#[test]
fn byte_string_ignores_what_follows() {
    assert_eq!(<Vec<u8> as Stored>::decode(&[8, 5, 6, 7, 7, 7]), Ok(vec![5, 6]));
}

#[test]
fn byte_string_with_missing_bytes_is_refused() {
    assert_eq!(<Vec<u8> as Stored>::decode(&[]), Err(StoreError::Decode));
    assert_eq!(<Vec<u8> as Stored>::decode(&[12, 1, 2]), Err(StoreError::Decode));
    assert_eq!(<Vec<u8> as Stored>::decode(&[1]), Err(StoreError::Decode));
    assert_eq!(<Vec<u8> as Stored>::decode(&[2, 0, 1]), Err(StoreError::Decode));
    assert_eq!(<Vec<u8> as Stored>::decode(&[3, 0, 0, 0]), Err(StoreError::Decode));
}

#[test]
fn overlong_length_prefix_is_refused() {
    // two bytes for a length that fits in one
    assert_eq!(<Vec<u8> as Stored>::decode(&[1, 0]), Err(StoreError::Decode));
    assert_eq!(<Vec<u8> as Stored>::decode(&[253, 0]), Err(StoreError::Decode));
    // four bytes for a length that fits in two
    assert_eq!(<Vec<u8> as Stored>::decode(&[2, 0, 0, 0]), Err(StoreError::Decode));
    assert_eq!(<Vec<u8> as Stored>::decode(&[254, 255, 0, 0]), Err(StoreError::Decode));
    // five bytes for a length that fits in four
    assert_eq!(<Vec<u8> as Stored>::decode(&[3, 1, 0, 0, 0, 9]), Err(StoreError::Decode));
    assert_eq!(<Vec<u8> as Stored>::decode(&[3, 255, 255, 255, 63]), Err(StoreError::Decode));
    // a prefix for a number of more than four bytes
    assert_eq!(<Vec<u8> as Stored>::decode(&[7, 0, 0, 0, 0, 1]), Err(StoreError::Decode));
}

#[test]
fn smallest_two_byte_length_is_accepted() {
    let mut stored = vec![1u8, 1];
    stored.extend(bytes_of_len(64));
    assert_eq!(<Vec<u8> as Stored>::decode(&stored), Ok(bytes_of_len(64)));
}

#[test]
fn five_byte_length_needs_its_bytes() {
    // a well-formed prefix for 2^30 bytes, with none of them there
    assert_eq!(<Vec<u8> as Stored>::decode(&[3, 0, 0, 0, 64]), Err(StoreError::Decode));
}

#[test]
fn record_is_its_fields_in_a_row() {
    let record = Record { value: vec![1, 2], publisher: vec![3], ttl: 5 };
    assert_eq!(Stored::encode(&record), Ok(vec![8, 1, 2, 4, 3, 5, 0, 0, 0]));
    assert_eq!(<Record as Stored>::decode(&[8, 1, 2, 4, 3, 5, 0, 0, 0]), Ok(record));
}

#[test]
fn record_matches_the_codec_on_a_tuple() {
    let record = Record { value: bytes_of_len(100), publisher: bytes_of_len(38), ttl: 86_400 };
    let tuple = (record.value.clone(), record.publisher.clone(), record.ttl);
    let encoded = Stored::encode(&record).unwrap();
    assert_eq!(encoded, Encode::encode(&tuple));
    let decoded = <(Vec<u8>, Vec<u8>, u32)>::decode(&mut &encoded[..]).unwrap();
    assert_eq!(decoded, tuple);
    assert_eq!(<Record as Stored>::decode(&encoded), Ok(record));
}

#[test]
fn record_round_trips() {
    for (a, b, ttl) in [(0usize, 0usize, 0u32), (1, 64, 1), (16384, 3, u32::MAX), (63, 16383, 7)] {
        let record = Record { value: bytes_of_len(a), publisher: bytes_of_len(b), ttl };
        let encoded = Stored::encode(&record).unwrap();
        assert_eq!(<Record as Stored>::decode(&encoded), Ok(record));
    }
}

#[test]
fn truncated_record_is_refused() {
    let record = Record { value: vec![1, 2], publisher: vec![3], ttl: 5 };
    let encoded = Stored::encode(&record).unwrap();
    for len in 0..encoded.len() {
        assert_eq!(<Record as Stored>::decode(&encoded[..len]), Err(StoreError::Decode));
    }
}

#[test]
fn entry_pairs_key_and_record() {
    let record = Record { value: vec![10, 11], publisher: vec![12, 13, 14], ttl: 3600 };
    let stored = Stored::encode(&record).unwrap();
    assert_eq!(to_entry(&[1, 2, 3], &stored), Ok(Entry(vec![1, 2, 3], record)));
}

#[test]
fn entry_of_bad_bytes_is_refused() {
    assert_eq!(to_entry(&[1, 2, 3], &[4, 1]), Err(StoreError::Decode));
}

#[test]
fn errors_have_their_texts() {
    assert_eq!(StoreError::Decode.message(), "Failed decoding the stored data");
    assert_eq!(StoreError::Encode.message(), "Failed encoding the value");
    assert_eq!(
        StoreError::Storage(StorageFault::PartitionMissing).message(),
        "Couldn't get Column Family handle from the engine"
    );
    assert_eq!(
        StoreError::Storage(StorageFault::Put).message(),
        "Put operation failed on the engine"
    );
    assert_eq!(
        StoreError::Storage(StorageFault::Get).message(),
        "Get operation failed on the engine"
    );
    assert_eq!(
        StoreError::Storage(StorageFault::Delete).message(),
        "Delete operation failed on the engine"
    );
    assert_eq!(StoreError::Storage(StorageFault::Scan).message(), "Expected value, got error");
}
