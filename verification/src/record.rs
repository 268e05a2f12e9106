//! Records of the distributed hash table as the store keeps them, and the
//! entries that a walk over their partition hands out.

use crate::error::StoreError;
use crate::scale::{
    bytes_encoding, bytes_prefix, decode_bytes, decode_u32, encode_bytes, encode_u32, le_bytes,
    lemma_bytes_round_trip, lemma_u32_round_trip, u32_prefix,
};
use crate::value::Stored;
use vstd::prelude::*;
use vstd::slice::slice_to_vec;

verus! {

/// What is stored of a record of the distributed hash table, beside its key.
#[derive(Clone, Debug, PartialEq, Eq)]
pub struct Record {
    /// The record's value.
    pub value: Vec<u8>,
    /// The peer that published the record, as bytes.
    pub publisher: Vec<u8>,
    /// The number of seconds after which the record expires.
    pub ttl: u32,
}

/// A record as a mathematical value.
pub ghost struct RecordView {
    pub value: Seq<u8>,
    pub publisher: Seq<u8>,
    pub ttl: u32,
}

impl View for Record {
    type V = RecordView;

    open spec fn view(&self) -> RecordView {
        RecordView { value: self.value@, publisher: self.publisher@, ttl: self.ttl }
    }
}

/// A record together with the raw key under which it is stored.
#[derive(Clone, Debug, PartialEq, Eq)]
pub struct Entry(pub Vec<u8>, pub Record);

impl View for Entry {
    type V = (Seq<u8>, RecordView);

    open spec fn view(&self) -> (Seq<u8>, RecordView) {
        (self.0@, self.1@)
    }
}

/// The bytes that stand for a record: its fields one after the other, each
/// in its own encoding.
pub open spec fn record_encoding(record: RecordView) -> Seq<u8> {
    bytes_encoding(record.value) + bytes_encoding(record.publisher) + le_bytes(record.ttl)
}

/// A record at the start of `s`, and what follows it.
pub open spec fn record_prefix(s: Seq<u8>) -> Option<(RecordView, Seq<u8>)> {
    match bytes_prefix(s) {
        Some((value, after_value)) => match bytes_prefix(after_value) {
            Some((publisher, after_publisher)) => match u32_prefix(after_publisher) {
                Some((ttl, rest)) => Some((RecordView { value, publisher, ttl }, rest)),
                None => None,
            },
            None => None,
        },
        None => None,
    }
}

/// A record is read back from its encoding, whatever follows it.
pub proof fn lemma_record_round_trip(record: RecordView, rest: Seq<u8>)
    requires
        record.value.len() <= u32::MAX,
        record.publisher.len() <= u32::MAX,
    ensures
        record_prefix(record_encoding(record) + rest) == Some((record, rest)),
{
    let tail = le_bytes(record.ttl) + rest;
    let middle = bytes_encoding(record.publisher) + tail;
    lemma_bytes_round_trip(record.value, middle);
    lemma_bytes_round_trip(record.publisher, tail);
    lemma_u32_round_trip(record.ttl, rest);
    assert(record_encoding(record) + rest =~= bytes_encoding(record.value) + middle);
}

impl Stored for Record {
    open spec fn encodable(value: RecordView) -> bool {
        value.value.len() <= u32::MAX && value.publisher.len() <= u32::MAX
    }

    open spec fn encoding(value: RecordView) -> Seq<u8> {
        record_encoding(value)
    }

    open spec fn decoding(bytes: Seq<u8>) -> Option<RecordView> {
        match record_prefix(bytes) {
            Some((value, _)) => Some(value),
            None => None,
        }
    }

    fn encode(&self) -> (out: Result<Vec<u8>, StoreError>) {
        if self.value.len() > 0xFFFF_FFFF || self.publisher.len() > 0xFFFF_FFFF {
            return Err(StoreError::Encode);
        }
        let mut out = encode_bytes(&self.value);
        let mut publisher = encode_bytes(&self.publisher);
        let mut ttl = encode_u32(self.ttl);
        out.append(&mut publisher);
        out.append(&mut ttl);
        Ok(out)
    }

    fn decode(bytes: &[u8]) -> (out: Result<Record, StoreError>) {
        let (value, after_value) = match decode_bytes(bytes) {
            Ok(read) => read,
            Err(_) => {
                return Err(StoreError::Decode);
            },
        };
        let (publisher, after_publisher) = match decode_bytes(after_value) {
            Ok(read) => read,
            Err(_) => {
                return Err(StoreError::Decode);
            },
        };
        match decode_u32(after_publisher) {
            Ok((ttl, _)) => Ok(Record { value, publisher, ttl }),
            Err(_) => Err(StoreError::Decode),
        }
    }

    proof fn lemma_round_trip(value: RecordView) {
        lemma_record_round_trip(value, Seq::empty());
        assert(record_encoding(value) + Seq::<u8>::empty() =~= record_encoding(value));
    }
}

/// The entry that a raw pair of the records' partition stands for.
pub open spec fn entry_of_pair(key: Seq<u8>, value: Seq<u8>) -> Result<
    (Seq<u8>, RecordView),
    StoreError,
> {
    match Record::decoding(value) {
        Some(record) => Ok((key, record)),
        None => Err(StoreError::Decode),
    }
}

/// Decodes the value of a raw pair as a record and pairs it with the key;
/// `Decode` where the value is no record.
pub fn to_entry(key: &[u8], value: &[u8]) -> (out: Result<Entry, StoreError>)
    ensures
        match entry_of_pair(key@, value@) {
            Ok(entry) => out is Ok && out->Ok_0@ == entry,
            Err(error) => out is Err && out->Err_0 == error,
        },
{
    match Record::decode(value) {
        Ok(record) => Ok(Entry(slice_to_vec(key), record)),
        Err(error) => Err(error),
    }
}

} // verus!
