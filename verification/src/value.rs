//! The values that the store can hold: each kind with its compact binary
//! form, written and read by the codec crate.

use crate::error::StoreError;
use crate::scale::{
    bytes_encoding, bytes_prefix, decode_bytes, decode_u32, encode_bytes, encode_u32, le_bytes,
    lemma_bytes_round_trip, lemma_u32_round_trip, u32_prefix,
};
use vstd::prelude::*;

verus! {

/// A kind of value that the store can hold.
///
/// A value is written as `encoding` says and read back as `decoding` says.
/// Reading looks at the start of the stored bytes only: bytes that follow a
/// complete value are ignored.
pub trait Stored: Sized + View {
    /// Whether the value has an encoding.
    spec fn encodable(value: Self::V) -> bool;

    /// The bytes that stand for the value.
    spec fn encoding(value: Self::V) -> Seq<u8>;

    /// The value that the bytes start with, if any.
    spec fn decoding(bytes: Seq<u8>) -> Option<Self::V>;

    /// The bytes that stand for this value; `Encode` where it has none.
    fn encode(&self) -> (out: Result<Vec<u8>, StoreError>)
        ensures
            Self::encodable(self@) ==> out is Ok && out->Ok_0@ == Self::encoding(self@),
            !Self::encodable(self@) ==> out is Err && out->Err_0 == StoreError::Encode,
    ;

    /// The value that the bytes start with; `Decode` where there is none.
    fn decode(bytes: &[u8]) -> (out: Result<Self, StoreError>)
        ensures
            match Self::decoding(bytes@) {
                Some(value) => out is Ok && out->Ok_0@ == value,
                None => out is Err && out->Err_0 == StoreError::Decode,
            },
    ;

    /// A value is read back from its own encoding.
    proof fn lemma_round_trip(value: Self::V)
        requires
            Self::encodable(value),
        ensures
            Self::decoding(Self::encoding(value)) == Some(value),
    ;
}

impl Stored for u32 {
    open spec fn encodable(value: u32) -> bool {
        true
    }

    open spec fn encoding(value: u32) -> Seq<u8> {
        le_bytes(value)
    }

    open spec fn decoding(bytes: Seq<u8>) -> Option<u32> {
        match u32_prefix(bytes) {
            Some((value, _)) => Some(value),
            None => None,
        }
    }

    fn encode(&self) -> (out: Result<Vec<u8>, StoreError>) {
        Ok(encode_u32(*self))
    }

    fn decode(bytes: &[u8]) -> (out: Result<u32, StoreError>) {
        match decode_u32(bytes) {
            Ok((value, _)) => Ok(value),
            Err(_) => Err(StoreError::Decode),
        }
    }

    proof fn lemma_round_trip(value: u32) {
        lemma_u32_round_trip(value, Seq::empty());
        assert(le_bytes(value) + Seq::<u8>::empty() =~= le_bytes(value));
    }
}

impl Stored for Vec<u8> {
    open spec fn encodable(value: Seq<u8>) -> bool {
        value.len() <= u32::MAX
    }

    open spec fn encoding(value: Seq<u8>) -> Seq<u8> {
        bytes_encoding(value)
    }

    open spec fn decoding(bytes: Seq<u8>) -> Option<Seq<u8>> {
        match bytes_prefix(bytes) {
            Some((value, _)) => Some(value),
            None => None,
        }
    }

    fn encode(&self) -> (out: Result<Vec<u8>, StoreError>) {
        if self.len() > 0xFFFF_FFFF {
            Err(StoreError::Encode)
        } else {
            Ok(encode_bytes(self))
        }
    }

    fn decode(bytes: &[u8]) -> (out: Result<Vec<u8>, StoreError>) {
        match decode_bytes(bytes) {
            Ok((value, _)) => Ok(value),
            Err(_) => Err(StoreError::Decode),
        }
    }

    proof fn lemma_round_trip(value: Seq<u8>) {
        lemma_bytes_round_trip(value, Seq::empty());
        assert(bytes_encoding(value) + Seq::<u8>::empty() =~= bytes_encoding(value));
    }
}

} // verus!
