//! The compact binary form of the values that the store holds, as the codec
//! crate writes and reads it: little-endian integers, and byte strings behind
//! a length prefix of one, two, four or five bytes.

use vstd::prelude::*;

verus! {

/// The error of the codec crate.
#[verifier::external_type_specification]
#[verifier::external_body]
pub struct ExCodecError(parity_scale_codec::Error);

/// The four bytes of `n`, least significant first.
pub open spec fn le_bytes(n: u32) -> Seq<u8> {
    seq![
        (n % 0x100) as u8,
        (n / 0x100 % 0x100) as u8,
        (n / 0x1_0000 % 0x100) as u8,
        (n / 0x100_0000) as u8,
    ]
}

/// The number that the four little-endian bytes of `s` from `at` on stand for.
pub open spec fn le_value(s: Seq<u8>, at: int) -> int
    recommends
        0 <= at,
        at + 4 <= s.len(),
{
    s[at] as int + s[at + 1] as int * 0x100 + s[at + 2] as int * 0x1_0000 + s[at + 3] as int
        * 0x100_0000
}

/// The length prefix for `n`: the number shifted left by two bits, with the
/// mode in the low two bits, in one, two or four little-endian bytes; above
/// 2^30 - 1 a byte `3` and the number in four bytes.
pub open spec fn compact(n: u32) -> Seq<u8> {
    if n < 0x40 {
        seq![(4 * n) as u8]
    } else if n < 0x4000 {
        seq![((4 * n + 1) % 0x100) as u8, ((4 * n + 1) / 0x100) as u8]
    } else if n < 0x4000_0000 {
        le_bytes((4 * n + 2) as u32)
    } else {
        seq![3u8] + le_bytes(n)
    }
}

/// An integer at the start of `s`, and what follows it: `None` where `s` has
/// fewer than four bytes.
pub open spec fn u32_prefix(s: Seq<u8>) -> Option<(u32, Seq<u8>)> {
    if s.len() >= 4 {
        Some((le_value(s, 0) as u32, s.skip(4)))
    } else {
        None
    }
}

/// A length prefix at the start of `s`, and what follows it. A prefix that
/// is longer than its number needs is refused.
pub open spec fn compact_prefix(s: Seq<u8>) -> Option<(u32, Seq<u8>)> {
    if s.len() == 0 {
        None
    } else if s[0] % 4 == 0 {
        Some(((s[0] / 4) as u32, s.skip(1)))
    } else if s[0] % 4 == 1 {
        if s.len() >= 2 && (s[0] as int + s[1] as int * 0x100) / 4 >= 0x40 {
            Some((((s[0] as int + s[1] as int * 0x100) / 4) as u32, s.skip(2)))
        } else {
            None
        }
    } else if s[0] % 4 == 2 {
        if s.len() >= 4 && le_value(s, 0) / 4 >= 0x4000 {
            Some(((le_value(s, 0) / 4) as u32, s.skip(4)))
        } else {
            None
        }
    } else {
        if s[0] == 3 && s.len() >= 5 && le_value(s, 1) >= 0x4000_0000 {
            Some((le_value(s, 1) as u32, s.skip(5)))
        } else {
            None
        }
    }
}

/// A byte string at the start of `s`, and what follows it: a length prefix,
/// then as many bytes as it says. `None` where the prefix is refused or
/// fewer bytes follow it.
pub open spec fn bytes_prefix(s: Seq<u8>) -> Option<(Seq<u8>, Seq<u8>)> {
    match compact_prefix(s) {
        Some((n, rest)) => if n <= rest.len() {
            Some((rest.take(n as int), rest.skip(n as int)))
        } else {
            None
        },
        None => None,
    }
}

/// The encoding of a byte string: its length prefix, then its bytes.
pub open spec fn bytes_encoding(value: Seq<u8>) -> Seq<u8>
    recommends
        value.len() <= u32::MAX,
{
    compact(value.len() as u32) + value
}

/// An integer is read back from its bytes, whatever follows them.
pub proof fn lemma_u32_round_trip(n: u32, rest: Seq<u8>)
    ensures
        u32_prefix(le_bytes(n) + rest) == Some((n, rest)),
{
    let s = le_bytes(n) + rest;
    assert(s.skip(4) =~= rest);
    assert(s[0] == le_bytes(n)[0] && s[1] == le_bytes(n)[1] && s[2] == le_bytes(n)[2] && s[3]
        == le_bytes(n)[3]);
}

/// The little-endian bytes of a number stand for that number.
pub proof fn lemma_le_value(n: u32)
    ensures
        le_bytes(n).len() == 4,
        le_value(le_bytes(n), 0) == n,
{
}

/// A length below 2^6 is read back from its prefix of one byte.
proof fn lemma_compact_one(n: u32, rest: Seq<u8>)
    requires
        n < 0x40,
    ensures
        compact_prefix(compact(n) + rest) == Some((n, rest)),
{
    let s = compact(n) + rest;
    assert(s[0] == (4 * n) as u8);
    assert(s.skip(1) =~= rest);
}

/// A length below 2^14 is read back from its prefix of two bytes.
proof fn lemma_compact_two(n: u32, rest: Seq<u8>)
    requires
        0x40 <= n < 0x4000,
    ensures
        compact_prefix(compact(n) + rest) == Some((n, rest)),
{
    let x: int = 4 * n + 1;
    let s = compact(n) + rest;
    assert(s[0] == (x % 0x100) as u8);
    assert(s[1] == (x / 0x100) as u8);
    assert(s[0] as int + s[1] as int * 0x100 == x);
    assert(s[0] as int % 4 == 1);
    assert(s.skip(2) =~= rest);
}

/// A length below 2^30 is read back from its prefix of four bytes.
proof fn lemma_compact_four(n: u32, rest: Seq<u8>)
    requires
        0x4000 <= n < 0x4000_0000,
    ensures
        compact_prefix(compact(n) + rest) == Some((n, rest)),
{
    let x: u32 = (4 * n + 2) as u32;
    let c = le_bytes(x);
    let s = compact(n) + rest;
    lemma_le_value(x);
    assert(s[0] == c[0] && s[1] == c[1] && s[2] == c[2] && s[3] == c[3]);
    assert(le_value(s, 0) == x);
    assert(s[0] as int == x % 0x100);
    assert(s[0] as int % 4 == 2);
    assert(s.skip(4) =~= rest);
}

/// A length of 2^30 or more is read back from its prefix of five bytes.
proof fn lemma_compact_five(n: u32, rest: Seq<u8>)
    requires
        0x4000_0000 <= n,
    ensures
        compact_prefix(compact(n) + rest) == Some((n, rest)),
{
    let c = le_bytes(n);
    let s = compact(n) + rest;
    lemma_le_value(n);
    assert(s[0] == 3u8);
    assert(s[1] == c[0] && s[2] == c[1] && s[3] == c[2] && s[4] == c[3]);
    assert(le_value(s, 1) == n);
    assert(s.skip(5) =~= rest);
}

/// A length is read back from its prefix, whatever follows it.
pub proof fn lemma_compact_round_trip(n: u32, rest: Seq<u8>)
    ensures
        compact_prefix(compact(n) + rest) == Some((n, rest)),
{
    if n < 0x40 {
        lemma_compact_one(n, rest);
    } else if n < 0x4000 {
        lemma_compact_two(n, rest);
    } else if n < 0x4000_0000 {
        lemma_compact_four(n, rest);
    } else {
        lemma_compact_five(n, rest);
    }
}

/// A byte string is read back from its encoding, whatever follows it.
pub proof fn lemma_bytes_round_trip(value: Seq<u8>, rest: Seq<u8>)
    requires
        value.len() <= u32::MAX,
    ensures
        bytes_prefix(bytes_encoding(value) + rest) == Some((value, rest)),
{
    let n = value.len() as u32;
    lemma_compact_round_trip(n, value + rest);
    assert(bytes_encoding(value) + rest =~= compact(n) + (value + rest));
    assert((value + rest).take(n as int) =~= value);
    assert((value + rest).skip(n as int) =~= rest);
}

/// `<u32 as Encode>::encode` of the codec crate: the integer's four bytes,
/// least significant first.
#[verifier::external_body]
pub(crate) fn encode_u32(value: u32) -> (out: Vec<u8>)
    ensures
        out@ == le_bytes(value),
{
    parity_scale_codec::Encode::encode(&value)
}

/// `<Vec<u8> as Encode>::encode` of the codec crate: the length prefix, then
/// the bytes. It panics on a length above `u32::MAX`, which `requires` leaves
/// out.
#[verifier::external_body]
pub(crate) fn encode_bytes(value: &Vec<u8>) -> (out: Vec<u8>)
    requires
        value@.len() <= u32::MAX,
    ensures
        out@ == bytes_encoding(value@),
{
    parity_scale_codec::Encode::encode(value)
}

/// `<u32 as Decode>::decode` of the codec crate on a slice: it reads four
/// bytes, least significant first, and fails where fewer are left. The second
/// part of the result is the input that it did not read.
#[verifier::external_body]
pub(crate) fn decode_u32<'a>(input: &'a [u8]) -> (out: Result<
    (u32, &'a [u8]),
    parity_scale_codec::Error,
>)
    ensures
        match u32_prefix(input@) {
            Some((value, rest)) => out is Ok && out->Ok_0.0 == value && out->Ok_0.1@ == rest,
            None => out is Err,
        },
{
    let mut rest = input;
    match <u32 as parity_scale_codec::Decode>::decode(&mut rest) {
        Ok(value) => Ok((value, rest)),
        Err(error) => Err(error),
    }
}

/// `<Vec<u8> as Decode>::decode` of the codec crate on a slice: it reads a
/// length prefix and then that many bytes, and fails where the prefix is
/// refused or fewer bytes are left. The second part of the result is the
/// input that it did not read.
#[verifier::external_body]
pub(crate) fn decode_bytes<'a>(input: &'a [u8]) -> (out: Result<
    (Vec<u8>, &'a [u8]),
    parity_scale_codec::Error,
>)
    ensures
        match bytes_prefix(input@) {
            Some((value, rest)) => out is Ok && out->Ok_0.0@ == value && out->Ok_0.1@ == rest,
            None => out is Err,
        },
{
    let mut rest = input;
    match <Vec<u8> as parity_scale_codec::Decode>::decode(&mut rest) {
        Ok(value) => Ok((value, rest)),
        Err(error) => Err(error),
    }
}

} // verus!
