//! Byte-level encodings used for physical keys: fixed-width big-endian
//! integers, decimal text, and the lexicographic order in which an ordered
//! byte-map engine walks its keys.

use vstd::prelude::*;

verus! {

/// ASCII code of the digit `0`.
pub const ASCII_ZERO: u8 = 48;

/// ASCII code of `:`, which separates the two numbers of a composite key.
pub const ASCII_COLON: u8 = 58;

/// The four bytes of `n`, most significant first.
pub open spec fn be_bytes(n: u32) -> Seq<u8> {
    seq![
        (n / 0x100_0000) as u8,
        (n / 0x1_0000 % 0x100) as u8,
        (n / 0x100 % 0x100) as u8,
        (n % 0x100) as u8,
    ]
}

/// The number that four big-endian bytes stand for.
pub open spec fn be_value(s: Seq<u8>) -> int
    recommends
        s.len() == 4,
{
    s[0] as int * 0x100_0000 + s[1] as int * 0x1_0000 + s[2] as int * 0x100 + s[3] as int
}

/// The decimal digits of `n` as ASCII bytes, without sign or leading zeros.
pub open spec fn decimal(n: nat) -> Seq<u8>
    decreases n,
{
    if n < 10 {
        seq![(ASCII_ZERO + n) as u8]
    } else {
        decimal(n / 10).push((ASCII_ZERO + n % 10) as u8)
    }
}

/// The number that a sequence of ASCII digits stands for.
pub open spec fn decimal_value(s: Seq<u8>) -> nat
    decreases s.len(),
{
    if s.len() == 0 {
        0
    } else {
        (decimal_value(s.drop_last()) * 10 + (s.last() - ASCII_ZERO)) as nat
    }
}

/// Whether every byte of `s` is an ASCII digit.
pub open spec fn all_digits(s: Seq<u8>) -> bool {
    forall|i: int| 0 <= i < s.len() ==> ASCII_ZERO <= #[trigger] s[i] <= ASCII_ZERO + 9
}

/// Whether `a` comes strictly before `b` in lexicographic byte order: at the
/// first position where they differ `a` has the smaller byte, or `a` is a
/// proper prefix of `b`.
pub open spec fn precedes(a: Seq<u8>, b: Seq<u8>) -> bool {
    exists|i: int|
        0 <= i <= a.len() && i <= b.len() && #[trigger] a.subrange(0, i) == b.subrange(0, i) && i
            < b.len() && (i == a.len() || a[i] < b[i])
}

/// Big-endian bytes are four in number and give the number back.
pub proof fn lemma_be_bytes_value(n: u32)
    ensures
        be_bytes(n).len() == 4,
        be_value(be_bytes(n)) == n,
{
}

/// Two numbers with the same big-endian bytes are the same number.
pub proof fn lemma_be_bytes_injective(a: u32, b: u32)
    requires
        be_bytes(a) == be_bytes(b),
    ensures
        a == b,
{
    lemma_be_bytes_value(a);
    lemma_be_bytes_value(b);
}

/// Lexicographic order on big-endian bytes is numeric order.
pub proof fn lemma_be_bytes_order(a: u32, b: u32)
    ensures
        precedes(be_bytes(a), be_bytes(b)) <==> a < b,
{
    let x = be_bytes(a);
    let y = be_bytes(b);
    lemma_be_bytes_value(a);
    lemma_be_bytes_value(b);
    if a < b {
        let i: int = if x[0] != y[0] {
            0
        } else if x[1] != y[1] {
            1
        } else if x[2] != y[2] {
            2
        } else {
            3
        };
        assert(x.subrange(0, i) =~= y.subrange(0, i));
        assert(x[i] < y[i]);
    }
    if precedes(x, y) {
        let i = choose|i: int|
            0 <= i <= x.len() && i <= y.len() && #[trigger] x.subrange(0, i) == y.subrange(0, i)
                && i < y.len() && (i == x.len() || x[i] < y[i]);
        assert forall|j: int| 0 <= j < i implies x[j] == y[j] by {
            assert(x.subrange(0, i)[j] == x[j]);
            assert(y.subrange(0, i)[j] == y[j]);
        }
        assert(a < b);
    }
}

/// Decimal text is never empty and holds digits only.
pub proof fn lemma_decimal_digits(n: nat)
    ensures
        decimal(n).len() >= 1,
        all_digits(decimal(n)),
    decreases n,
{
    if n >= 10 {
        lemma_decimal_digits(n / 10);
    }
}

/// Reading decimal text gives the number back.
pub proof fn lemma_decimal_value(n: nat)
    ensures
        decimal_value(decimal(n)) == n,
    decreases n,
{
    if n < 10 {
        assert(decimal(n).drop_last() =~= Seq::<u8>::empty());
        assert(decimal_value(decimal(n).drop_last()) == 0);
    } else {
        lemma_decimal_value(n / 10);
        assert(decimal(n).drop_last() =~= decimal(n / 10));
    }
}

/// Two numbers with the same decimal text are the same number.
pub proof fn lemma_decimal_injective(a: nat, b: nat)
    requires
        decimal(a) == decimal(b),
    ensures
        a == b,
{
    lemma_decimal_value(a);
    lemma_decimal_value(b);
}

/// The four bytes of `n`, most significant first.
pub fn to_be_bytes(n: u32) -> (out: Vec<u8>)
    ensures
        out@ == be_bytes(n),
{
    let mut out: Vec<u8> = Vec::new();
    out.push((n / 0x100_0000) as u8);
    out.push((n / 0x1_0000 % 0x100) as u8);
    out.push((n / 0x100 % 0x100) as u8);
    out.push((n % 0x100) as u8);
    assert(out@ =~= be_bytes(n));
    out
}

/// Appends the decimal text of `n` to `out`.
pub fn push_decimal(out: &mut Vec<u8>, n: u32)
    ensures
        final(out)@ == old(out)@ + decimal(n as nat),
    decreases n,
{
    if n >= 10 {
        push_decimal(out, n / 10);
    }
    out.push(ASCII_ZERO + (n % 10) as u8);
    assert(out@ =~= old(out)@ + decimal(n as nat));
}

} // verus!
