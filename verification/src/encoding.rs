//! Big-endian byte strings and the natural numbers they denote.
use vstd::prelude::*;

verus! {

/// The number that `bytes` denotes when read as a big-endian integer.
pub open spec fn be_value(bytes: Seq<u8>) -> nat
    decreases bytes.len(),
{
    if bytes.len() == 0 {
        0
    } else {
        be_value(bytes.drop_last()) * 256 + bytes.last() as nat
    }
}

/// The big-endian encoding of `value % 256^len` on exactly `len` bytes.
pub open spec fn be_bytes(value: nat, len: nat) -> Seq<u8>
    decreases len,
{
    if len == 0 {
        Seq::empty()
    } else {
        be_bytes(value / 256, (len - 1) as nat).push((value % 256) as u8)
    }
}

/// `256^len`, the number of byte strings of length `len`.
pub open spec fn radix_pow(len: nat) -> nat
    decreases len,
{
    if len == 0 {
        1
    } else {
        256 * radix_pow((len - 1) as nat)
    }
}

/// An encoding on `len` bytes is `len` bytes long.
pub proof fn lemma_be_bytes_len(value: nat, len: nat)
    ensures
        be_bytes(value, len).len() == len,
    decreases len,
{
    if len > 0 {
        lemma_be_bytes_len(value / 256, (len - 1) as nat);
    }
}

/// Every byte string is the encoding of the number it denotes: decoding
/// followed by encoding on the same width gives the string back.
pub proof fn lemma_be_bytes_of_value(bytes: Seq<u8>)
    ensures
        be_bytes(be_value(bytes), bytes.len()) == bytes,
    decreases bytes.len(),
{
    if bytes.len() > 0 {
        let front = bytes.drop_last();
        lemma_be_bytes_of_value(front);
        let v = be_value(bytes);
        assert(v / 256 == be_value(front));
        assert(v % 256 == bytes.last() as nat);
        assert(be_bytes(v, bytes.len()) =~= bytes);
    }
}

/// Two byte strings of one length that denote the same number are equal.
pub proof fn lemma_be_value_injective(a: Seq<u8>, b: Seq<u8>)
    requires
        a.len() == b.len(),
        be_value(a) == be_value(b),
    ensures
        a == b,
{
    lemma_be_bytes_of_value(a);
    lemma_be_bytes_of_value(b);
}

/// Encoding followed by decoding gives the number back, reduced to the width.
pub proof fn lemma_be_value_of_bytes(value: nat, len: nat)
    ensures
        be_value(be_bytes(value, len)) == value % radix_pow(len),
    decreases len,
{
    if len > 0 {
        let rest = (len - 1) as nat;
        lemma_be_value_of_bytes(value / 256, rest);
        let s = be_bytes(value, len);
        assert(s.drop_last() =~= be_bytes(value / 256, rest));
        lemma_radix_pow_positive(rest);
        lemma_mod_split(value, radix_pow(rest));
    }
}

/// Every power of 256 is positive.
pub proof fn lemma_radix_pow_positive(len: nat)
    ensures
        radix_pow(len) > 0,
    decreases len,
{
    if len > 0 {
        lemma_radix_pow_positive((len - 1) as nat);
    }
}

/// `v % (256 * p)` splits into the low byte and the reduced high part.
proof fn lemma_mod_split(v: nat, p: nat)
    requires
        p > 0,
    ensures
        v % (256 * p) == ((v / 256) % p) * 256 + v % 256,
{
    let q = (v / 256) / p;
    let r = (v / 256) % p;
    vstd::arithmetic::div_mod::lemma_fundamental_div_mod((v / 256) as int, p as int);
    assert(v == (p * q + r) * 256 + v % 256);
    assert(v == q * (256 * p) + (r * 256 + v % 256)) by (nonlinear_arith)
        requires
            v == (p * q + r) * 256 + v % 256,
    ;
    assert(256 * p > 0) by (nonlinear_arith)
        requires
            p > 0,
    ;
    assert(r * 256 + v % 256 < 256 * p) by (nonlinear_arith)
        requires
            r < p,
            v % 256 < 256,
    ;
    vstd::arithmetic::div_mod::lemma_fundamental_div_mod_converse(
        v as int,
        (256 * p) as int,
        q as int,
        (r * 256 + v % 256) as int,
    );
}

/// The value of a concatenation: the front is shifted left by the width of
/// the back.
pub proof fn lemma_be_value_concat(front: Seq<u8>, back: Seq<u8>)
    ensures
        be_value(front + back) == be_value(front) * radix_pow(back.len()) + be_value(back),
    decreases back.len(),
{
    if back.len() == 0 {
        assert(front + back =~= front);
        assert(radix_pow(back.len()) == 1);
        assert(be_value(back) == 0);
        assert(be_value(front) * 1 == be_value(front));
    } else {
        let whole = front + back;
        let rest = back.drop_last();
        assert(whole.drop_last() =~= front + rest);
        assert(whole.last() == back.last());
        lemma_be_value_concat(front, rest);
        let p = radix_pow(rest.len());
        let f = be_value(front);
        assert(radix_pow(back.len()) == 256 * p);
        assert(be_value(whole) == (f * p + be_value(rest)) * 256 + back.last() as nat);
        assert(be_value(back) == be_value(rest) * 256 + back.last() as nat);
        assert((f * p + be_value(rest)) * 256 == f * (256 * p) + be_value(rest) * 256)
            by (nonlinear_arith);
        assert(be_value(whole) == f * (256 * p) + be_value(back));
        assert(f * radix_pow(back.len()) == f * (256 * p));
    }
}

/// The first byte of a string weighs as much as all strings one byte
/// shorter.
pub proof fn lemma_first_byte_weight(bytes: Seq<u8>)
    requires
        bytes.len() > 0,
    ensures
        bytes[0] * radix_pow((bytes.len() - 1) as nat) <= be_value(bytes),
{
    let head = bytes.subrange(0, 1);
    let tail = bytes.subrange(1, bytes.len() as int);
    assert(head + tail =~= bytes);
    lemma_be_value_concat(head, tail);
    assert(head.drop_last().len() == 0);
    assert(be_value(head.drop_last()) == 0);
    assert(head.last() == bytes[0]);
    assert(be_value(head) == bytes[0]);
}

/// Reads the 32-bit big-endian integer held by the four bytes from `start`.
pub fn read_u32_be(bytes: &[u8], start: usize) -> (r: u32)
    requires
        start + 4 <= bytes@.len(),
    ensures
        r == be_value(bytes@.subrange(start as int, start + 4)),
{
    let n = bytes.len();
    let mut acc: u32 = 0;
    let mut i: usize = 0;
    while i < 4
        invariant
            i <= 4,
            n == bytes@.len(),
            start + 4 <= n,
            acc == be_value(bytes@.subrange(start as int, start + i)),
            acc < radix_pow(i as nat),
        decreases 4 - i,
    {
        proof {
            reveal_with_fuel(radix_pow, 5);
            let next = bytes@.subrange(start as int, start + i + 1);
            assert(next.drop_last() =~= bytes@.subrange(start as int, start + i));
        }
        acc = acc * 256 + bytes[start + i] as u32;
        i += 1;
    }
    acc
}

/// The bytes of a returned record, if there is one.
pub open spec fn output_record(out: Option<Vec<u8>>) -> Option<Seq<u8>> {
    match out {
        Some(v) => Some(v@),
        None => None,
    }
}

/// Whether every byte of the string is zero.
pub open spec fn all_zero(bytes: Seq<u8>) -> bool {
    forall|i: int| 0 <= i < bytes.len() ==> bytes[i] == 0
}

/// The string of `len` zero bytes.
pub open spec fn zeros(len: nat) -> Seq<u8> {
    Seq::new(len, |i: int| 0u8)
}

/// Whether every byte of the slice is zero.
pub fn is_all_zero(bytes: &[u8]) -> (r: bool)
    ensures
        r == all_zero(bytes@),
{
    let mut i: usize = 0;
    while i < bytes.len()
        invariant
            i <= bytes@.len(),
            forall|j: int| 0 <= j < i ==> bytes@[j] == 0,
        decreases bytes@.len() - i,
    {
        if bytes[i] != 0 {
            return false;
        }
        i += 1;
    }
    true
}

/// A vector of `len` zero bytes.
pub fn zero_bytes(len: usize) -> (out: Vec<u8>)
    ensures
        out@ == zeros(len as nat),
{
    let mut out: Vec<u8> = Vec::new();
    let mut i: usize = 0;
    while i < len
        invariant
            i <= len,
            out@ == zeros(i as nat),
        decreases len - i,
    {
        out.push(0u8);
        i += 1;
        assert(out@ =~= zeros(i as nat));
    }
    out
}

/// Appends the bytes of `tail` to `out`.
pub fn append_bytes(out: &mut Vec<u8>, tail: &[u8])
    ensures
        final(out)@ == old(out)@ + tail@,
{
    let mut i: usize = 0;
    while i < tail.len()
        invariant
            i <= tail@.len(),
            out@ == old(out)@ + tail@.subrange(0, i as int),
        decreases tail@.len() - i,
    {
        out.push(tail[i]);
        i += 1;
        assert(out@ =~= old(out)@ + tail@.subrange(0, i as int));
    }
    assert(tail@.subrange(0, i as int) =~= tail@);
}

/// A vector holding a copy of the bytes of a slice.
pub fn slice_to_vec(bytes: &[u8]) -> (out: Vec<u8>)
    ensures
        out@ == bytes@,
{
    let mut out: Vec<u8> = Vec::new();
    let mut i: usize = 0;
    while i < bytes.len()
        invariant
            i <= bytes@.len(),
            out@ == bytes@.subrange(0, i as int),
        decreases bytes@.len() - i,
    {
        out.push(bytes[i]);
        i += 1;
        assert(out@ =~= bytes@.subrange(0, i as int));
    }
    assert(bytes@.subrange(0, i as int) =~= bytes@);
    out
}

/// A string of zero bytes denotes zero.
pub proof fn lemma_all_zero_value(bytes: Seq<u8>)
    requires
        all_zero(bytes),
    ensures
        be_value(bytes) == 0,
    decreases bytes.len(),
{
    if bytes.len() > 0 {
        lemma_all_zero_value(bytes.drop_last());
    }
}

/// Only the string of zero bytes denotes zero.
pub proof fn lemma_zero_value_all_zero(bytes: Seq<u8>)
    requires
        be_value(bytes) == 0,
    ensures
        all_zero(bytes),
    decreases bytes.len(),
{
    if bytes.len() > 0 {
        lemma_zero_value_all_zero(bytes.drop_last());
        assert forall|i: int| 0 <= i < bytes.len() implies bytes[i] == 0 by {
            if i < bytes.len() - 1 {
                assert(bytes[i] == bytes.drop_last()[i]);
            }
        }
    }
}

} // verus!
