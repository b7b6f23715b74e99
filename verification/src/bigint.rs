//! Fixed-width 256-bit unsigned integers and arithmetic modulo a 256-bit
//! modulus.
use vstd::prelude::*;
use crate::encoding::{
    be_bytes, be_value, lemma_be_bytes_len, lemma_be_bytes_of_value, lemma_be_value_concat,
    lemma_be_value_of_bytes, radix_pow,
};
use vstd::arithmetic::div_mod::{
    lemma_add_mod_noop, lemma_fundamental_div_mod_converse, lemma_mod_twice,
    lemma_mul_mod_noop_left, lemma_small_mod,
};

verus! {

/// `2^64`, the radix of one limb.
pub open spec fn limb_radix() -> int {
    0x1_0000_0000_0000_0000
}

/// `2^256`, one more than the largest value of a [`U256`].
pub open spec fn u256_radix() -> int {
    limb_radix() * limb_radix() * limb_radix() * limb_radix()
}

/// A 256-bit unsigned integer held as four 64-bit limbs, least significant
/// first.
#[derive(Clone, Copy, Debug, PartialEq, Eq, Structural)]
pub struct U256 {
    pub l0: u64,
    pub l1: u64,
    pub l2: u64,
    pub l3: u64,
}

/// Adds two limbs and an incoming carry; returns the low limb and the carry
/// out.
fn add_limbs(a: u64, b: u64, carry: u64) -> (r: (u64, u64))
    requires
        carry <= 1,
    ensures
        r.1 <= 1,
        r.0 + r.1 * limb_radix() == a + b + carry,
{
    let s: u128 = a as u128 + b as u128 + carry as u128;
    if s >= 0x1_0000_0000_0000_0000u128 {
        ((s - 0x1_0000_0000_0000_0000u128) as u64, 1)
    } else {
        (s as u64, 0)
    }
}

/// Subtracts a limb and an incoming borrow from a limb; returns the low limb
/// and the borrow out.
fn sub_limbs(a: u64, b: u64, borrow: u64) -> (r: (u64, u64))
    requires
        borrow <= 1,
    ensures
        r.1 <= 1,
        r.0 - r.1 * limb_radix() == a - b - borrow,
{
    let t: u128 = b as u128 + borrow as u128;
    if a as u128 >= t {
        ((a as u128 - t) as u64, 0)
    } else {
        ((a as u128 + 0x1_0000_0000_0000_0000u128 - t) as u64, 1)
    }
}

/// Eight bytes span exactly one limb.
proof fn lemma_radix_pow_limb()
    ensures
        radix_pow(8) == limb_radix(),
{
    reveal_with_fuel(radix_pow, 9);
}

/// Reads the limb that the eight bytes from `start` denote.
fn limb_from_be(bytes: &[u8], start: usize) -> (r: u64)
    requires
        start + 8 <= bytes@.len(),
    ensures
        r == be_value(bytes@.subrange(start as int, start + 8)),
{
    let n = bytes.len();
    let mut acc: u64 = 0;
    let mut i: usize = 0;
    while i < 8
        invariant
            i <= 8,
            n == bytes@.len(),
            start + 8 <= n,
            acc == be_value(bytes@.subrange(start as int, start + i)),
            acc < radix_pow(i as nat),
        decreases 8 - i,
    {
        proof {
            reveal_with_fuel(radix_pow, 9);
            let next = bytes@.subrange(start as int, start + i + 1);
            assert(next.drop_last() =~= bytes@.subrange(start as int, start + i));
        }
        acc = acc * 256 + bytes[start + i] as u64;
        i += 1;
    }
    acc
}

/// Appends the eight bytes that encode `limb`, most significant first.
fn limb_to_be(limb: u64, out: &mut Vec<u8>)
    ensures
        final(out)@ == old(out)@ + be_bytes(limb as nat, 8),
{
    let b7: u8 = (limb % 256) as u8;
    let q7: u64 = limb / 256;
    let b6: u8 = (q7 % 256) as u8;
    let q6: u64 = q7 / 256;
    let b5: u8 = (q6 % 256) as u8;
    let q5: u64 = q6 / 256;
    let b4: u8 = (q5 % 256) as u8;
    let q4: u64 = q5 / 256;
    let b3: u8 = (q4 % 256) as u8;
    let q3: u64 = q4 / 256;
    let b2: u8 = (q3 % 256) as u8;
    let q2: u64 = q3 / 256;
    let b1: u8 = (q2 % 256) as u8;
    let q1: u64 = q2 / 256;
    let b0: u8 = (q1 % 256) as u8;
    out.push(b0);
    out.push(b1);
    out.push(b2);
    out.push(b3);
    out.push(b4);
    out.push(b5);
    out.push(b6);
    out.push(b7);
    proof {
        reveal_with_fuel(be_bytes, 9);
        assert(be_bytes(limb as nat, 8) =~= seq![b0, b1, b2, b3, b4, b5, b6, b7]);
        assert(out@ =~= old(out)@ + be_bytes(limb as nat, 8));
    }
}

impl U256 {
    /// The number that the four limbs denote.
    pub open spec fn value(self) -> nat {
        (self.l0 + self.l1 * limb_radix() + self.l2 * limb_radix() * limb_radix() + self.l3
            * limb_radix() * limb_radix() * limb_radix()) as nat
    }

    /// The integer zero.
    pub fn zero() -> (r: U256)
        ensures
            r.value() == 0,
    {
        U256 { l0: 0, l1: 0, l2: 0, l3: 0 }
    }

    /// The integer that a single limb denotes.
    pub fn from_u64(v: u64) -> (r: U256)
        ensures
            r.value() == v,
    {
        U256 { l0: v, l1: 0, l2: 0, l3: 0 }
    }

    /// Reads a 256-bit integer from its 32-byte big-endian encoding.
    pub fn from_be_bytes(bytes: &[u8]) -> (r: U256)
        requires
            bytes@.len() == 32,
        ensures
            r.value() == be_value(bytes@),
    {
        let l3 = limb_from_be(bytes, 0);
        let l2 = limb_from_be(bytes, 8);
        let l1 = limb_from_be(bytes, 16);
        let l0 = limb_from_be(bytes, 24);
        proof {
            let s = bytes@;
            lemma_radix_pow_limb();
            lemma_be_value_concat(s.subrange(0, 8), s.subrange(8, 16));
            assert(s.subrange(0, 8) + s.subrange(8, 16) =~= s.subrange(0, 16));
            lemma_be_value_concat(s.subrange(0, 16), s.subrange(16, 24));
            assert(s.subrange(0, 16) + s.subrange(16, 24) =~= s.subrange(0, 24));
            lemma_be_value_concat(s.subrange(0, 24), s.subrange(24, 32));
            assert(s.subrange(0, 24) + s.subrange(24, 32) =~= s);
        }
        U256 { l0, l1, l2, l3 }
    }

    /// The 32-byte big-endian encoding of the integer.
    pub fn to_be_bytes(&self) -> (out: Vec<u8>)
        ensures
            out@ == be_bytes(self.value(), 32),
    {
        let mut out: Vec<u8> = Vec::with_capacity(32);
        limb_to_be(self.l3, &mut out);
        limb_to_be(self.l2, &mut out);
        limb_to_be(self.l1, &mut out);
        limb_to_be(self.l0, &mut out);
        proof {
            let e3 = be_bytes(self.l3 as nat, 8);
            let e2 = be_bytes(self.l2 as nat, 8);
            let e1 = be_bytes(self.l1 as nat, 8);
            let e0 = be_bytes(self.l0 as nat, 8);
            lemma_radix_pow_limb();
            lemma_be_bytes_len(self.l3 as nat, 8);
            lemma_be_bytes_len(self.l2 as nat, 8);
            lemma_be_bytes_len(self.l1 as nat, 8);
            lemma_be_bytes_len(self.l0 as nat, 8);
            lemma_be_value_of_bytes(self.l3 as nat, 8);
            lemma_be_value_of_bytes(self.l2 as nat, 8);
            lemma_be_value_of_bytes(self.l1 as nat, 8);
            lemma_be_value_of_bytes(self.l0 as nat, 8);
            lemma_be_value_concat(e3, e2);
            lemma_be_value_concat(e3 + e2, e1);
            lemma_be_value_concat(e3 + e2 + e1, e0);
            lemma_small_mod(self.l3 as nat, radix_pow(8));
            lemma_small_mod(self.l2 as nat, radix_pow(8));
            lemma_small_mod(self.l1 as nat, radix_pow(8));
            lemma_small_mod(self.l0 as nat, radix_pow(8));
            assert(out@ =~= e3 + e2 + e1 + e0);
            assert(be_value(e3 + e2) == self.l3 * limb_radix() + self.l2);
            assert(be_value(e3 + e2 + e1) == (self.l3 * limb_radix() + self.l2) * limb_radix()
                + self.l1);
            assert(be_value(out@) == ((self.l3 * limb_radix() + self.l2) * limb_radix()
                + self.l1) * limb_radix() + self.l0);
            assert(((self.l3 * limb_radix() + self.l2) * limb_radix() + self.l1) * limb_radix()
                + self.l0 == self.l0 + self.l1 * limb_radix() + self.l2 * limb_radix()
                * limb_radix() + self.l3 * limb_radix() * limb_radix() * limb_radix())
                by (nonlinear_arith);
            lemma_be_bytes_of_value(out@);
        }
        out
    }

    /// Two integers with the same value have the same limbs.
    pub proof fn lemma_value_injective(self, other: U256)
        requires
            self.value() == other.value(),
        ensures
            self == other,
    {
    }

    /// Every 256-bit integer is below `2^256`.
    pub proof fn lemma_value_bound(self)
        ensures
            self.value() < u256_radix(),
    {
    }

    /// Whether the integer is zero.
    pub fn is_zero(&self) -> (r: bool)
        ensures
            r == (self.value() == 0),
    {
        self.l0 == 0 && self.l1 == 0 && self.l2 == 0 && self.l3 == 0
    }

    /// Whether the lowest bit is set.
    pub fn is_odd(&self) -> (r: bool)
        ensures
            r == (self.value() % 2 == 1),
    {
        self.l0 % 2 == 1
    }

    /// Whether `self` is strictly below `other`.
    pub fn lt(&self, other: &U256) -> (r: bool)
        ensures
            r == (self.value() < other.value()),
    {
        if self.l3 != other.l3 {
            self.l3 < other.l3
        } else if self.l2 != other.l2 {
            self.l2 < other.l2
        } else if self.l1 != other.l1 {
            self.l1 < other.l1
        } else {
            self.l0 < other.l0
        }
    }

    /// The integer halved, rounding down.
    pub fn half(&self) -> (r: U256)
        ensures
            r.value() == self.value() / 2,
    {
        let h: u64 = 0x8000_0000_0000_0000;
        U256 {
            l0: self.l0 / 2 + (self.l1 % 2) * h,
            l1: self.l1 / 2 + (self.l2 % 2) * h,
            l2: self.l2 / 2 + (self.l3 % 2) * h,
            l3: self.l3 / 2,
        }
    }

    /// The sum modulo `2^256`, and whether the true sum reached `2^256`.
    pub fn overflowing_add(&self, other: &U256) -> (r: (U256, bool))
        ensures
            r.0.value() + (if r.1 { u256_radix() } else { 0 }) == self.value() + other.value(),
    {
        let (l0, c0) = add_limbs(self.l0, other.l0, 0);
        let (l1, c1) = add_limbs(self.l1, other.l1, c0);
        let (l2, c2) = add_limbs(self.l2, other.l2, c1);
        let (l3, c3) = add_limbs(self.l3, other.l3, c2);
        (U256 { l0, l1, l2, l3 }, c3 == 1)
    }

    /// The difference modulo `2^256`, and whether `other` exceeds `self`.
    pub fn overflowing_sub(&self, other: &U256) -> (r: (U256, bool))
        ensures
            r.0.value() - (if r.1 { u256_radix() } else { 0 }) == self.value() - other.value(),
            r.1 == (self.value() < other.value()),
    {
        let (l0, b0) = sub_limbs(self.l0, other.l0, 0);
        let (l1, b1) = sub_limbs(self.l1, other.l1, b0);
        let (l2, b2) = sub_limbs(self.l2, other.l2, b1);
        let (l3, b3) = sub_limbs(self.l3, other.l3, b2);
        (U256 { l0, l1, l2, l3 }, b3 == 1)
    }
}

/// One step of binary multiplication keeps the running total congruent:
/// folding the low bit of the multiplier into the accumulator and doubling
/// the multiplicand leaves `acc + cur * rem` unchanged modulo `m`.
proof fn lemma_mul_step(acc: nat, cur: nat, rem: nat, m: nat)
    requires
        m > 0,
    ensures
        (((acc + (rem % 2) * cur) % m) + ((2 * cur) % m) * (rem / 2)) % m == (acc + cur * rem) % m,
{
    let bit = rem % 2;
    let h = rem / 2;
    let x = (acc + bit * cur) as int;
    let y = (2 * cur) as int;
    assert(acc + cur * rem == x + y * h) by (nonlinear_arith)
        requires
            rem == 2 * h + bit,
            x == acc + bit * cur,
            y == 2 * cur,
    ;
    lemma_add_mod_noop(x, y * h, m as int);
    lemma_mul_mod_noop_left(y, h as int, m as int);
    lemma_add_mod_noop(x % (m as int), (y % (m as int)) * h, m as int);
    lemma_mod_twice(x, m as int);
}

/// The sum of two residues modulo `m`.
pub fn add_mod(a: &U256, b: &U256, m: &U256) -> (r: U256)
    requires
        a.value() < m.value(),
        b.value() < m.value(),
    ensures
        r.value() == (a.value() + b.value()) % m.value(),
        r.value() < m.value(),
{
    let (s, carry) = a.overflowing_add(b);
    if carry || !s.lt(m) {
        let (d, _borrow) = s.overflowing_sub(m);
        proof {
            let t = a.value() + b.value();
            m.lemma_value_bound();
            assert(d.value() == t - m.value());
            lemma_fundamental_div_mod_converse(t as int, m.value() as int, 1, d.value() as int);
        }
        d
    } else {
        proof {
            lemma_small_mod(s.value(), m.value());
        }
        s
    }
}

/// The difference of two residues modulo `m`.
pub fn sub_mod(a: &U256, b: &U256, m: &U256) -> (r: U256)
    requires
        a.value() < m.value(),
        b.value() < m.value(),
    ensures
        r.value() == (a.value() - b.value()) % (m.value() as int),
        r.value() < m.value(),
{
    let (d, borrow) = a.overflowing_sub(b);
    if borrow {
        let (e, _carry) = d.overflowing_add(m);
        proof {
            let t = a.value() - b.value();
            e.lemma_value_bound();
            assert(e.value() == t + m.value());
            lemma_fundamental_div_mod_converse(t, m.value() as int, -1, e.value() as int);
        }
        e
    } else {
        proof {
            lemma_small_mod(d.value(), m.value());
        }
        d
    }
}

/// The product of a residue and any 256-bit integer modulo `m`, by binary
/// multiplication from the low bit of `b`.
pub fn mul_mod(a: &U256, b: &U256, m: &U256) -> (r: U256)
    requires
        a.value() < m.value(),
    ensures
        r.value() == (a.value() * b.value()) % m.value(),
        r.value() < m.value(),
{
    let mut acc = U256::zero();
    let mut cur = *a;
    let mut rem = *b;
    while !rem.is_zero()
        invariant
            acc.value() < m.value(),
            cur.value() < m.value(),
            (acc.value() + cur.value() * rem.value()) % m.value() == (a.value() * b.value())
                % m.value(),
        decreases rem.value(),
    {
        proof {
            lemma_mul_step(acc.value(), cur.value(), rem.value(), m.value());
        }
        let ghost acc0 = acc.value();
        let ghost cur0 = cur.value();
        if rem.is_odd() {
            acc = add_mod(&acc, &cur, m);
            assert(acc.value() == (acc0 + (rem.value() % 2) * cur0) % m.value());
        } else {
            assert(acc.value() == (acc0 + (rem.value() % 2) * cur0) % m.value()) by {
                assert((rem.value() % 2) * cur0 == 0) by (nonlinear_arith)
                    requires
                        rem.value() % 2 == 0,
                ;
                lemma_small_mod(acc0, m.value());
            }
        }
        cur = add_mod(&cur, &cur, m);
        assert(cur.value() == (2 * cur0) % m.value());
        rem = rem.half();
    }
    proof {
        assert(cur.value() * rem.value() == 0) by (nonlinear_arith)
            requires
                rem.value() == 0,
        ;
        lemma_small_mod(acc.value(), m.value());
    }
    acc
}

} // verus!
