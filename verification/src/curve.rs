//! Points of the two pairing groups: validated on decoding, and thereafter
//! always on the curve and in the prime-order subgroup.
use crate::bigint::U256;
use crate::encoding::{
    all_zero, be_bytes, be_value, is_all_zero, lemma_all_zero_value, lemma_be_bytes_len,
    lemma_be_bytes_of_value, lemma_be_value_injective, lemma_first_byte_weight,
    lemma_zero_value_all_zero, output_record, radix_pow, slice_to_vec, zero_bytes, zeros,
};
use crate::error::{result_views, DecodeError, HostCallError};
use crate::field::{
    base_modulus, decode_residue, fq_add, fq_mul, fq_neg, law_residue_round_trip,
    lemma_moduli_fit, FieldElement, Fq,
};
use crate::fq2::{decode_fq2, fq2_add, fq2_encoding, fq2_mul, Fq2, Fq2Value};
use crate::syscalls::{
    alt_bn128_g1_addition, alt_bn128_g1_multiplication, alt_bn128_pairing, g1_addition_be,
    g1_multiplication_be, operation_output, pairing_be,
};
use vstd::prelude::*;

verus! {

/// The width of one encoded G1 point, in bytes.
pub const G1_SIZE: usize = 64;

/// The width of one encoded G2 point, in bytes.
pub const G2_SIZE: usize = 128;

/// The affine coordinates of a point of G1; `(0, 0)` stands for the point at
/// infinity.
pub struct G1Value {
    pub x: nat,
    pub y: nat,
}

/// The affine coordinates of a point of G2; both coordinates zero stands for
/// the point at infinity.
pub struct G2Value {
    pub x: Fq2Value,
    pub y: Fq2Value,
}

/// The point at infinity of G1.
pub open spec fn g1_infinity() -> G1Value {
    G1Value { x: 0, y: 0 }
}

/// The point at infinity of G2.
pub open spec fn g2_infinity() -> G2Value {
    G2Value { x: Fq2Value { c0: 0, c1: 0 }, y: Fq2Value { c0: 0, c1: 0 } }
}

/// The curve equation `y^2 = x^3 + 3` over the base field.
pub open spec fn g1_on_curve(p: G1Value) -> bool {
    fq_mul(p.y, p.y) == fq_add(fq_mul(fq_mul(p.x, p.x), p.x), 3)
}

/// The coefficient `3 / (9 + u)` of the twist.
pub open spec fn twist_coefficient() -> Fq2Value {
    Fq2Value { c0: twist_c0_limbs().value(), c1: twist_c1_limbs().value() }
}

/// The limbs of the constant part of the twist coefficient.
pub open spec fn twist_c0_limbs() -> U256 {
    U256 {
        l0: 0x3267e6dc24a138e5,
        l1: 0xb5b4c5e559dbefa3,
        l2: 0x81be18991be06ac3,
        l3: 0x2b149d40ceb8aaae,
    }
}

/// The limbs of the coefficient of `u` in the twist coefficient.
pub open spec fn twist_c1_limbs() -> U256 {
    U256 {
        l0: 0xe4a2bd0685c315d2,
        l1: 0xa74fa084e52d1852,
        l2: 0xcd2cafadeed8fdf4,
        l3: 0x009713b03af0fed4,
    }
}

/// The twist equation `y^2 = x^3 + 3 / (9 + u)` over the extension field.
pub open spec fn g2_on_curve(p: G2Value) -> bool {
    fq2_mul(p.y, p.y) == fq2_add(fq2_mul(fq2_mul(p.x, p.x), p.x), twist_coefficient())
}

/// The 64-byte encoding of a G1 point: `x` then `y`, each big-endian.
pub open spec fn g1_encoding(p: G1Value) -> Seq<u8> {
    be_bytes(p.x, 32) + be_bytes(p.y, 32)
}

/// The 128-byte encoding of a G2 point: `x` then `y`, each with the
/// coefficient of `u` first.
pub open spec fn g2_encoding(p: G2Value) -> Seq<u8> {
    fq2_encoding(p.x) + fq2_encoding(p.y)
}

/// Whether the two highest bits of the first byte are `01`, the marker that
/// some encodings use for the point at infinity.
pub open spec fn has_infinity_marker(bytes: Seq<u8>) -> bool {
    bytes.len() > 0 && bytes[0] / 64 == 1
}

/// Whether the native pairing accepts the encoded G2 point as an operand,
/// paired with the point at infinity of G1. The native operation accepts an
/// operand on the twist exactly when it lies in the prime-order subgroup.
pub open spec fn g2_accepted(encoding: Seq<u8>) -> bool {
    alt_bn128_pairing(zeros(64) + encoding) is Some
}

/// A G1 point is valid when its coordinates are reduced and it is the point
/// at infinity or satisfies the curve equation. G1 has cofactor one: every
/// point of the curve is in the prime-order subgroup.
pub open spec fn g1_valid(p: G1Value) -> bool {
    &&& p.x < base_modulus()
    &&& p.y < base_modulus()
    &&& (p == g1_infinity() || g1_on_curve(p))
}

/// A G2 point is valid when its coordinates are reduced and it is the point
/// at infinity or lies on the twist and in the prime-order subgroup.
pub open spec fn g2_valid(p: G2Value) -> bool {
    &&& p.x.c0 < base_modulus()
    &&& p.x.c1 < base_modulus()
    &&& p.y.c0 < base_modulus()
    &&& p.y.c1 < base_modulus()
    &&& (p == g2_infinity() || (g2_on_curve(p) && g2_accepted(g2_encoding(p))))
}

/// What decoding a G1 point yields. The checks come in this order: the
/// length, the one encoding of infinity, the infinity marker, the reduced
/// form of both coordinates, the curve equation.
pub open spec fn decode_g1(bytes: Seq<u8>) -> Result<G1Value, DecodeError> {
    if bytes.len() != 64 {
        Err(DecodeError::Length)
    } else if all_zero(bytes) {
        Ok(g1_infinity())
    } else if has_infinity_marker(bytes) {
        Err(DecodeError::InvalidInfinityEncoding)
    } else {
        match (
            decode_residue(bytes.subrange(0, 32), base_modulus()),
            decode_residue(bytes.subrange(32, 64), base_modulus()),
        ) {
            (Ok(x), Ok(y)) => if g1_on_curve(G1Value { x, y }) {
                Ok(G1Value { x, y })
            } else {
                Err(DecodeError::NotOnCurve)
            },
            _ => Err(DecodeError::NotCanonical),
        }
    }
}

/// What decoding a G2 point yields. The checks come in this order: the
/// length, the one encoding of infinity, the infinity marker, the reduced
/// form of the four coefficients, the twist equation, the subgroup.
pub open spec fn decode_g2(bytes: Seq<u8>) -> Result<G2Value, DecodeError> {
    if bytes.len() != 128 {
        Err(DecodeError::Length)
    } else if all_zero(bytes) {
        Ok(g2_infinity())
    } else if has_infinity_marker(bytes) {
        Err(DecodeError::InvalidInfinityEncoding)
    } else {
        match (decode_fq2(bytes.subrange(0, 64)), decode_fq2(bytes.subrange(64, 128))) {
            (Ok(x), Ok(y)) => if !g2_on_curve(G2Value { x, y }) {
                Err(DecodeError::NotOnCurve)
            } else if !g2_accepted(bytes) {
                Err(DecodeError::NotInSubgroup)
            } else {
                Ok(G2Value { x, y })
            },
            _ => Err(DecodeError::NotCanonical),
        }
    }
}

/// The point that a native G1 operation returned: the operation must have
/// succeeded, and its result record must decode as a valid point.
pub open spec fn g1_from_record(record: Option<Seq<u8>>) -> Result<G1Value, HostCallError> {
    match record {
        None => Err(HostCallError::Rejected),
        Some(bytes) => match decode_g1(bytes) {
            Ok(p) => Ok(p),
            Err(_) => Err(HostCallError::MalformedOutput),
        },
    }
}

/// The sum of two points, as the native addition computes it.
pub open spec fn g1_sum(p: G1Value, q: G1Value) -> Result<G1Value, HostCallError> {
    g1_from_record(alt_bn128_g1_addition(g1_encoding(p) + g1_encoding(q)))
}

/// The multiple `k * p`, as the native scalar multiplication computes it.
pub open spec fn g1_multiple(p: G1Value, k: nat) -> Result<G1Value, HostCallError> {
    g1_from_record(alt_bn128_g1_multiplication(g1_encoding(p) + be_bytes(k, 32)))
}

/// The negation of a point: the same `x`, the opposite `y`.
pub open spec fn g1_negation(p: G1Value) -> G1Value {
    G1Value { x: p.x, y: fq_neg(p.y) }
}

/// A point of G1.
#[derive(Clone, Copy, Debug, PartialEq, Eq, Structural)]
pub struct G1Point {
    x: Fq,
    y: Fq,
}

impl View for G1Point {
    type V = G1Value;

    closed spec fn view(&self) -> G1Value {
        G1Value { x: self.x@, y: self.y@ }
    }
}

/// The square of the opposite of `y` is the square of `y`.
proof fn lemma_neg_square(y: nat)
    requires
        y < base_modulus(),
    ensures
        fq_mul(fq_neg(y), fq_neg(y)) == fq_mul(y, y),
        fq_neg(y) < base_modulus(),
        y == 0 ==> fq_neg(y) == 0,
{
    let q = base_modulus() as int;
    if y == 0 {
        vstd::arithmetic::div_mod::lemma_small_mod(0, base_modulus());
    } else {
        vstd::arithmetic::div_mod::lemma_fundamental_div_mod_converse(0 - y, q, -1, q - y);
        let n = q - y;
        assert(n * n == y * y + (q - 2 * y) * q) by (nonlinear_arith)
            requires
                n == q - y,
        ;
        vstd::arithmetic::div_mod::lemma_mod_multiples_vanish(q - 2 * y, (y * y) as int, q);
    }
}

impl G1Point {
    /// Every point is valid.
    #[verifier::type_invariant]
    pub closed spec fn is_valid(self) -> bool {
        g1_valid(self@)
    }

    /// The point at infinity.
    pub fn infinity() -> (r: G1Point)
        ensures
            r@ == g1_infinity(),
    {
        G1Point { x: Fq::zero(), y: Fq::zero() }
    }

    /// Whether this is the point at infinity.
    pub fn is_infinity(&self) -> (r: bool)
        ensures
            r == (self@ == g1_infinity()),
    {
        self.x.is_zero() && self.y.is_zero()
    }

    /// Whether two points are the same.
    pub fn equals(&self, other: &G1Point) -> (r: bool)
        ensures
            r == (self@ == other@),
    {
        self.x.equals(&other.x) && self.y.equals(&other.y)
    }

    /// Decodes and validates a point from its 64-byte encoding.
    pub fn decode(bytes: &[u8]) -> (r: Result<G1Point, DecodeError>)
        ensures
            result_views(r, decode_g1(bytes@)),
    {
        if bytes.len() != G1_SIZE {
            return Err(DecodeError::Length);
        }
        if is_all_zero(bytes) {
            return Ok(G1Point::infinity());
        }
        if bytes[0] / 64 == 1 {
            return Err(DecodeError::InvalidInfinityEncoding);
        }
        let x = match Fq::decode(vstd::slice::slice_subrange(bytes, 0, 32)) {
            Ok(v) => v,
            Err(_) => {
                return Err(DecodeError::NotCanonical);
            },
        };
        let y = match Fq::decode(vstd::slice::slice_subrange(bytes, 32, 64)) {
            Ok(v) => v,
            Err(_) => {
                return Err(DecodeError::NotCanonical);
            },
        };
        let lhs = y.mul(&y);
        let rhs = x.mul(&x).mul(&x).add(&Fq::from_u64(3));
        if lhs.equals(&rhs) {
            Ok(G1Point { x, y })
        } else {
            Err(DecodeError::NotOnCurve)
        }
    }

    /// The 64-byte encoding of the point.
    pub fn encode(&self) -> (out: Vec<u8>)
        ensures
            out@ == g1_encoding(self@),
            out@.len() == 64,
            g1_valid(self@),
    {
        proof {
            use_type_invariant(self);
        }
        let mut out = self.x.encode();
        let mut tail = self.y.encode();
        out.append(&mut tail);
        out
    }

    /// The opposite point.
    pub fn neg(&self) -> (r: G1Point)
        ensures
            r@ == g1_negation(self@),
    {
        proof {
            use_type_invariant(self);
            lemma_neg_square(self.y@);
        }
        G1Point { x: self.x, y: self.y.neg() }
    }

    /// The point that a native operation returned, validated like any other
    /// encoding.
    pub fn from_record(record: Option<Vec<u8>>) -> (r: Result<G1Point, HostCallError>)
        ensures
            result_views(r, g1_from_record(output_record(record))),
    {
        match record {
            None => Err(HostCallError::Rejected),
            Some(bytes) => match G1Point::decode(bytes.as_slice()) {
                Ok(p) => Ok(p),
                Err(_) => Err(HostCallError::MalformedOutput),
            },
        }
    }

    /// The sum of two points, computed by the native addition.
    pub fn add(&self, other: &G1Point) -> (r: Result<G1Point, HostCallError>)
        ensures
            result_views(r, g1_sum(self@, other@)),
    {
        let mut input = self.encode();
        let mut tail = other.encode();
        input.append(&mut tail);
        let record = operation_output(g1_addition_be(input.as_slice()));
        G1Point::from_record(record)
    }

    /// The multiple of the point by a scalar, computed by the native scalar
    /// multiplication.
    pub fn scalar_mul(&self, k: &FieldElement) -> (r: Result<G1Point, HostCallError>)
        ensures
            result_views(r, g1_multiple(self@, k@)),
    {
        let mut input = self.encode();
        let mut tail = k.encode();
        input.append(&mut tail);
        let record = operation_output(g1_multiplication_be(input.as_slice()));
        G1Point::from_record(record)
    }
}

/// A point of G2.
#[derive(Clone, Copy, Debug, PartialEq, Eq, Structural)]
pub struct G2Point {
    x: Fq2,
    y: Fq2,
}

impl View for G2Point {
    type V = G2Value;

    closed spec fn view(&self) -> G2Value {
        G2Value { x: self.x@, y: self.y@ }
    }
}

fn twist_coefficient_exec() -> (r: Fq2)
    ensures
        r@ == twist_coefficient(),
{
    let c0 = Fq::from_limbs(
        U256 {
            l0: 0x3267e6dc24a138e5,
            l1: 0xb5b4c5e559dbefa3,
            l2: 0x81be18991be06ac3,
            l3: 0x2b149d40ceb8aaae,
        },
    );
    let c1 = Fq::from_limbs(
        U256 {
            l0: 0xe4a2bd0685c315d2,
            l1: 0xa74fa084e52d1852,
            l2: 0xcd2cafadeed8fdf4,
            l3: 0x009713b03af0fed4,
        },
    );
    Fq2::new(c0, c1)
}

/// A 128-byte record whose halves decode to `x` and `y` is the encoding of
/// the point `(x, y)`.
proof fn lemma_g2_record_is_encoding(bytes: Seq<u8>, x: Fq2Value, y: Fq2Value)
    requires
        bytes.len() == 128,
        decode_fq2(bytes.subrange(0, 64)) == Ok::<Fq2Value, DecodeError>(x),
        decode_fq2(bytes.subrange(64, 128)) == Ok::<Fq2Value, DecodeError>(y),
    ensures
        g2_encoding(G2Value { x, y }) == bytes,
{
    let a = bytes.subrange(0, 64);
    let b = bytes.subrange(64, 128);
    lemma_be_bytes_of_value(a.subrange(0, 32));
    lemma_be_bytes_of_value(a.subrange(32, 64));
    lemma_be_bytes_of_value(b.subrange(0, 32));
    lemma_be_bytes_of_value(b.subrange(32, 64));
    assert(fq2_encoding(x) =~= a);
    assert(fq2_encoding(y) =~= b);
    assert(a + b =~= bytes);
}

impl G2Point {
    /// Every point is valid.
    #[verifier::type_invariant]
    pub closed spec fn is_valid(self) -> bool {
        g2_valid(self@)
    }

    /// The point at infinity.
    pub fn infinity() -> (r: G2Point)
        ensures
            r@ == g2_infinity(),
    {
        G2Point { x: Fq2::new(Fq::zero(), Fq::zero()), y: Fq2::new(Fq::zero(), Fq::zero()) }
    }

    /// Whether this is the point at infinity.
    pub fn is_infinity(&self) -> (r: bool)
        ensures
            r == (self@ == g2_infinity()),
    {
        self.x.is_zero() && self.y.is_zero()
    }

    /// Whether two points are the same.
    pub fn equals(&self, other: &G2Point) -> (r: bool)
        ensures
            r == (self@ == other@),
    {
        self.x.equals(&other.x) && self.y.equals(&other.y)
    }

    /// Decodes and validates a point from its 128-byte encoding. The
    /// subgroup check is the native one: the point is offered to the native
    /// pairing as an operand.
    pub fn decode(bytes: &[u8]) -> (r: Result<G2Point, DecodeError>)
        ensures
            result_views(r, decode_g2(bytes@)),
    {
        if bytes.len() != G2_SIZE {
            return Err(DecodeError::Length);
        }
        if is_all_zero(bytes) {
            return Ok(G2Point::infinity());
        }
        if bytes[0] / 64 == 1 {
            return Err(DecodeError::InvalidInfinityEncoding);
        }
        let x = match Fq2::decode(vstd::slice::slice_subrange(bytes, 0, 64)) {
            Ok(v) => v,
            Err(_) => {
                return Err(DecodeError::NotCanonical);
            },
        };
        let y = match Fq2::decode(vstd::slice::slice_subrange(bytes, 64, 128)) {
            Ok(v) => v,
            Err(_) => {
                return Err(DecodeError::NotCanonical);
            },
        };
        let lhs = y.mul(&y);
        let rhs = x.mul(&x).mul(&x).add(&twist_coefficient_exec());
        if !lhs.equals(&rhs) {
            return Err(DecodeError::NotOnCurve);
        }
        let mut input = zero_bytes(G1_SIZE);
        let mut tail = slice_to_vec(bytes);
        input.append(&mut tail);
        let record = operation_output(pairing_be(input.as_slice()));
        if record.is_none() {
            return Err(DecodeError::NotInSubgroup);
        }
        proof {
            lemma_g2_record_is_encoding(bytes@, x@, y@);
        }
        Ok(G2Point { x, y })
    }

    /// The 128-byte encoding of the point.
    pub fn encode(&self) -> (out: Vec<u8>)
        ensures
            out@ == g2_encoding(self@),
            out@.len() == 128,
            g2_valid(self@),
    {
        proof {
            use_type_invariant(self);
        }
        let mut out = self.x.encode();
        let mut tail = self.y.encode();
        out.append(&mut tail);
        out
    }
}

/// A record whose coordinates are reduced but do not satisfy the curve
/// equation is refused as not on the curve.
pub proof fn law_g1_off_curve_refused(bytes: Seq<u8>)
    requires
        bytes.len() == 64,
        !all_zero(bytes),
        !has_infinity_marker(bytes),
        be_value(bytes.subrange(0, 32)) < base_modulus(),
        be_value(bytes.subrange(32, 64)) < base_modulus(),
        !g1_on_curve(
            G1Value { x: be_value(bytes.subrange(0, 32)), y: be_value(bytes.subrange(32, 64)) },
        ),
    ensures
        decode_g1(bytes) == Err::<G1Value, DecodeError>(DecodeError::NotOnCurve),
{
}

/// A record whose coefficients are reduced but do not satisfy the twist
/// equation is refused as not on the curve.
pub proof fn law_g2_off_curve_refused(bytes: Seq<u8>, x: Fq2Value, y: Fq2Value)
    requires
        bytes.len() == 128,
        !all_zero(bytes),
        !has_infinity_marker(bytes),
        decode_fq2(bytes.subrange(0, 64)) == Ok::<Fq2Value, DecodeError>(x),
        decode_fq2(bytes.subrange(64, 128)) == Ok::<Fq2Value, DecodeError>(y),
        !g2_on_curve(G2Value { x, y }),
    ensures
        decode_g2(bytes) == Err::<G2Value, DecodeError>(DecodeError::NotOnCurve),
{
}

/// A record that satisfies the twist equation and that the native pairing
/// refuses as an operand is refused as outside the subgroup.
pub proof fn law_g2_outside_subgroup_refused(bytes: Seq<u8>, x: Fq2Value, y: Fq2Value)
    requires
        bytes.len() == 128,
        !all_zero(bytes),
        !has_infinity_marker(bytes),
        decode_fq2(bytes.subrange(0, 64)) == Ok::<Fq2Value, DecodeError>(x),
        decode_fq2(bytes.subrange(64, 128)) == Ok::<Fq2Value, DecodeError>(y),
        g2_on_curve(G2Value { x, y }),
        !g2_accepted(bytes),
    ensures
        decode_g2(bytes) == Err::<G2Value, DecodeError>(DecodeError::NotInSubgroup),
{
}

/// Every point that decodes is valid.
pub proof fn law_decoded_g1_valid(bytes: Seq<u8>)
    ensures
        decode_g1(bytes) matches Ok(p) ==> g1_valid(p),
{
}

/// Every point that decodes is valid.
pub proof fn law_decoded_g2_valid(bytes: Seq<u8>)
    ensures
        decode_g2(bytes) matches Ok(p) ==> g2_valid(p),
{
    if let Ok(p) = decode_g2(bytes) {
        if !all_zero(bytes) {
            lemma_g2_record_is_encoding(bytes, p.x, p.y);
        }
    }
}

/// The point at infinity is not on the curve, so no record but the zero
/// record decodes to it.
proof fn lemma_g1_infinity_off_curve()
    ensures
        !g1_on_curve(g1_infinity()),
{
    assert(fq_mul(0, 0) == 0) by {
        assert(0 * 0 == 0) by (nonlinear_arith);
        vstd::arithmetic::div_mod::lemma_small_mod(0, base_modulus());
    }
    assert(fq_mul(fq_mul(0, 0), 0) == 0) by {
        assert(0 * 0 == 0) by (nonlinear_arith);
        vstd::arithmetic::div_mod::lemma_small_mod(0, base_modulus());
    }
    assert(fq_add(0, 3) == 3) by {
        vstd::arithmetic::div_mod::lemma_small_mod(3, base_modulus());
    }
}

/// The encoding of a reduced coordinate: 32 bytes that denote it, the first
/// below 64, and all zero exactly when the coordinate is zero.
proof fn lemma_coordinate_encoding(v: nat)
    requires
        v < base_modulus(),
    ensures
        be_bytes(v, 32).len() == 32,
        decode_residue(be_bytes(v, 32), base_modulus()) == Ok::<nat, DecodeError>(v),
        be_bytes(v, 32)[0] < 64,
        all_zero(be_bytes(v, 32)) <==> v == 0,
{
    let e = be_bytes(v, 32);
    lemma_moduli_fit();
    lemma_be_bytes_len(v, 32);
    law_residue_round_trip(v, base_modulus());
    lemma_first_byte_weight(e);
    let weight = radix_pow(31);
    let first = e[0] as nat;
    assert(first < 64) by (nonlinear_arith)
        requires
            first * weight <= v,
            v < 64 * weight,
    ;
    if all_zero(e) {
        lemma_all_zero_value(e);
    }
    if v == 0 {
        lemma_zero_value_all_zero(e);
    }
}

/// A valid point decodes from its own encoding.
pub proof fn law_g1_round_trip(p: G1Value)
    requires
        g1_valid(p),
    ensures
        decode_g1(g1_encoding(p)) == Ok::<G1Value, DecodeError>(p),
{
    let ex = be_bytes(p.x, 32);
    let ey = be_bytes(p.y, 32);
    let enc = g1_encoding(p);
    lemma_coordinate_encoding(p.x);
    lemma_coordinate_encoding(p.y);
    lemma_g1_infinity_off_curve();
    assert(enc.subrange(0, 32) =~= ex);
    assert(enc.subrange(32, 64) =~= ey);
    assert(enc[0] == ex[0]);
    if all_zero(enc) {
        assert forall|i: int| 0 <= i < 32 implies ex[i] == 0 && ey[i] == 0 by {
            assert(ex[i] == enc[i]);
            assert(ey[i] == enc[i + 32]);
        }
        assert(p == g1_infinity());
    }
    if p == g1_infinity() {
        assert forall|i: int| 0 <= i < 64 implies enc[i] == 0 by {
            if i < 32 {
                assert(enc[i] == ex[i]);
            } else {
                assert(enc[i] == ey[i - 32]);
            }
        }
    }
}

/// A valid point decodes from its own encoding.
pub proof fn law_g2_round_trip(p: G2Value)
    requires
        g2_valid(p),
    ensures
        decode_g2(g2_encoding(p)) == Ok::<G2Value, DecodeError>(p),
{
    let e0 = be_bytes(p.x.c1, 32);
    let e1 = be_bytes(p.x.c0, 32);
    let e2 = be_bytes(p.y.c1, 32);
    let e3 = be_bytes(p.y.c0, 32);
    let enc = g2_encoding(p);
    lemma_coordinate_encoding(p.x.c1);
    lemma_coordinate_encoding(p.x.c0);
    lemma_coordinate_encoding(p.y.c1);
    lemma_coordinate_encoding(p.y.c0);
    assert(enc.subrange(0, 64) =~= fq2_encoding(p.x));
    assert(enc.subrange(64, 128) =~= fq2_encoding(p.y));
    assert(fq2_encoding(p.x).subrange(0, 32) =~= e0);
    assert(fq2_encoding(p.x).subrange(32, 64) =~= e1);
    assert(fq2_encoding(p.y).subrange(0, 32) =~= e2);
    assert(fq2_encoding(p.y).subrange(32, 64) =~= e3);
    assert(decode_fq2(enc.subrange(0, 64)) == Ok::<Fq2Value, DecodeError>(p.x));
    assert(decode_fq2(enc.subrange(64, 128)) == Ok::<Fq2Value, DecodeError>(p.y));
    assert(enc[0] == e0[0]);
    if all_zero(enc) {
        assert forall|i: int| 0 <= i < 32 implies e0[i] == 0 && e1[i] == 0 && e2[i] == 0 && e3[i]
            == 0 by {
            assert(e0[i] == enc[i]);
            assert(e1[i] == enc[i + 32]);
            assert(e2[i] == enc[i + 64]);
            assert(e3[i] == enc[i + 96]);
        }
        assert(p == g2_infinity());
    }
    if p == g2_infinity() {
        assert forall|i: int| 0 <= i < 128 implies enc[i] == 0 by {
            if i < 32 {
                assert(enc[i] == e0[i]);
            } else if i < 64 {
                assert(enc[i] == e1[i - 32]);
            } else if i < 96 {
                assert(enc[i] == e2[i - 64]);
            } else {
                assert(enc[i] == e3[i - 96]);
            }
        }
    }
}

/// No point has two encodings: records that decode to the same G1 point are
/// the same record.
pub proof fn law_g1_encoding_unique(a: Seq<u8>, b: Seq<u8>)
    requires
        decode_g1(a) is Ok,
        decode_g1(a) == decode_g1(b),
    ensures
        a == b,
{
    lemma_g1_infinity_off_curve();
    let p = decode_g1(a)->Ok_0;
    if all_zero(a) || all_zero(b) {
        assert(p == g1_infinity());
        assert(all_zero(a));
        assert(all_zero(b));
        assert(a =~= b);
    } else {
        lemma_be_value_injective(a.subrange(0, 32), b.subrange(0, 32));
        lemma_be_value_injective(a.subrange(32, 64), b.subrange(32, 64));
        assert(a =~= a.subrange(0, 32) + a.subrange(32, 64));
        assert(b =~= b.subrange(0, 32) + b.subrange(32, 64));
    }
}

/// No point has two encodings: records that decode to the same G2 point are
/// the same record.
pub proof fn law_g2_encoding_unique(a: Seq<u8>, b: Seq<u8>)
    requires
        decode_g2(a) is Ok,
        decode_g2(a) == decode_g2(b),
    ensures
        a == b,
{
    let p = decode_g2(a)->Ok_0;
    if all_zero(a) && all_zero(b) {
        assert(a =~= b);
    } else if all_zero(a) || all_zero(b) {
        let other = if all_zero(a) {
            b
        } else {
            a
        };
        assert(p == g2_infinity());
        lemma_zero_value_all_zero(other.subrange(0, 64).subrange(0, 32));
        lemma_zero_value_all_zero(other.subrange(0, 64).subrange(32, 64));
        lemma_zero_value_all_zero(other.subrange(64, 128).subrange(0, 32));
        lemma_zero_value_all_zero(other.subrange(64, 128).subrange(32, 64));
        assert forall|i: int| 0 <= i < 128 implies other[i] == 0 by {
            if i < 32 {
                assert(other[i] == other.subrange(0, 64).subrange(0, 32)[i]);
            } else if i < 64 {
                assert(other[i] == other.subrange(0, 64).subrange(32, 64)[i - 32]);
            } else if i < 96 {
                assert(other[i] == other.subrange(64, 128).subrange(0, 32)[i - 64]);
            } else {
                assert(other[i] == other.subrange(64, 128).subrange(32, 64)[i - 96]);
            }
        }
        assert(all_zero(other));
    } else {
        lemma_g2_record_is_encoding(a, p.x, p.y);
        lemma_g2_record_is_encoding(b, p.x, p.y);
    }
}

} // verus!
