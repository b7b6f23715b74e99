//! The quadratic extension of the base field, over which the twist of the
//! curve is defined.
use crate::encoding::be_bytes;
use crate::error::{result_views, DecodeError};
use crate::field::{base_modulus, decode_residue, fq_add, fq_mul, fq_sub, Fq};
use vstd::prelude::*;

verus! {

/// The element `c0 + c1 * u` of the extension, where `u * u = -1`.
pub struct Fq2Value {
    pub c0: nat,
    pub c1: nat,
}

/// The sum in the extension, coefficient by coefficient.
pub open spec fn fq2_add(a: Fq2Value, b: Fq2Value) -> Fq2Value {
    Fq2Value { c0: fq_add(a.c0, b.c0), c1: fq_add(a.c1, b.c1) }
}

/// The product in the extension: `u * u` is replaced by `-1`.
pub open spec fn fq2_mul(a: Fq2Value, b: Fq2Value) -> Fq2Value {
    Fq2Value {
        c0: fq_sub(fq_mul(a.c0, b.c0), fq_mul(a.c1, b.c1)),
        c1: fq_add(fq_mul(a.c0, b.c1), fq_mul(a.c1, b.c0)),
    }
}

/// The 64-byte encoding of an extension element: the coefficient of `u`
/// first, each coefficient big-endian.
pub open spec fn fq2_encoding(v: Fq2Value) -> Seq<u8> {
    be_bytes(v.c1, 32) + be_bytes(v.c0, 32)
}

/// What decoding an extension element yields: both halves must be reduced.
pub open spec fn decode_fq2(bytes: Seq<u8>) -> Result<Fq2Value, DecodeError> {
    if bytes.len() != 64 {
        Err(DecodeError::Length)
    } else {
        match (
            decode_residue(bytes.subrange(0, 32), base_modulus()),
            decode_residue(bytes.subrange(32, 64), base_modulus()),
        ) {
            (Ok(c1), Ok(c0)) => Ok(Fq2Value { c0, c1 }),
            _ => Err(DecodeError::NotCanonical),
        }
    }
}

/// An element of the quadratic extension, both coefficients reduced.
#[derive(Clone, Copy, Debug, PartialEq, Eq, Structural)]
pub struct Fq2 {
    c0: Fq,
    c1: Fq,
}

impl View for Fq2 {
    type V = Fq2Value;

    closed spec fn view(&self) -> Fq2Value {
        Fq2Value { c0: self.c0@, c1: self.c1@ }
    }
}

impl Fq2 {
    /// The element `c0 + c1 * u`.
    pub fn new(c0: Fq, c1: Fq) -> (r: Fq2)
        ensures
            r@ == (Fq2Value { c0: c0@, c1: c1@ }),
    {
        Fq2 { c0, c1 }
    }

    /// Decodes an extension element from its 64-byte encoding.
    pub fn decode(bytes: &[u8]) -> (r: Result<Fq2, DecodeError>)
        ensures
            result_views(r, decode_fq2(bytes@)),
    {
        if bytes.len() != 64 {
            return Err(DecodeError::Length);
        }
        let hi = vstd::slice::slice_subrange(bytes, 0, 32);
        let lo = vstd::slice::slice_subrange(bytes, 32, 64);
        let c1 = match Fq::decode(hi) {
            Ok(v) => v,
            Err(_) => {
                return Err(DecodeError::NotCanonical);
            },
        };
        let c0 = match Fq::decode(lo) {
            Ok(v) => v,
            Err(_) => {
                return Err(DecodeError::NotCanonical);
            },
        };
        Ok(Fq2 { c0, c1 })
    }

    /// The 64-byte encoding of the element.
    pub fn encode(&self) -> (out: Vec<u8>)
        ensures
            out@ == fq2_encoding(self@),
            out@.len() == 64,
            self@.c0 < base_modulus(),
            self@.c1 < base_modulus(),
    {
        let mut out = self.c1.encode();
        let mut lo = self.c0.encode();
        out.append(&mut lo);
        out
    }

    /// Whether the element is zero.
    pub fn is_zero(&self) -> (r: bool)
        ensures
            r == (self@.c0 == 0 && self@.c1 == 0),
    {
        self.c0.is_zero() && self.c1.is_zero()
    }

    /// Whether two elements are the same.
    pub fn equals(&self, other: &Fq2) -> (r: bool)
        ensures
            r == (self@ == other@),
    {
        self.c0.equals(&other.c0) && self.c1.equals(&other.c1)
    }

    /// The sum in the extension.
    pub fn add(&self, other: &Fq2) -> (r: Fq2)
        ensures
            r@ == fq2_add(self@, other@),
    {
        Fq2 { c0: self.c0.add(&other.c0), c1: self.c1.add(&other.c1) }
    }

    /// The product in the extension.
    pub fn mul(&self, other: &Fq2) -> (r: Fq2)
        ensures
            r@ == fq2_mul(self@, other@),
    {
        let a = self.c0.mul(&other.c0);
        let b = self.c1.mul(&other.c1);
        let c = self.c0.mul(&other.c1);
        let d = self.c1.mul(&other.c0);
        Fq2 { c0: a.sub(&b), c1: c.add(&d) }
    }
}

} // verus!
