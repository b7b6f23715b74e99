//! Elements of the scalar and base fields of BN254 in canonical form.
use crate::bigint::{add_mod, mul_mod, sub_mod, U256};
use crate::encoding::{
    be_bytes, be_value, lemma_be_bytes_len, lemma_be_value_injective, lemma_be_value_of_bytes,
    radix_pow,
};
use crate::error::{result_views, DecodeError};
use vstd::prelude::*;

verus! {

/// The width of one encoded field element, in bytes.
pub const FIELD_SIZE: usize = 32;

/// The limbs of the scalar-field modulus `r`.
pub open spec fn scalar_modulus_limbs() -> U256 {
    U256 {
        l0: 0x43e1f593f0000001,
        l1: 0x2833e84879b97091,
        l2: 0xb85045b68181585d,
        l3: 0x30644e72e131a029,
    }
}

/// The limbs of the base-field modulus `q`.
pub open spec fn base_modulus_limbs() -> U256 {
    U256 {
        l0: 0x3c208c16d87cfd47,
        l1: 0x97816a916871ca8d,
        l2: 0xb85045b68181585d,
        l3: 0x30644e72e131a029,
    }
}

/// The order `r` of the pairing groups: the modulus of public inputs and
/// challenges.
pub open spec fn scalar_modulus() -> nat {
    scalar_modulus_limbs().value()
}

/// The prime `q` over which the curve is defined: the modulus of point
/// coordinates.
pub open spec fn base_modulus() -> nat {
    base_modulus_limbs().value()
}

fn scalar_modulus_exec() -> (m: U256)
    ensures
        m == scalar_modulus_limbs(),
{
    U256 {
        l0: 0x43e1f593f0000001,
        l1: 0x2833e84879b97091,
        l2: 0xb85045b68181585d,
        l3: 0x30644e72e131a029,
    }
}

fn base_modulus_exec() -> (m: U256)
    ensures
        m == base_modulus_limbs(),
{
    U256 {
        l0: 0x3c208c16d87cfd47,
        l1: 0x97816a916871ca8d,
        l2: 0xb85045b68181585d,
        l3: 0x30644e72e131a029,
    }
}

/// What decoding a field element modulo `modulus` yields: the number that
/// the 32 bytes denote, refused unless it is below the modulus.
pub open spec fn decode_residue(bytes: Seq<u8>, modulus: nat) -> Result<nat, DecodeError> {
    if bytes.len() != 32 {
        Err(DecodeError::Length)
    } else if be_value(bytes) >= modulus {
        Err(DecodeError::NotCanonical)
    } else {
        Ok(be_value(bytes))
    }
}

/// Both moduli are below `2^254`: an encoded element has its two highest bits
/// clear.
pub proof fn lemma_moduli_fit()
    ensures
        scalar_modulus() < base_modulus(),
        base_modulus() < 64 * radix_pow(31),
        radix_pow(32) == 256 * radix_pow(31),
{
    reveal_with_fuel(radix_pow, 33);
}

/// A reduced value decodes from its own encoding.
pub proof fn law_residue_round_trip(value: nat, modulus: nat)
    requires
        value < modulus,
        modulus <= radix_pow(32),
    ensures
        decode_residue(be_bytes(value, 32), modulus) == Ok::<nat, DecodeError>(value),
{
    lemma_be_bytes_len(value, 32);
    lemma_be_value_of_bytes(value, 32);
    vstd::arithmetic::div_mod::lemma_small_mod(value, radix_pow(32));
}

/// No value has two encodings: records that decode to the same element are
/// the same record.
pub proof fn law_residue_encoding_unique(a: Seq<u8>, b: Seq<u8>, modulus: nat)
    requires
        decode_residue(a, modulus) is Ok,
        decode_residue(a, modulus) == decode_residue(b, modulus),
    ensures
        a == b,
{
    lemma_be_value_injective(a, b);
}

/// A residue modulo the scalar-field modulus `r`.
#[derive(Clone, Copy, Debug, PartialEq, Eq, Structural)]
pub struct FieldElement {
    n: U256,
}

impl View for FieldElement {
    type V = nat;

    closed spec fn view(&self) -> nat {
        self.n.value()
    }
}

impl FieldElement {
    /// Every element is reduced: its value is below the modulus.
    #[verifier::type_invariant]
    pub closed spec fn is_canonical(self) -> bool {
        self.n.value() < scalar_modulus()
    }

    /// Decodes a scalar from its 32-byte big-endian encoding, refusing any
    /// encoding that is not reduced.
    pub fn decode(bytes: &[u8]) -> (r: Result<FieldElement, DecodeError>)
        ensures
            result_views(r, decode_residue(bytes@, scalar_modulus())),
    {
        if bytes.len() != FIELD_SIZE {
            return Err(DecodeError::Length);
        }
        let n = U256::from_be_bytes(bytes);
        let m = scalar_modulus_exec();
        if n.lt(&m) {
            Ok(FieldElement { n })
        } else {
            Err(DecodeError::NotCanonical)
        }
    }

    /// The 32-byte big-endian encoding of the element.
    pub fn encode(&self) -> (out: Vec<u8>)
        ensures
            out@ == be_bytes(self@, 32),
            out@.len() == 32,
            self@ < scalar_modulus(),
    {
        proof {
            use_type_invariant(self);
            lemma_be_bytes_len(self@, 32);
        }
        self.n.to_be_bytes()
    }

    /// The scalar that a machine word denotes.
    pub fn from_u64(v: u64) -> (r: FieldElement)
        ensures
            r@ == v,
    {
        FieldElement { n: U256::from_u64(v) }
    }

    /// Whether two scalars are the same residue.
    pub fn equals(&self, other: &FieldElement) -> (r: bool)
        ensures
            r == (self@ == other@),
    {
        proof {
            if self@ == other@ {
                self.n.lemma_value_injective(other.n);
            }
        }
        self.n == other.n
    }

    /// The sum in the scalar field.
    pub fn add(&self, other: &FieldElement) -> (r: FieldElement)
        ensures
            r@ == fr_add(self@, other@),
    {
        proof {
            use_type_invariant(self);
            use_type_invariant(other);
        }
        let m = scalar_modulus_exec();
        FieldElement { n: add_mod(&self.n, &other.n, &m) }
    }

    /// The difference in the scalar field.
    pub fn sub(&self, other: &FieldElement) -> (r: FieldElement)
        ensures
            r@ == fr_sub(self@, other@),
    {
        proof {
            use_type_invariant(self);
            use_type_invariant(other);
        }
        let m = scalar_modulus_exec();
        FieldElement { n: sub_mod(&self.n, &other.n, &m) }
    }

    /// The product in the scalar field.
    pub fn mul(&self, other: &FieldElement) -> (r: FieldElement)
        ensures
            r@ == fr_mul(self@, other@),
    {
        proof {
            use_type_invariant(self);
            use_type_invariant(other);
        }
        let m = scalar_modulus_exec();
        FieldElement { n: mul_mod(&self.n, &other.n, &m) }
    }

    /// The scalar that a big-endian byte string of any length denotes,
    /// reduced modulo `r`.
    pub fn from_be_bytes_reduced(bytes: &[u8]) -> (r: FieldElement)
        ensures
            r@ == be_value(bytes@) % scalar_modulus(),
    {
        let m = scalar_modulus_exec();
        let radix = U256::from_u64(256);
        let mut acc = U256::zero();
        let mut i: usize = 0;
        proof {
            assert(bytes@.subrange(0, 0) =~= Seq::<u8>::empty());
            vstd::arithmetic::div_mod::lemma_small_mod(0, scalar_modulus());
        }
        while i < bytes.len()
            invariant
                i <= bytes@.len(),
                m == scalar_modulus_limbs(),
                radix.value() == 256,
                acc.value() == be_value(bytes@.subrange(0, i as int)) % scalar_modulus(),
            decreases bytes@.len() - i,
        {
            let shifted = mul_mod(&acc, &radix, &m);
            let digit = U256::from_u64(bytes[i] as u64);
            let next = add_mod(&shifted, &digit, &m);
            proof {
                let prefix = bytes@.subrange(0, i as int);
                let longer = bytes@.subrange(0, i + 1);
                assert(longer.drop_last() =~= prefix);
                lemma_horner_step(be_value(prefix), bytes@[i as int] as nat, scalar_modulus());
            }
            acc = next;
            i += 1;
        }
        proof {
            assert(bytes@.subrange(0, i as int) =~= bytes@);
        }
        FieldElement { n: acc }
    }
}

/// The sum of two residues modulo `r`.
pub open spec fn fr_add(a: nat, b: nat) -> nat {
    (a + b) % scalar_modulus()
}

/// The difference of two residues modulo `r`.
pub open spec fn fr_sub(a: nat, b: nat) -> nat {
    ((a - b) % (scalar_modulus() as int)) as nat
}

/// The product of two residues modulo `r`.
pub open spec fn fr_mul(a: nat, b: nat) -> nat {
    (a * b) % scalar_modulus()
}

/// The sum of two residues modulo `q`.
pub open spec fn fq_add(a: nat, b: nat) -> nat {
    (a + b) % base_modulus()
}

/// The difference of two residues modulo `q`.
pub open spec fn fq_sub(a: nat, b: nat) -> nat {
    ((a - b) % (base_modulus() as int)) as nat
}

/// The product of two residues modulo `q`.
pub open spec fn fq_mul(a: nat, b: nat) -> nat {
    (a * b) % base_modulus()
}

/// The additive inverse of a residue modulo `q`.
pub open spec fn fq_neg(a: nat) -> nat {
    fq_sub(0, a)
}

/// A residue modulo the base-field modulus `q`: one coordinate of a point.
#[derive(Clone, Copy, Debug, PartialEq, Eq, Structural)]
pub struct Fq {
    n: U256,
}

impl View for Fq {
    type V = nat;

    closed spec fn view(&self) -> nat {
        self.n.value()
    }
}

impl Fq {
    /// Every coordinate is reduced: its value is below the modulus.
    #[verifier::type_invariant]
    pub closed spec fn is_canonical(self) -> bool {
        self.n.value() < base_modulus()
    }

    /// Two coordinates with the same value are the same coordinate.
    pub proof fn lemma_view_injective(self, other: Fq)
        requires
            self@ == other@,
        ensures
            self == other,
    {
        self.n.lemma_value_injective(other.n);
    }

    /// Decodes a coordinate from its 32-byte big-endian encoding, refusing
    /// any encoding that is not reduced.
    pub fn decode(bytes: &[u8]) -> (r: Result<Fq, DecodeError>)
        ensures
            result_views(r, decode_residue(bytes@, base_modulus())),
    {
        if bytes.len() != FIELD_SIZE {
            return Err(DecodeError::Length);
        }
        let n = U256::from_be_bytes(bytes);
        let m = base_modulus_exec();
        if n.lt(&m) {
            Ok(Fq { n })
        } else {
            Err(DecodeError::NotCanonical)
        }
    }

    /// The 32-byte big-endian encoding of the coordinate.
    pub fn encode(&self) -> (out: Vec<u8>)
        ensures
            out@ == be_bytes(self@, 32),
            out@.len() == 32,
            self@ < base_modulus(),
    {
        proof {
            use_type_invariant(self);
            lemma_be_bytes_len(self@, 32);
        }
        self.n.to_be_bytes()
    }

    /// The coordinate with the given limbs, which must denote a reduced
    /// value.
    pub(crate) fn from_limbs(n: U256) -> (r: Fq)
        requires
            n.value() < base_modulus(),
        ensures
            r@ == n.value(),
    {
        Fq { n }
    }

    /// The coordinate zero.
    pub fn zero() -> (r: Fq)
        ensures
            r@ == 0,
    {
        Fq { n: U256::zero() }
    }

    /// The coordinate that a machine word denotes.
    pub fn from_u64(v: u64) -> (r: Fq)
        ensures
            r@ == v,
    {
        Fq { n: U256::from_u64(v) }
    }

    /// Whether the coordinate is zero.
    pub fn is_zero(&self) -> (r: bool)
        ensures
            r == (self@ == 0),
            self@ < base_modulus(),
    {
        proof {
            use_type_invariant(self);
        }
        self.n.is_zero()
    }

    /// Whether two coordinates are the same residue.
    pub fn equals(&self, other: &Fq) -> (r: bool)
        ensures
            r == (self@ == other@),
    {
        proof {
            if self@ == other@ {
                self.lemma_view_injective(*other);
            }
        }
        self.n == other.n
    }

    /// The sum in the base field.
    pub fn add(&self, other: &Fq) -> (r: Fq)
        ensures
            r@ == fq_add(self@, other@),
    {
        proof {
            use_type_invariant(self);
            use_type_invariant(other);
        }
        let m = base_modulus_exec();
        Fq { n: add_mod(&self.n, &other.n, &m) }
    }

    /// The difference in the base field.
    pub fn sub(&self, other: &Fq) -> (r: Fq)
        ensures
            r@ == fq_sub(self@, other@),
    {
        proof {
            use_type_invariant(self);
            use_type_invariant(other);
        }
        let m = base_modulus_exec();
        Fq { n: sub_mod(&self.n, &other.n, &m) }
    }

    /// The product in the base field.
    pub fn mul(&self, other: &Fq) -> (r: Fq)
        ensures
            r@ == fq_mul(self@, other@),
    {
        proof {
            use_type_invariant(self);
            use_type_invariant(other);
        }
        let m = base_modulus_exec();
        Fq { n: mul_mod(&self.n, &other.n, &m) }
    }

    /// The additive inverse in the base field.
    pub fn neg(&self) -> (r: Fq)
        ensures
            r@ == fq_neg(self@),
    {
        Fq::zero().sub(self)
    }
}

/// Reducing after each digit is the same as reducing once at the end.
proof fn lemma_horner_step(prefix: nat, digit: nat, m: nat)
    requires
        m > 256,
        digit < 256,
    ensures
        ((((prefix % m) * 256) % m) + digit) % m == (prefix * 256 + digit) % m,
{
    vstd::arithmetic::div_mod::lemma_mul_mod_noop_left(prefix as int, 256, m as int);
    vstd::arithmetic::div_mod::lemma_add_mod_noop((prefix * 256) as int, digit as int, m as int);
    vstd::arithmetic::div_mod::lemma_small_mod(digit, m);
}

} // verus!
