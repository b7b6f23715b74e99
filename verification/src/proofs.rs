//! The proof record: the prover's three points and, where the commitment
//! extension is in use, the commitment and its proof of knowledge.
use crate::curve::{
    decode_g1, decode_g2, law_g1_encoding_unique, law_g2_encoding_unique, G1Point, G1Value, G2Point,
    G2Value,
};
use crate::error::{result_views, DecodeError};
use vstd::prelude::*;

verus! {

/// The length of a proof record without the commitment extension.
pub const PROOF_SIZE: usize = 256;

/// The length of a proof record with the commitment extension.
pub const PROOF_SIZE_WITH_COMMITMENT: usize = 384;

/// A commitment to private witness values and the point that proves
/// knowledge of its opening.
pub struct CommitmentValue {
    pub point: G1Value,
    pub knowledge: G1Value,
}

/// The points of a proof.
pub struct ProofValue {
    pub a: G1Value,
    pub b: G2Value,
    pub c: G1Value,
    pub commitment: Option<CommitmentValue>,
}

/// The exact length of a proof record in the given mode.
pub open spec fn proof_size(expects_commitment: bool) -> nat {
    if expects_commitment {
        384
    } else {
        256
    }
}

/// What decoding the commitment part of a proof record yields.
pub open spec fn decode_commitment(bytes: Seq<u8>) -> Result<CommitmentValue, DecodeError> {
    match decode_g1(bytes.subrange(256, 320)) {
        Err(e) => Err(e),
        Ok(point) => match decode_g1(bytes.subrange(320, 384)) {
            Err(e) => Err(e),
            Ok(knowledge) => Ok(CommitmentValue { point, knowledge }),
        },
    }
}

/// What decoding a proof record yields. The record holds `a`, `b` and `c`
/// at fixed offsets, followed in commitment mode by the commitment and its
/// proof of knowledge. A buffer of any other length than the mode's is
/// refused, whatever it holds; otherwise the first point that fails to
/// decode gives the error.
pub open spec fn decode_proof(bytes: Seq<u8>, expects_commitment: bool) -> Result<
    ProofValue,
    DecodeError,
> {
    if bytes.len() != proof_size(expects_commitment) {
        Err(DecodeError::Length)
    } else {
        match decode_g1(bytes.subrange(0, 64)) {
            Err(e) => Err(e),
            Ok(a) => match decode_g2(bytes.subrange(64, 192)) {
                Err(e) => Err(e),
                Ok(b) => match decode_g1(bytes.subrange(192, 256)) {
                    Err(e) => Err(e),
                    Ok(c) => if expects_commitment {
                        match decode_commitment(bytes) {
                            Err(e) => Err(e),
                            Ok(commitment) => Ok(
                                ProofValue { a, b, c, commitment: Some(commitment) },
                            ),
                        }
                    } else {
                        Ok(ProofValue { a, b, c, commitment: None })
                    },
                },
            },
        }
    }
}

/// A commitment and its proof of knowledge.
#[derive(Clone, Copy, Debug)]
pub struct Commitment {
    pub point: G1Point,
    pub knowledge: G1Point,
}

impl View for Commitment {
    type V = CommitmentValue;

    open spec fn view(&self) -> CommitmentValue {
        CommitmentValue { point: self.point@, knowledge: self.knowledge@ }
    }
}

/// A decoded proof. Every point in it has been validated.
#[derive(Clone, Copy, Debug)]
pub struct Proof {
    pub a: G1Point,
    pub b: G2Point,
    pub c: G1Point,
    pub commitment: Option<Commitment>,
}

impl View for Proof {
    type V = ProofValue;

    open spec fn view(&self) -> ProofValue {
        ProofValue {
            a: self.a@,
            b: self.b@,
            c: self.c@,
            commitment: match self.commitment {
                Some(c) => Some(c@),
                None => None,
            },
        }
    }
}

impl Proof {
    /// Decodes a proof record. `expects_commitment` selects the mode, and
    /// with it the one length that is accepted.
    pub fn parse(bytes: &[u8], expects_commitment: bool) -> (r: Result<Proof, DecodeError>)
        ensures
            result_views(r, decode_proof(bytes@, expects_commitment)),
    {
        let expected = if expects_commitment {
            PROOF_SIZE_WITH_COMMITMENT
        } else {
            PROOF_SIZE
        };
        if bytes.len() != expected {
            return Err(DecodeError::Length);
        }
        let a = match G1Point::decode(vstd::slice::slice_subrange(bytes, 0, 64)) {
            Ok(p) => p,
            Err(e) => {
                return Err(e);
            },
        };
        let b = match G2Point::decode(vstd::slice::slice_subrange(bytes, 64, 192)) {
            Ok(p) => p,
            Err(e) => {
                return Err(e);
            },
        };
        let c = match G1Point::decode(vstd::slice::slice_subrange(bytes, 192, 256)) {
            Ok(p) => p,
            Err(e) => {
                return Err(e);
            },
        };
        if !expects_commitment {
            return Ok(Proof { a, b, c, commitment: None });
        }
        let point = match G1Point::decode(vstd::slice::slice_subrange(bytes, 256, 320)) {
            Ok(p) => p,
            Err(e) => {
                return Err(e);
            },
        };
        let knowledge = match G1Point::decode(vstd::slice::slice_subrange(bytes, 320, 384)) {
            Ok(p) => p,
            Err(e) => {
                return Err(e);
            },
        };
        Ok(Proof { a, b, c, commitment: Some(Commitment { point, knowledge }) })
    }
}

/// No proof has two encodings: records that decode to the same proof in the
/// same mode are the same record. A record changed in any byte is therefore
/// a decode error or a different proof.
pub proof fn law_proof_encoding_unique(a: Seq<u8>, b: Seq<u8>, expects_commitment: bool)
    requires
        decode_proof(a, expects_commitment) is Ok,
        decode_proof(a, expects_commitment) == decode_proof(b, expects_commitment),
    ensures
        a == b,
{
    law_g1_encoding_unique(a.subrange(0, 64), b.subrange(0, 64));
    law_g2_encoding_unique(a.subrange(64, 192), b.subrange(64, 192));
    law_g1_encoding_unique(a.subrange(192, 256), b.subrange(192, 256));
    if expects_commitment {
        law_g1_encoding_unique(a.subrange(256, 320), b.subrange(256, 320));
        law_g1_encoding_unique(a.subrange(320, 384), b.subrange(320, 384));
        assert(a =~= a.subrange(0, 64) + a.subrange(64, 192) + a.subrange(192, 256) + a.subrange(
            256,
            320,
        ) + a.subrange(320, 384));
        assert(b =~= b.subrange(0, 64) + b.subrange(64, 192) + b.subrange(192, 256) + b.subrange(
            256,
            320,
        ) + b.subrange(320, 384));
    } else {
        assert(a =~= a.subrange(0, 64) + a.subrange(64, 192) + a.subrange(192, 256));
        assert(b =~= b.subrange(0, 64) + b.subrange(64, 192) + b.subrange(192, 256));
    }
}

} // verus!
