//! The typed outcomes of decoding and verification.
use vstd::prelude::*;

verus! {

/// Why a byte record was refused before any pairing was evaluated.
#[derive(Clone, Copy, Debug, PartialEq, Eq, Structural)]
pub enum DecodeError {
    /// The buffer does not have the exact length of the record it should hold.
    Length,
    /// A field element is encoded as a number at or above the modulus.
    NotCanonical,
    /// The coordinates do not satisfy the curve equation.
    NotOnCurve,
    /// The point lies on the curve but outside the prime-order subgroup.
    NotInSubgroup,
    /// The record carries the infinity marker; the point at infinity is
    /// encoded by zero bytes only.
    InvalidInfinityEncoding,
    /// The number of public inputs does not match the verifying key.
    InputCountMismatch,
    /// The verifying key declares more than one commitment, or not the
    /// number that the call expects.
    CommitmentCount,
}

/// Why a call across the native group-operation boundary failed.
#[derive(Clone, Copy, Debug, PartialEq, Eq, Structural)]
pub enum HostCallError {
    /// The native operation refused its operands.
    Rejected,
    /// The native operation returned bytes that are not a valid result.
    MalformedOutput,
}

/// Which check a well-formed but invalid proof failed.
#[derive(Clone, Copy, Debug, PartialEq, Eq, Structural)]
pub enum VerificationFailed {
    /// The Groth16 pairing equation did not hold.
    PairingEquation,
    /// The proof of knowledge of the commitment did not verify.
    CommitmentProof,
}

/// The reason attached to a rejection.
#[derive(Clone, Copy, Debug, PartialEq, Eq, Structural)]
pub enum Rejection {
    /// The input could not be parsed.
    Decode(DecodeError),
    /// The native boundary failed.
    Host(HostCallError),
    /// The input was well formed and the proof is invalid.
    Failed(VerificationFailed),
}

/// The terminal outcome of one verification call.
#[derive(Clone, Copy, Debug, PartialEq, Eq, Structural)]
pub enum Verdict {
    Accepted,
    Rejected(Rejection),
}

/// Whether a result carries a value whose view is the expected one, or the
/// expected error.
pub open spec fn result_views<T: View, E>(r: Result<T, E>, expected: Result<T::V, E>) -> bool {
    match r {
        Ok(v) => expected == Ok::<T::V, E>(v@),
        Err(e) => expected == Err::<T::V, E>(e),
    }
}

impl Rejection {
    /// Whether the rejection reports an invalid proof rather than an input
    /// that could not be processed.
    pub fn is_invalid_proof(&self) -> (r: bool)
        ensures
            r == (*self is Failed),
    {
        match self {
            Rejection::Failed(_) => true,
            _ => false,
        }
    }
}

impl Verdict {
    /// Whether the proof was accepted.
    pub fn is_accepted(&self) -> (r: bool)
        ensures
            r == (*self is Accepted),
    {
        match self {
            Verdict::Accepted => true,
            Verdict::Rejected(_) => false,
        }
    }

    /// The decode error behind a rejection, if that is what caused it.
    pub fn decode_error(&self) -> (r: Option<DecodeError>)
        ensures
            r == match *self {
                Verdict::Rejected(Rejection::Decode(e)) => Some(e),
                _ => None,
            },
    {
        match self {
            Verdict::Rejected(Rejection::Decode(e)) => Some(*e),
            _ => None,
        }
    }
}

} // verus!
