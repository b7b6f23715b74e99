//! The boundary to the platform's native `alt_bn128` group operations.
//!
//! The operations are deterministic functions from an operand record to a
//! result record. Nothing of the curve arithmetic behind them is proved
//! here: each operation is known to the rest of the crate by name only, and
//! every result that comes back is validated again before it is used.
use crate::encoding::{be_value, output_record};
use vstd::prelude::*;

verus! {

/// The error type of the native operations, carried through unopened.
#[verifier::external_type_specification]
#[verifier::external_body]
pub struct ExAltBn128Error(solana_bn254::AltBn128Error);

/// The result record of the native G1 addition on `input`, the encodings of
/// two points one after the other; `None` where the operation refuses it.
pub uninterp spec fn alt_bn128_g1_addition(input: Seq<u8>) -> Option<Seq<u8>>;

/// The result record of the native G1 scalar multiplication on `input`, the
/// encoding of a point followed by a 32-byte big-endian scalar; `None` where
/// the operation refuses it.
pub uninterp spec fn alt_bn128_g1_multiplication(input: Seq<u8>) -> Option<Seq<u8>>;

/// The result record of the native pairing check on `input`, a sequence of
/// encoded (G1, G2) pairs; `None` where the operation refuses it.
pub uninterp spec fn alt_bn128_pairing(input: Seq<u8>) -> Option<Seq<u8>>;

/// Whether a native call returned what the named operation yields on the
/// same operand record.
pub open spec fn returns_operation<E>(r: Result<Vec<u8>, E>, named: Option<Seq<u8>>) -> bool {
    match r {
        Ok(out) => named == Some(out@),
        Err(_) => named is None,
    }
}

/// Calls `solana_bn254::prelude::alt_bn128_g1_addition_be`. The contract
/// claims that the call is a function of its operand bytes: it returns the
/// record named by [`alt_bn128_g1_addition`], or fails where that is `None`;
/// and that a record it returns is 64 bytes long. It is claimed of whole
/// operand records only, the two points of 64 bytes each.
#[verifier::external_body]
pub(crate) fn g1_addition_be(input: &[u8]) -> (r: Result<Vec<u8>, solana_bn254::AltBn128Error>)
    requires
        input@.len() == 128,
    ensures
        returns_operation(r, alt_bn128_g1_addition(input@)),
        r matches Ok(out) ==> out@.len() == 64,
{
    solana_bn254::prelude::alt_bn128_g1_addition_be(input)
}

/// Calls `solana_bn254::prelude::alt_bn128_g1_multiplication_be`. The
/// contract claims that the call is a function of its operand bytes: it
/// returns the record named by [`alt_bn128_g1_multiplication`], or fails
/// where that is `None`; and that a record it returns is 64 bytes long. It
/// is claimed of whole operand records only, the point of 64 bytes and the
/// scalar of 32.
#[verifier::external_body]
pub(crate) fn g1_multiplication_be(input: &[u8]) -> (r: Result<
    Vec<u8>,
    solana_bn254::AltBn128Error,
>)
    requires
        input@.len() == 96,
    ensures
        returns_operation(r, alt_bn128_g1_multiplication(input@)),
        r matches Ok(out) ==> out@.len() == 64,
{
    solana_bn254::prelude::alt_bn128_g1_multiplication_be(input)
}

/// Calls `solana_bn254::prelude::alt_bn128_pairing_be`. The contract claims
/// that the call is a function of its operand bytes: it returns the record
/// named by [`alt_bn128_pairing`], or fails where that is `None`; and that a
/// record it returns is 32 bytes long and denotes zero or one. It is claimed
/// of whole operand records only, a number of pairs of 192 bytes each.
#[verifier::external_body]
pub(crate) fn pairing_be(input: &[u8]) -> (r: Result<Vec<u8>, solana_bn254::AltBn128Error>)
    requires
        input@.len() % 192 == 0,
    ensures
        returns_operation(r, alt_bn128_pairing(input@)),
        r matches Ok(out) ==> out@.len() == 32 && be_value(out@) <= 1,
{
    solana_bn254::prelude::alt_bn128_pairing_be(input)
}

/// The record that a native call returned, with the reason for a failure
/// dropped: the boundary reports one kind of refusal.
pub(crate) fn operation_output(r: Result<Vec<u8>, solana_bn254::AltBn128Error>) -> (out: Option<Vec<u8>>)
    ensures
        out is Some == r is Ok,
        forall|named: Option<Seq<u8>>| #[trigger]
            returns_operation(r, named) ==> output_record(out) == named,
{
    match r {
        Ok(v) => Some(v),
        Err(_) => None,
    }
}

} // verus!
