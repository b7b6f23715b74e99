//! The multi-pairing check: whether a product of pairings is the identity of
//! the target group.
use crate::curve::{g1_encoding, g2_encoding, G1Point, G1Value, G2Point, G2Value};
use crate::encoding::{
    all_zero, be_value, is_all_zero, lemma_all_zero_value, lemma_zero_value_all_zero,
    output_record,
};
use crate::error::HostCallError;
use crate::syscalls::{alt_bn128_pairing, operation_output, pairing_be};
use vstd::prelude::*;

verus! {

/// The operand record of the native pairing: each pair as the encoding of
/// its G1 point followed by the encoding of its G2 point.
pub open spec fn pairing_input(pairs: Seq<(G1Value, G2Value)>) -> Seq<u8>
    decreases pairs.len(),
{
    if pairs.len() == 0 {
        Seq::empty()
    } else {
        pairing_input(pairs.drop_last()) + g1_encoding(pairs.last().0) + g2_encoding(
            pairs.last().1,
        )
    }
}

/// How the result record of the native pairing is read: 32 bytes that
/// denote one when the product is the identity and zero when it is not.
pub open spec fn pairing_verdict(record: Option<Seq<u8>>) -> Result<bool, HostCallError> {
    match record {
        None => Err(HostCallError::Rejected),
        Some(bytes) => if bytes.len() == 32 && be_value(bytes) == 1 {
            Ok(true)
        } else if bytes.len() == 32 && be_value(bytes) == 0 {
            Ok(false)
        } else {
            Err(HostCallError::MalformedOutput)
        },
    }
}

/// Whether the product of the pairings of `pairs` is the identity, as the
/// native pairing computes it.
pub open spec fn pairing_product_is_one(pairs: Seq<(G1Value, G2Value)>) -> Result<
    bool,
    HostCallError,
> {
    pairing_verdict(alt_bn128_pairing(pairing_input(pairs)))
}

/// The coordinates of each point of a sequence of pairs.
pub open spec fn pair_values(pairs: Seq<(G1Point, G2Point)>) -> Seq<(G1Value, G2Value)> {
    pairs.map_values(|p: (G1Point, G2Point)| (p.0@, p.1@))
}

/// Reads the result record of the native pairing.
pub fn read_pairing_record(record: Option<Vec<u8>>) -> (r: Result<bool, HostCallError>)
    ensures
        r == pairing_verdict(output_record(record)),
{
    match record {
        None => Err(HostCallError::Rejected),
        Some(bytes) => {
            if bytes.len() != 32 {
                return Err(HostCallError::MalformedOutput);
            }
            let front = vstd::slice::slice_subrange(bytes.as_slice(), 0, 31);
            let last = bytes[31];
            proof {
                assert(bytes@.drop_last() =~= front@);
                if all_zero(front@) {
                    lemma_all_zero_value(front@);
                }
                if be_value(front@) == 0 {
                    lemma_zero_value_all_zero(front@);
                }
            }
            if !is_all_zero(front) {
                Err(HostCallError::MalformedOutput)
            } else if last == 1 {
                Ok(true)
            } else if last == 0 {
                Ok(false)
            } else {
                Err(HostCallError::MalformedOutput)
            }
        },
    }
}

/// Evaluates the native multi-pairing on `pairs` and reports whether the
/// product of the pairings is the identity. A product that is not the
/// identity is an ordinary `Ok(false)`; an error means that the native
/// boundary refused the operands or returned an unreadable record.
pub fn multi_pairing(pairs: &[(G1Point, G2Point)]) -> (r: Result<bool, HostCallError>)
    ensures
        r == pairing_product_is_one(pair_values(pairs@)),
{
    let mut input: Vec<u8> = Vec::new();
    let mut i: usize = 0;
    while i < pairs.len()
        invariant
            i <= pairs@.len(),
            input@.len() == 192 * i,
            input@ == pairing_input(pair_values(pairs@.subrange(0, i as int))),
        decreases pairs@.len() - i,
    {
        let mut p = pairs[i].0.encode();
        let mut q = pairs[i].1.encode();
        proof {
            let before = pair_values(pairs@.subrange(0, i as int));
            let after = pair_values(pairs@.subrange(0, i + 1));
            assert(after.drop_last() =~= before);
            assert(after.last() == (pairs@[i as int].0@, pairs@[i as int].1@));
        }
        input.append(&mut p);
        input.append(&mut q);
        i += 1;
    }
    proof {
        assert(pairs@.subrange(0, i as int) =~= pairs@);
    }
    let record = operation_output(pairing_be(input.as_slice()));
    read_pairing_record(record)
}

} // verus!
