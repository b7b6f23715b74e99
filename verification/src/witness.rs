//! The public inputs of one verification call: an ordered sequence of
//! scalars.
use crate::error::{result_views, DecodeError};
use crate::field::{decode_residue, scalar_modulus, FieldElement};
use vstd::prelude::*;

verus! {

/// What decoding the first `count` scalars of a record yields: the scalars
/// in order, or the error of the first one that is not reduced.
pub open spec fn decode_scalars(bytes: Seq<u8>, count: nat) -> Result<Seq<nat>, DecodeError>
    decreases count,
{
    if count == 0 {
        Ok(Seq::empty())
    } else {
        match decode_scalars(bytes, (count - 1) as nat) {
            Err(e) => Err(e),
            Ok(front) => match decode_residue(
                bytes.subrange(32 * (count - 1), 32 * count as int),
                scalar_modulus(),
            ) {
                Err(e) => Err(e),
                Ok(v) => Ok(front.push(v)),
            },
        }
    }
}

/// What decoding a public-input record yields. The record is a whole number
/// of 32-byte big-endian scalars with nothing before, between or after
/// them.
pub open spec fn decode_public_inputs(bytes: Seq<u8>) -> Result<Seq<nat>, DecodeError> {
    if bytes.len() % 32 != 0 {
        Err(DecodeError::Length)
    } else {
        decode_scalars(bytes, bytes.len() / 32)
    }
}

/// Once a scalar fails to decode, every longer prefix fails with the same
/// error.
pub proof fn lemma_decode_scalars_error_persists(bytes: Seq<u8>, failed: nat, count: nat)
    requires
        failed <= count,
        decode_scalars(bytes, failed) is Err,
    ensures
        decode_scalars(bytes, count) == decode_scalars(bytes, failed),
    decreases count,
{
    if failed < count {
        lemma_decode_scalars_error_persists(bytes, failed, (count - 1) as nat);
    }
}

/// Decoding `count` scalars yields `count` scalars.
pub proof fn lemma_decode_scalars_len(bytes: Seq<u8>, count: nat)
    ensures
        decode_scalars(bytes, count) matches Ok(scalars) ==> scalars.len() == count,
    decreases count,
{
    if count > 0 {
        lemma_decode_scalars_len(bytes, (count - 1) as nat);
    }
}

/// The values of a sequence of scalars.
pub open spec fn scalar_values(elements: Seq<FieldElement>) -> Seq<nat> {
    elements.map_values(|e: FieldElement| e@)
}

/// The public inputs of one call, each in reduced form.
#[derive(Debug)]
pub struct PublicInputs {
    pub elements: Vec<FieldElement>,
}

impl View for PublicInputs {
    type V = Seq<nat>;

    open spec fn view(&self) -> Seq<nat> {
        scalar_values(self.elements@)
    }
}

impl PublicInputs {
    /// Decodes a public-input record.
    pub fn parse(bytes: &[u8]) -> (r: Result<PublicInputs, DecodeError>)
        ensures
            result_views(r, decode_public_inputs(bytes@)),
    {
        if bytes.len() % 32 != 0 {
            return Err(DecodeError::Length);
        }
        let n = bytes.len();
        let count = n / 32;
        let mut elements: Vec<FieldElement> = Vec::new();
        let mut i: usize = 0;
        proof {
            assert(scalar_values(elements@) =~= Seq::<nat>::empty());
        }
        while i < count
            invariant
                i <= count,
                n == bytes@.len(),
                32 * count == n,
                decode_scalars(bytes@, i as nat) == Ok::<Seq<nat>, DecodeError>(
                    scalar_values(elements@),
                ),
            decreases count - i,
        {
            let chunk = vstd::slice::slice_subrange(bytes, 32 * i, 32 * i + 32);
            match FieldElement::decode(chunk) {
                Ok(v) => {
                    proof {
                        assert(scalar_values(elements@.push(v)) =~= scalar_values(elements@).push(
                            v@,
                        ));
                    }
                    elements.push(v);
                },
                Err(e) => {
                    proof {
                        lemma_decode_scalars_error_persists(bytes@, (i + 1) as nat, count as nat);
                    }
                    return Err(e);
                },
            }
            i += 1;
        }
        proof {
            assert(count as nat == bytes@.len() / 32);
        }
        Ok(PublicInputs { elements })
    }

    /// The number of scalars.
    pub fn len(&self) -> (n: usize)
        ensures
            n == self@.len(),
    {
        self.elements.len()
    }
}

} // verus!
