//! The commitment extension: the challenge that binds a commitment to the
//! public inputs, and the check of its proof of knowledge.
use crate::curve::{g1_encoding, G1Point, G1Value, G2Point};
use crate::encoding::be_bytes;
use crate::error::HostCallError;
use crate::field::FieldElement;
use crate::hash::{hash_to_field, hash_to_scalar};
use crate::pairing::{multi_pairing, pair_values, pairing_product_is_one};
use crate::proofs::{Commitment, CommitmentValue};
use crate::vk::{CommitmentKey, CommitmentKeyValue};
use crate::witness::scalar_values;
use vstd::prelude::*;

verus! {

/// The tag that separates the commitment challenge from every other use of
/// the hash: the ASCII bytes of `bsb22-commitment`.
pub open spec fn challenge_domain() -> Seq<u8> {
    seq![
        0x62u8,
        0x73u8,
        0x62u8,
        0x32u8,
        0x32u8,
        0x2du8,
        0x63u8,
        0x6fu8,
        0x6du8,
        0x6du8,
        0x69u8,
        0x74u8,
        0x6du8,
        0x65u8,
        0x6eu8,
        0x74u8,
    ]
}

/// The encodings of a sequence of scalars, one after the other.
pub open spec fn scalars_encoding(scalars: Seq<nat>) -> Seq<u8>
    decreases scalars.len(),
{
    if scalars.len() == 0 {
        Seq::empty()
    } else {
        scalars_encoding(scalars.drop_last()) + be_bytes(scalars.last(), 32)
    }
}

/// The message that the challenge is derived from: the encoding of the
/// commitment followed by the encodings of the public inputs.
pub open spec fn transcript(commitment: G1Value, inputs: Seq<nat>) -> Seq<u8> {
    g1_encoding(commitment) + scalars_encoding(inputs)
}

/// The challenge that binds a commitment to the public inputs.
pub open spec fn challenge_value(commitment: G1Value, inputs: Seq<nat>) -> nat {
    hash_to_scalar(transcript(commitment, inputs), challenge_domain())
}

/// Whether the proof of knowledge of a commitment verifies against the
/// commitment key: the product of the pairings of the commitment with
/// `g_sigma_neg` and of the proof of knowledge with `g` is the identity.
pub open spec fn knowledge_holds(key: CommitmentKeyValue, commitment: CommitmentValue) -> Result<
    bool,
    HostCallError,
> {
    pairing_product_is_one(
        seq![(commitment.point, key.g_sigma_neg), (commitment.knowledge, key.g)],
    )
}

/// Derives the challenge for a commitment from the public inputs of the
/// call.
pub fn challenge(commitment: &G1Point, inputs: &[FieldElement]) -> (r: FieldElement)
    ensures
        r@ == challenge_value(commitment@, scalar_values(inputs@)),
{
    let mut message = commitment.encode();
    let mut i: usize = 0;
    proof {
        assert(scalar_values(inputs@.subrange(0, 0)) =~= Seq::<nat>::empty());
        assert(message@ =~= transcript(commitment@, scalar_values(inputs@.subrange(0, 0))));
    }
    while i < inputs.len()
        invariant
            i <= inputs@.len(),
            message@ == transcript(commitment@, scalar_values(inputs@.subrange(0, i as int))),
        decreases inputs@.len() - i,
    {
        let mut tail = inputs[i].encode();
        proof {
            let before = scalar_values(inputs@.subrange(0, i as int));
            let after = scalar_values(inputs@.subrange(0, i + 1));
            assert(after.drop_last() =~= before);
            assert(after.last() == inputs@[i as int]@);
            assert(g1_encoding(commitment@) + scalars_encoding(before) + be_bytes(
                inputs@[i as int]@,
                32,
            ) =~= g1_encoding(commitment@) + (scalars_encoding(before) + be_bytes(
                inputs@[i as int]@,
                32,
            )));
        }
        message.append(&mut tail);
        i += 1;
    }
    proof {
        assert(inputs@.subrange(0, i as int) =~= inputs@);
    }
    let tag: Vec<u8> = vec![
        0x62u8,
        0x73u8,
        0x62u8,
        0x32u8,
        0x32u8,
        0x2du8,
        0x63u8,
        0x6fu8,
        0x6du8,
        0x6du8,
        0x69u8,
        0x74u8,
        0x6du8,
        0x65u8,
        0x6eu8,
        0x74u8,
    ];
    proof {
        assert(tag@ =~= challenge_domain());
    }
    hash_to_field(message.as_slice(), tag.as_slice())
}

/// Checks the proof of knowledge of a commitment against the commitment
/// key.
pub fn verify_knowledge(key: &CommitmentKey, commitment: &Commitment) -> (r: Result<
    bool,
    HostCallError,
>)
    ensures
        r == knowledge_holds(key@, commitment@),
{
    let pairs: Vec<(G1Point, G2Point)> = vec![
        (commitment.point, key.g_sigma_neg),
        (commitment.knowledge, key.g),
    ];
    proof {
        assert(pair_values(pairs@) =~= seq![
            (commitment@.point, key@.g_sigma_neg),
            (commitment@.knowledge, key@.g),
        ]);
    }
    multi_pairing(pairs.as_slice())
}

} // verus!
