//! The verifier: decode, validate, evaluate the pairing equation, accept or
//! reject.
use crate::commitments::{challenge, challenge_value, knowledge_holds, verify_knowledge};
use crate::curve::{g1_multiple, g1_negation, g1_sum, G1Point, G1Value, G2Point, G2Value};
use crate::error::{
    result_views, DecodeError, HostCallError, Rejection, Verdict, VerificationFailed,
};
use crate::field::FieldElement;
use crate::pairing::{multi_pairing, pair_values, pairing_product_is_one};
use crate::proofs::{decode_proof, Proof, ProofValue};
use crate::vk::{decode_vk, expected_inputs, point_values, VerifyingKey, VerifyingKeyValue};
use crate::witness::{decode_public_inputs, scalar_values, PublicInputs};
use vstd::prelude::*;

verus! {

/// The linear combination `ic[0] + scalars[0] * ic[1] + ...` over the first
/// `terms` scalars, as the native operations compute it term by term. The
/// first native failure ends the computation.
pub open spec fn combine(ic: Seq<G1Value>, scalars: Seq<nat>, terms: nat) -> Result<
    G1Value,
    HostCallError,
>
    decreases terms,
{
    if terms == 0 {
        Ok(ic[0])
    } else {
        match combine(ic, scalars, (terms - 1) as nat) {
            Err(e) => Err(e),
            Ok(acc) => match g1_multiple(ic[terms as int], scalars[terms - 1]) {
                Err(e) => Err(e),
                Ok(term) => g1_sum(acc, term),
            },
        }
    }
}

/// Once a term fails, every longer combination fails with the same error.
pub proof fn lemma_combine_error_persists(
    ic: Seq<G1Value>,
    scalars: Seq<nat>,
    failed: nat,
    terms: nat,
)
    requires
        failed <= terms,
        combine(ic, scalars, failed) is Err,
    ensures
        combine(ic, scalars, terms) == combine(ic, scalars, failed),
    decreases terms,
{
    if failed < terms {
        lemma_combine_error_persists(ic, scalars, failed, (terms - 1) as nat);
    }
}

/// The scalars of the linear combination: the public inputs and, with a
/// commitment, the challenge derived from it.
pub open spec fn public_scalars(proof: ProofValue, inputs: Seq<nat>) -> Seq<nat> {
    match proof.commitment {
        Some(c) => inputs.push(challenge_value(c.point, inputs)),
        None => inputs,
    }
}

/// The point `L` that carries the public inputs into the pairing equation:
/// the linear combination of `ic` and, with a commitment, the commitment
/// added to it.
pub open spec fn public_point(vk: VerifyingKeyValue, proof: ProofValue, inputs: Seq<nat>) -> Result<
    G1Value,
    HostCallError,
> {
    let scalars = public_scalars(proof, inputs);
    match combine(vk.ic, scalars, scalars.len()) {
        Err(e) => Err(e),
        Ok(l) => match proof.commitment {
            Some(c) => g1_sum(l, c.point),
            None => Ok(l),
        },
    }
}

/// The pairs whose product of pairings is the identity exactly when
/// `e(a, b) = e(alpha, beta) * e(l, gamma) * e(c, delta)`: the three terms of
/// the right-hand side enter with their G1 point negated.
pub open spec fn groth16_pairs(vk: VerifyingKeyValue, proof: ProofValue, l: G1Value) -> Seq<
    (G1Value, G2Value),
> {
    seq![
        (proof.a, proof.b),
        (g1_negation(vk.alpha), vk.beta),
        (g1_negation(l), vk.gamma),
        (g1_negation(proof.c), vk.delta),
    ]
}

/// Whether the Groth16 equation holds of a decoded proof and public inputs,
/// as the native operations compute it.
pub open spec fn equation_holds(vk: VerifyingKeyValue, proof: ProofValue, inputs: Seq<nat>) -> Result<
    bool,
    HostCallError,
> {
    match public_point(vk, proof, inputs) {
        Err(e) => Err(e),
        Ok(l) => pairing_product_is_one(groth16_pairs(vk, proof, l)),
    }
}

/// Whether the proof of knowledge of the commitment verifies; without the
/// commitment extension there is nothing to check.
pub open spec fn knowledge_checked(vk: VerifyingKeyValue, proof: ProofValue) -> Result<
    bool,
    HostCallError,
> {
    match (vk.commitment_key, proof.commitment) {
        (Some(key), Some(c)) => knowledge_holds(key, c),
        _ => Ok(true),
    }
}

/// The verdict on a decoded proof and decoded public inputs.
///
/// A proof of the wrong mode or a wrong number of inputs is a decode error.
/// Then the proof of knowledge is checked, where there is a commitment, and
/// last the pairing equation. A check that comes out false rejects the proof
/// as invalid; a native failure rejects the call.
pub open spec fn proof_verdict(vk: VerifyingKeyValue, proof: ProofValue, inputs: Seq<nat>) -> Verdict {
    if (proof.commitment is Some) != (vk.commitment_key is Some) {
        Verdict::Rejected(Rejection::Decode(DecodeError::Length))
    } else if inputs.len() != expected_inputs(vk) {
        Verdict::Rejected(Rejection::Decode(DecodeError::InputCountMismatch))
    } else {
        match knowledge_checked(vk, proof) {
            Err(e) => Verdict::Rejected(Rejection::Host(e)),
            Ok(false) => Verdict::Rejected(Rejection::Failed(VerificationFailed::CommitmentProof)),
            Ok(true) => match equation_holds(vk, proof, inputs) {
                Err(e) => Verdict::Rejected(Rejection::Host(e)),
                Ok(false) => Verdict::Rejected(
                    Rejection::Failed(VerificationFailed::PairingEquation),
                ),
                Ok(true) => Verdict::Accepted,
            },
        }
    }
}

/// What decoding the two records of a call yields: the proof in the mode
/// that the key fixes, then the public inputs, whose number must be the one
/// that the key expects.
pub open spec fn decode_call(vk: VerifyingKeyValue, proof_bytes: Seq<u8>, input_bytes: Seq<u8>) -> Result<
    (ProofValue, Seq<nat>),
    DecodeError,
> {
    match decode_proof(proof_bytes, vk.commitment_key is Some) {
        Err(e) => Err(e),
        Ok(proof) => match decode_public_inputs(input_bytes) {
            Err(e) => Err(e),
            Ok(inputs) => if inputs.len() != expected_inputs(vk) {
                Err(DecodeError::InputCountMismatch)
            } else {
                Ok((proof, inputs))
            },
        },
    }
}

/// The verdict of one verification call: a function of the key and of the
/// bytes of the two records, and of nothing else.
pub open spec fn verdict_of(vk: VerifyingKeyValue, proof_bytes: Seq<u8>, input_bytes: Seq<u8>) -> Verdict {
    match decode_call(vk, proof_bytes, input_bytes) {
        Err(e) => Verdict::Rejected(Rejection::Decode(e)),
        Ok((proof, inputs)) => proof_verdict(vk, proof, inputs),
    }
}

/// The verdict of a call that presents the verifying key as bytes too, and
/// says whether it expects the commitment extension to be in use: the key
/// must decode, and it must be of the mode that the call expects.
pub open spec fn verdict_of_records(
    vk_bytes: Seq<u8>,
    proof_bytes: Seq<u8>,
    input_bytes: Seq<u8>,
    expects_commitment: bool,
) -> Verdict {
    match decode_vk(vk_bytes) {
        Err(e) => Verdict::Rejected(Rejection::Decode(e)),
        Ok(vk) => if (vk.commitment_key is Some) != expects_commitment {
            Verdict::Rejected(Rejection::Decode(DecodeError::CommitmentCount))
        } else {
            verdict_of(vk, proof_bytes, input_bytes)
        },
    }
}

/// Computes `ic[0] + scalars[0] * ic[1] + ...` with the native scalar
/// multiplication and addition.
pub fn linear_combination(ic: &[G1Point], scalars: &[FieldElement]) -> (r: Result<
    G1Point,
    HostCallError,
>)
    requires
        ic@.len() == scalars@.len() + 1,
    ensures
        result_views(
            r,
            combine(point_values(ic@), scalar_values(scalars@), scalars@.len()),
        ),
{
    let mut acc = ic[0];
    let mut i: usize = 0;
    while i < scalars.len()
        invariant
            i <= scalars@.len(),
            ic@.len() == scalars@.len() + 1,
            combine(point_values(ic@), scalar_values(scalars@), i as nat) == Ok::<
                G1Value,
                HostCallError,
            >(acc@),
        decreases scalars@.len() - i,
    {
        let term = match ic[i + 1].scalar_mul(&scalars[i]) {
            Ok(t) => t,
            Err(e) => {
                proof {
                    lemma_combine_error_persists(
                        point_values(ic@),
                        scalar_values(scalars@),
                        (i + 1) as nat,
                        scalars@.len(),
                    );
                }
                return Err(e);
            },
        };
        acc = match acc.add(&term) {
            Ok(s) => s,
            Err(e) => {
                proof {
                    lemma_combine_error_persists(
                        point_values(ic@),
                        scalar_values(scalars@),
                        (i + 1) as nat,
                        scalars@.len(),
                    );
                }
                return Err(e);
            },
        };
        i += 1;
    }
    Ok(acc)
}

/// The scalars followed by one more.
fn with_scalar(scalars: &[FieldElement], last: FieldElement) -> (out: Vec<FieldElement>)
    ensures
        scalar_values(out@) == scalar_values(scalars@).push(last@),
        out@.len() == scalars@.len() + 1,
{
    let mut out: Vec<FieldElement> = Vec::new();
    let mut i: usize = 0;
    while i < scalars.len()
        invariant
            i <= scalars@.len(),
            out@ == scalars@.subrange(0, i as int),
        decreases scalars@.len() - i,
    {
        out.push(scalars[i]);
        i += 1;
        assert(out@ =~= scalars@.subrange(0, i as int));
    }
    out.push(last);
    proof {
        assert(scalars@.subrange(0, i as int) =~= scalars@);
        assert(scalar_values(out@) =~= scalar_values(scalars@).push(last@));
    }
    out
}

/// Computes the point that carries the public inputs into the pairing
/// equation.
pub fn compute_public_point(vk: &VerifyingKey, proof: &Proof, inputs: &PublicInputs) -> (r: Result<
    G1Point,
    HostCallError,
>)
    requires
        (proof@.commitment is Some) == (vk@.commitment_key is Some),
        inputs@.len() == expected_inputs(vk@),
    ensures
        result_views(r, public_point(vk@, proof@, inputs@)),
{
    let ic = vk.ic();
    match proof.commitment {
        None => linear_combination(ic.as_slice(), inputs.elements.as_slice()),
        Some(c) => {
            let h = challenge(&c.point, inputs.elements.as_slice());
            let scalars = with_scalar(inputs.elements.as_slice(), h);
            match linear_combination(ic.as_slice(), scalars.as_slice()) {
                Err(e) => Err(e),
                Ok(l) => l.add(&c.point),
            }
        },
    }
}

/// Evaluates the Groth16 pairing equation on a decoded proof and the point
/// that carries the public inputs.
pub fn check_equation(vk: &VerifyingKey, proof: &Proof, l: &G1Point) -> (r: Result<
    bool,
    HostCallError,
>)
    ensures
        r == pairing_product_is_one(groth16_pairs(vk@, proof@, l@)),
{
    let pairs: Vec<(G1Point, G2Point)> = vec![
        (proof.a, proof.b),
        (vk.alpha().neg(), *vk.beta()),
        (l.neg(), *vk.gamma()),
        (proof.c.neg(), *vk.delta()),
    ];
    proof {
        assert(pair_values(pairs@) =~= groth16_pairs(vk@, proof@, l@));
    }
    multi_pairing(pairs.as_slice())
}

/// Gives the verdict on a decoded proof and decoded public inputs.
pub fn check_proof(vk: &VerifyingKey, proof: &Proof, inputs: &PublicInputs) -> (v: Verdict)
    ensures
        v == proof_verdict(vk@, proof@, inputs@),
{
    if proof.commitment.is_some() != vk.uses_commitment() {
        return Verdict::Rejected(Rejection::Decode(DecodeError::Length));
    }
    if inputs.len() != vk.expected_inputs() {
        return Verdict::Rejected(Rejection::Decode(DecodeError::InputCountMismatch));
    }
    match (vk.commitment_key(), proof.commitment) {
        (Some(key), Some(c)) => {
            match verify_knowledge(&key, &c) {
                Err(e) => {
                    return Verdict::Rejected(Rejection::Host(e));
                },
                Ok(false) => {
                    return Verdict::Rejected(
                        Rejection::Failed(VerificationFailed::CommitmentProof),
                    );
                },
                Ok(true) => {},
            }
        },
        _ => {},
    }
    let l = match compute_public_point(vk, proof, inputs) {
        Ok(p) => p,
        Err(e) => {
            return Verdict::Rejected(Rejection::Host(e));
        },
    };
    match check_equation(vk, proof, &l) {
        Err(e) => Verdict::Rejected(Rejection::Host(e)),
        Ok(false) => Verdict::Rejected(Rejection::Failed(VerificationFailed::PairingEquation)),
        Ok(true) => Verdict::Accepted,
    }
}

/// Verifies a proof record against a parsed verifying key and a
/// public-input record.
pub fn verify(vk: &VerifyingKey, proof_bytes: &[u8], input_bytes: &[u8]) -> (v: Verdict)
    ensures
        v == verdict_of(vk@, proof_bytes@, input_bytes@),
{
    let proof = match Proof::parse(proof_bytes, vk.uses_commitment()) {
        Ok(p) => p,
        Err(e) => {
            return Verdict::Rejected(Rejection::Decode(e));
        },
    };
    let inputs = match PublicInputs::parse(input_bytes) {
        Ok(i) => i,
        Err(e) => {
            return Verdict::Rejected(Rejection::Decode(e));
        },
    };
    if inputs.len() != vk.expected_inputs() {
        return Verdict::Rejected(Rejection::Decode(DecodeError::InputCountMismatch));
    }
    check_proof(vk, &proof, &inputs)
}

/// Verifies a proof record against a verifying-key record and a
/// public-input record. A caller that verifies more than once against one
/// key parses the key once and calls [`verify`].
pub fn verify_records(
    vk_bytes: &[u8],
    proof_bytes: &[u8],
    input_bytes: &[u8],
    expects_commitment: bool,
) -> (v: Verdict)
    ensures
        v == verdict_of_records(vk_bytes@, proof_bytes@, input_bytes@, expects_commitment),
{
    let vk = match VerifyingKey::parse(vk_bytes) {
        Ok(k) => k,
        Err(e) => {
            return Verdict::Rejected(Rejection::Decode(e));
        },
    };
    if vk.uses_commitment() != expects_commitment {
        return Verdict::Rejected(Rejection::Decode(DecodeError::CommitmentCount));
    }
    verify(&vk, proof_bytes, input_bytes)
}

/// The states of one verification call, over decoded values.
pub enum StateValue {
    /// Nothing has been presented yet.
    Unverified,
    /// The proof record and the public-input record wait to be decoded.
    Decoding(Seq<u8>, Seq<u8>),
    /// Both records decoded; the checks on the points are still to run.
    PairingCheck(ProofValue, Seq<nat>),
    /// The proof is valid.
    Accepted,
    /// The call ended without accepting the proof.
    Rejected(Rejection),
}

/// The state in which a verdict leaves the call.
pub open spec fn settled(v: Verdict) -> StateValue {
    match v {
        Verdict::Accepted => StateValue::Accepted,
        Verdict::Rejected(reason) => StateValue::Rejected(reason),
    }
}

/// Whether the call has ended.
pub open spec fn is_terminal(s: StateValue) -> bool {
    s is Accepted || s is Rejected
}

/// The state after the records of a call have been presented: only a call
/// that has not begun takes them.
pub open spec fn after_submit(s: StateValue, proof_bytes: Seq<u8>, input_bytes: Seq<u8>) -> StateValue {
    match s {
        StateValue::Unverified => StateValue::Decoding(proof_bytes, input_bytes),
        other => other,
    }
}

/// The transition of the verifier. Decoding leads to the pairing check or,
/// on any decode failure, straight to a rejection with that error; the
/// pairing check leads to a verdict; every other state stays as it is.
pub open spec fn next_state(vk: VerifyingKeyValue, s: StateValue) -> StateValue {
    match s {
        StateValue::Decoding(proof_bytes, input_bytes) => match decode_call(
            vk,
            proof_bytes,
            input_bytes,
        ) {
            Err(e) => StateValue::Rejected(Rejection::Decode(e)),
            Ok((proof, inputs)) => StateValue::PairingCheck(proof, inputs),
        },
        StateValue::PairingCheck(proof, inputs) => settled(proof_verdict(vk, proof, inputs)),
        other => other,
    }
}

/// The state of one verification call.
pub enum State {
    Unverified,
    Decoding(Vec<u8>, Vec<u8>),
    PairingCheck(Proof, PublicInputs),
    Accepted,
    Rejected(Rejection),
}

impl View for State {
    type V = StateValue;

    open spec fn view(&self) -> StateValue {
        match self {
            State::Unverified => StateValue::Unverified,
            State::Decoding(p, i) => StateValue::Decoding(p@, i@),
            State::PairingCheck(p, i) => StateValue::PairingCheck(p@, i@),
            State::Accepted => StateValue::Accepted,
            State::Rejected(reason) => StateValue::Rejected(*reason),
        }
    }
}

impl State {
    /// The state of a call that has not begun.
    pub fn start() -> (s: State)
        ensures
            s@ == StateValue::Unverified,
    {
        State::Unverified
    }

    /// Presents the two records of the call.
    pub fn submit(self, proof_bytes: Vec<u8>, input_bytes: Vec<u8>) -> (s: State)
        ensures
            s@ == after_submit(self@, proof_bytes@, input_bytes@),
    {
        match self {
            State::Unverified => State::Decoding(proof_bytes, input_bytes),
            other => other,
        }
    }

    /// Takes one transition.
    pub fn step(self, vk: &VerifyingKey) -> (s: State)
        ensures
            s@ == next_state(vk@, self@),
    {
        match self {
            State::Decoding(proof_bytes, input_bytes) => {
                let proof = match Proof::parse(proof_bytes.as_slice(), vk.uses_commitment()) {
                    Ok(p) => p,
                    Err(e) => {
                        return State::Rejected(Rejection::Decode(e));
                    },
                };
                let inputs = match PublicInputs::parse(input_bytes.as_slice()) {
                    Ok(i) => i,
                    Err(e) => {
                        return State::Rejected(Rejection::Decode(e));
                    },
                };
                if inputs.len() != vk.expected_inputs() {
                    return State::Rejected(Rejection::Decode(DecodeError::InputCountMismatch));
                }
                State::PairingCheck(proof, inputs)
            },
            State::PairingCheck(proof, inputs) => match check_proof(vk, &proof, &inputs) {
                Verdict::Accepted => State::Accepted,
                Verdict::Rejected(reason) => State::Rejected(reason),
            },
            other => other,
        }
    }

    /// The verdict, once the call has ended.
    pub fn verdict(&self) -> (v: Option<Verdict>)
        ensures
            match v {
                Some(verdict) => self@ == settled(verdict),
                None => !is_terminal(self@),
            },
    {
        match self {
            State::Accepted => Some(Verdict::Accepted),
            State::Rejected(reason) => Some(Verdict::Rejected(*reason)),
            _ => None,
        }
    }
}

/// A call that has ended stays as it ended: there is no retry.
pub proof fn law_terminal_states_absorb(vk: VerifyingKeyValue, s: StateValue)
    requires
        is_terminal(s),
    ensures
        next_state(vk, s) == s,
{
}

/// From the presentation of the records, two transitions end the call, and
/// they end it in the verdict of the call.
pub proof fn law_two_steps_settle(vk: VerifyingKeyValue, proof_bytes: Seq<u8>, input_bytes: Seq<u8>)
    ensures
        next_state(
            vk,
            next_state(vk, after_submit(StateValue::Unverified, proof_bytes, input_bytes)),
        ) == settled(verdict_of(vk, proof_bytes, input_bytes)),
{
}

/// A decode failure leads straight to a rejection that carries the error.
pub proof fn law_decode_failure_rejects(
    vk: VerifyingKeyValue,
    proof_bytes: Seq<u8>,
    input_bytes: Seq<u8>,
    e: DecodeError,
)
    requires
        decode_call(vk, proof_bytes, input_bytes) == Err::<(ProofValue, Seq<nat>), DecodeError>(e),
    ensures
        verdict_of(vk, proof_bytes, input_bytes) == Verdict::Rejected(Rejection::Decode(e)),
        next_state(vk, StateValue::Decoding(proof_bytes, input_bytes)) == StateValue::Rejected(
            Rejection::Decode(e),
        ),
{
}

/// A call is accepted exactly when both records decode, the proof of
/// knowledge verifies where there is a commitment, and the pairing equation
/// holds.
pub proof fn law_accepted_iff_valid(vk: VerifyingKeyValue, proof_bytes: Seq<u8>, input_bytes: Seq<u8>)
    ensures
        verdict_of(vk, proof_bytes, input_bytes) == Verdict::Accepted <==> (decode_call(
            vk,
            proof_bytes,
            input_bytes,
        ) matches Ok((proof, inputs)) && knowledge_checked(vk, proof) == Ok::<bool, HostCallError>(
            true,
        ) && equation_holds(vk, proof, inputs) == Ok::<bool, HostCallError>(true)),
{
}

/// A proof record that differs from an accepted one is never taken for it:
/// either it fails to decode, or it decodes to a different proof, which is
/// then judged by the checks on its own points.
pub proof fn law_changed_proof_judged_anew(
    vk: VerifyingKeyValue,
    proof_bytes: Seq<u8>,
    changed_bytes: Seq<u8>,
    input_bytes: Seq<u8>,
)
    requires
        changed_bytes != proof_bytes,
        verdict_of(vk, proof_bytes, input_bytes) == Verdict::Accepted,
    ensures
        match decode_proof(changed_bytes, vk.commitment_key is Some) {
            Err(e) => verdict_of(vk, changed_bytes, input_bytes) == Verdict::Rejected(
                Rejection::Decode(e),
            ),
            Ok(changed) => {
                &&& decode_proof(proof_bytes, vk.commitment_key is Some) != Ok::<
                    ProofValue,
                    DecodeError,
                >(changed)
                &&& decode_public_inputs(input_bytes) is Ok
                &&& verdict_of(vk, changed_bytes, input_bytes) == proof_verdict(
                    vk,
                    changed,
                    decode_public_inputs(input_bytes)->Ok_0,
                )
            },
        },
{
    let mode = vk.commitment_key is Some;
    if decode_proof(changed_bytes, mode) is Ok && decode_proof(changed_bytes, mode)
        == decode_proof(proof_bytes, mode) {
        crate::proofs::law_proof_encoding_unique(changed_bytes, proof_bytes, mode);
    }
}

/// A proof record of any length but the one of the key's mode is a decode
/// error, whatever it holds.
pub proof fn law_wrong_proof_length_refused(
    vk: VerifyingKeyValue,
    proof_bytes: Seq<u8>,
    input_bytes: Seq<u8>,
)
    requires
        proof_bytes.len() != crate::proofs::proof_size(vk.commitment_key is Some),
    ensures
        verdict_of(vk, proof_bytes, input_bytes) == Verdict::Rejected(
            Rejection::Decode(DecodeError::Length),
        ),
{
}

/// A public-input record that does not hold exactly the number of scalars
/// that the key expects is a decode error: the inputs are never cut or
/// padded.
pub proof fn law_wrong_input_count_refused(
    vk: VerifyingKeyValue,
    proof_bytes: Seq<u8>,
    input_bytes: Seq<u8>,
)
    requires
        input_bytes.len() != 32 * expected_inputs(vk),
    ensures
        verdict_of(vk, proof_bytes, input_bytes) matches Verdict::Rejected(Rejection::Decode(_)),
{
    if let Ok(inputs) = decode_public_inputs(input_bytes) {
        crate::witness::lemma_decode_scalars_len(input_bytes, input_bytes.len() / 32);
    }
}

/// The verdict depends on the key and the bytes of the two records alone:
/// two calls on the same bytes give the same verdict.
pub proof fn law_verdict_deterministic(
    vk: VerifyingKeyValue,
    proof_bytes: Seq<u8>,
    input_bytes: Seq<u8>,
    again_proof_bytes: Seq<u8>,
    again_input_bytes: Seq<u8>,
)
    requires
        proof_bytes == again_proof_bytes,
        input_bytes == again_input_bytes,
    ensures
        verdict_of(vk, proof_bytes, input_bytes) == verdict_of(
            vk,
            again_proof_bytes,
            again_input_bytes,
        ),
{
}

} // verus!
