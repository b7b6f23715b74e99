//! The verifying key: the points that fix which circuit a proof is checked
//! against.
use crate::curve::{decode_g1, decode_g2, G1Point, G1Value, G2Point, G2Value};
use crate::encoding::{be_value, read_u32_be};
use crate::error::{result_views, DecodeError};
use vstd::prelude::*;

verus! {

/// The length of the header of a verifying-key record.
pub const VK_HEADER_SIZE: usize = 12;

/// The offset of the first `ic` point in a verifying-key record.
pub const VK_IC_OFFSET: usize = 460;

/// The two G2 points against which the proof of knowledge of a commitment
/// is checked.
pub struct CommitmentKeyValue {
    pub g: G2Value,
    pub g_sigma_neg: G2Value,
}

/// The points of a verifying key.
pub struct VerifyingKeyValue {
    pub alpha: G1Value,
    pub beta: G2Value,
    pub gamma: G2Value,
    pub delta: G2Value,
    pub ic: Seq<G1Value>,
    pub commitment_key: Option<CommitmentKeyValue>,
}

/// The exact length of a verifying-key record that declares `ic_count`
/// points of `ic` and `commitments` commitments.
pub open spec fn vk_size(ic_count: nat, commitments: nat) -> nat {
    460 + 64 * ic_count + 256 * commitments
}

/// How many public inputs a call must present with this key: one for every
/// point of `ic` but the constant term and, where the commitment extension is
/// in use, the term of the commitment challenge.
pub open spec fn expected_inputs(vk: VerifyingKeyValue) -> int {
    vk.ic.len() - 1 - (if vk.commitment_key is Some {
        1int
    } else {
        0int
    })
}

/// What decoding the first `count` points of `ic` yields: the points in
/// order, or the error of the first one that fails.
pub open spec fn decode_ic(bytes: Seq<u8>, count: nat) -> Result<Seq<G1Value>, DecodeError>
    decreases count,
{
    if count == 0 {
        Ok(Seq::empty())
    } else {
        match decode_ic(bytes, (count - 1) as nat) {
            Err(e) => Err(e),
            Ok(front) => match decode_g1(
                bytes.subrange(460 + 64 * (count - 1), 460 + 64 * count as int),
            ) {
                Err(e) => Err(e),
                Ok(p) => Ok(front.push(p)),
            },
        }
    }
}

/// What decoding the commitment key that follows `ic_count` points yields.
pub open spec fn decode_commitment_key(bytes: Seq<u8>, ic_count: nat) -> Result<
    CommitmentKeyValue,
    DecodeError,
> {
    let at = 460 + 64 * ic_count as int;
    match decode_g2(bytes.subrange(at, at + 128)) {
        Err(e) => Err(e),
        Ok(g) => match decode_g2(bytes.subrange(at + 128, at + 256)) {
            Err(e) => Err(e),
            Ok(g_sigma_neg) => Ok(CommitmentKeyValue { g, g_sigma_neg }),
        },
    }
}

/// What decoding the points of a verifying-key record yields, once its
/// header and length have been accepted: the first point that fails to
/// decode gives the error.
pub open spec fn decode_vk_points(bytes: Seq<u8>, ic_count: nat, with_commitment: bool) -> Result<
    VerifyingKeyValue,
    DecodeError,
> {
    match decode_g1(bytes.subrange(12, 76)) {
        Err(e) => Err(e),
        Ok(alpha) => match decode_g2(bytes.subrange(76, 204)) {
            Err(e) => Err(e),
            Ok(beta) => match decode_g2(bytes.subrange(204, 332)) {
                Err(e) => Err(e),
                Ok(gamma) => match decode_g2(bytes.subrange(332, 460)) {
                    Err(e) => Err(e),
                    Ok(delta) => match decode_ic(bytes, ic_count) {
                        Err(e) => Err(e),
                        Ok(ic) => if with_commitment {
                            match decode_commitment_key(bytes, ic_count) {
                                Err(e) => Err(e),
                                Ok(key) => Ok(
                                    VerifyingKeyValue {
                                        alpha,
                                        beta,
                                        gamma,
                                        delta,
                                        ic,
                                        commitment_key: Some(key),
                                    },
                                ),
                            }
                        } else {
                            Ok(
                                VerifyingKeyValue {
                                    alpha,
                                    beta,
                                    gamma,
                                    delta,
                                    ic,
                                    commitment_key: None,
                                },
                            )
                        },
                    },
                },
            },
        },
    }
}

/// What decoding a verifying-key record yields.
///
/// The record starts with three 32-bit big-endian counts: the public
/// inputs, the points of `ic`, and the commitments (zero or one). Then come
/// `alpha`, `beta`, `gamma`, `delta`, the points of `ic` and, with a
/// commitment, the two points of the commitment key. `ic` must hold one
/// point for the constant term, one for every public input and one for every
/// commitment, and the record must end with its last point.
pub open spec fn decode_vk(bytes: Seq<u8>) -> Result<VerifyingKeyValue, DecodeError> {
    if bytes.len() < 12 {
        Err(DecodeError::Length)
    } else {
        let public = be_value(bytes.subrange(0, 4));
        let ic_count = be_value(bytes.subrange(4, 8));
        let commitments = be_value(bytes.subrange(8, 12));
        if commitments > 1 {
            Err(DecodeError::CommitmentCount)
        } else if ic_count != public + 1 + commitments {
            Err(DecodeError::InputCountMismatch)
        } else if bytes.len() != vk_size(ic_count, commitments) {
            Err(DecodeError::Length)
        } else {
            decode_vk_points(bytes, ic_count, commitments == 1)
        }
    }
}

/// Once a point of `ic` fails to decode, every longer prefix fails with the
/// same error.
pub proof fn lemma_decode_ic_error_persists(bytes: Seq<u8>, failed: nat, count: nat)
    requires
        failed <= count,
        decode_ic(bytes, failed) is Err,
    ensures
        decode_ic(bytes, count) == decode_ic(bytes, failed),
    decreases count,
{
    if failed < count {
        lemma_decode_ic_error_persists(bytes, failed, (count - 1) as nat);
    }
}

/// The coordinates of each point of a sequence.
pub open spec fn point_values(points: Seq<G1Point>) -> Seq<G1Value> {
    points.map_values(|p: G1Point| p@)
}

/// The commitment key of a verifying key.
#[derive(Clone, Copy, Debug)]
pub struct CommitmentKey {
    pub g: G2Point,
    pub g_sigma_neg: G2Point,
}

impl View for CommitmentKey {
    type V = CommitmentKeyValue;

    open spec fn view(&self) -> CommitmentKeyValue {
        CommitmentKeyValue { g: self.g@, g_sigma_neg: self.g_sigma_neg@ }
    }
}

/// A decoded verifying key. Every point in it has been validated, and it
/// is never changed after it has been parsed.
#[derive(Debug)]
pub struct VerifyingKey {
    alpha: G1Point,
    beta: G2Point,
    gamma: G2Point,
    delta: G2Point,
    ic: Vec<G1Point>,
    commitment_key: Option<CommitmentKey>,
}

impl View for VerifyingKey {
    type V = VerifyingKeyValue;

    closed spec fn view(&self) -> VerifyingKeyValue {
        VerifyingKeyValue {
            alpha: self.alpha@,
            beta: self.beta@,
            gamma: self.gamma@,
            delta: self.delta@,
            ic: point_values(self.ic@),
            commitment_key: match self.commitment_key {
                Some(k) => Some(k@),
                None => None,
            },
        }
    }
}

/// Decodes the `count` points of `ic` from a verifying-key record.
fn parse_ic(bytes: &[u8], count: usize) -> (r: Result<Vec<G1Point>, DecodeError>)
    requires
        460 + 64 * count <= bytes@.len(),
    ensures
        match r {
            Ok(ic) => decode_ic(bytes@, count as nat) == Ok::<Seq<G1Value>, DecodeError>(
                point_values(ic@),
            ) && ic@.len() == count,
            Err(e) => decode_ic(bytes@, count as nat) == Err::<Seq<G1Value>, DecodeError>(e),
        },
{
    let n = bytes.len();
    let mut ic: Vec<G1Point> = Vec::new();
    let mut i: usize = 0;
    proof {
        assert(point_values(ic@) =~= Seq::<G1Value>::empty());
    }
    while i < count
        invariant
            i <= count,
            n == bytes@.len(),
            460 + 64 * count <= n,
            ic@.len() == i,
            decode_ic(bytes@, i as nat) == Ok::<Seq<G1Value>, DecodeError>(point_values(ic@)),
        decreases count - i,
    {
        let chunk = vstd::slice::slice_subrange(bytes, 460 + 64 * i, 460 + 64 * i + 64);
        match G1Point::decode(chunk) {
            Ok(p) => {
                proof {
                    assert(point_values(ic@.push(p)) =~= point_values(ic@).push(p@));
                }
                ic.push(p);
            },
            Err(e) => {
                proof {
                    lemma_decode_ic_error_persists(bytes@, (i + 1) as nat, count as nat);
                }
                return Err(e);
            },
        }
        i += 1;
    }
    Ok(ic)
}

/// Decodes the commitment key that follows the `count` points of `ic`.
fn parse_commitment_key(bytes: &[u8], count: usize) -> (r: Result<CommitmentKey, DecodeError>)
    requires
        460 + 64 * count + 256 <= bytes@.len(),
    ensures
        result_views(r, decode_commitment_key(bytes@, count as nat)),
{
    let n = bytes.len();
    let at = 460 + 64 * count;
    let g = match G2Point::decode(vstd::slice::slice_subrange(bytes, at, at + 128)) {
        Ok(p) => p,
        Err(e) => {
            return Err(e);
        },
    };
    let g_sigma_neg = match G2Point::decode(
        vstd::slice::slice_subrange(bytes, at + 128, at + 256),
    ) {
        Ok(p) => p,
        Err(e) => {
            return Err(e);
        },
    };
    Ok(CommitmentKey { g, g_sigma_neg })
}

impl VerifyingKey {
    /// A key holds the constant term and, with a commitment key, the term of
    /// the commitment challenge.
    #[verifier::type_invariant]
    pub closed spec fn is_well_formed(self) -> bool {
        expected_inputs(self@) >= 0
    }

    /// Decodes and validates a verifying-key record.
    pub fn parse(bytes: &[u8]) -> (r: Result<VerifyingKey, DecodeError>)
        ensures
            result_views(r, decode_vk(bytes@)),
    {
        let n = bytes.len();
        if n < VK_HEADER_SIZE {
            return Err(DecodeError::Length);
        }
        let public = read_u32_be(bytes, 0);
        let ic_count = read_u32_be(bytes, 4);
        let commitments = read_u32_be(bytes, 8);
        if commitments > 1 {
            return Err(DecodeError::CommitmentCount);
        }
        if ic_count as u64 != public as u64 + 1 + commitments as u64 {
            return Err(DecodeError::InputCountMismatch);
        }
        let expected: u64 = 460 + 64 * (ic_count as u64) + 256 * (commitments as u64);
        if n as u64 != expected {
            return Err(DecodeError::Length);
        }
        let count = ic_count as usize;
        let alpha = match G1Point::decode(vstd::slice::slice_subrange(bytes, 12, 76)) {
            Ok(p) => p,
            Err(e) => {
                return Err(e);
            },
        };
        let beta = match G2Point::decode(vstd::slice::slice_subrange(bytes, 76, 204)) {
            Ok(p) => p,
            Err(e) => {
                return Err(e);
            },
        };
        let gamma = match G2Point::decode(vstd::slice::slice_subrange(bytes, 204, 332)) {
            Ok(p) => p,
            Err(e) => {
                return Err(e);
            },
        };
        let delta = match G2Point::decode(vstd::slice::slice_subrange(bytes, 332, 460)) {
            Ok(p) => p,
            Err(e) => {
                return Err(e);
            },
        };
        let ic = match parse_ic(bytes, count) {
            Ok(v) => v,
            Err(e) => {
                return Err(e);
            },
        };
        if commitments == 0 {
            return Ok(VerifyingKey { alpha, beta, gamma, delta, ic, commitment_key: None });
        }
        let key = match parse_commitment_key(bytes, count) {
            Ok(k) => k,
            Err(e) => {
                return Err(e);
            },
        };
        Ok(VerifyingKey { alpha, beta, gamma, delta, ic, commitment_key: Some(key) })
    }

    /// The point `alpha` of G1.
    pub fn alpha(&self) -> (r: &G1Point)
        ensures
            r@ == self@.alpha,
    {
        &self.alpha
    }

    /// The point `beta` of G2.
    pub fn beta(&self) -> (r: &G2Point)
        ensures
            r@ == self@.beta,
    {
        &self.beta
    }

    /// The point `gamma` of G2.
    pub fn gamma(&self) -> (r: &G2Point)
        ensures
            r@ == self@.gamma,
    {
        &self.gamma
    }

    /// The point `delta` of G2.
    pub fn delta(&self) -> (r: &G2Point)
        ensures
            r@ == self@.delta,
    {
        &self.delta
    }

    /// The points of the linear combination: the constant term first.
    pub fn ic(&self) -> (r: &Vec<G1Point>)
        ensures
            point_values(r@) == self@.ic,
            expected_inputs(self@) >= 0,
    {
        proof {
            use_type_invariant(self);
        }
        &self.ic
    }

    /// The commitment key, where the commitment extension is in use.
    pub fn commitment_key(&self) -> (r: Option<CommitmentKey>)
        ensures
            match r {
                Some(k) => self@.commitment_key == Some(k@),
                None => self@.commitment_key is None,
            },
    {
        self.commitment_key
    }

    /// Whether proofs for this key carry a commitment.
    pub fn uses_commitment(&self) -> (r: bool)
        ensures
            r == self@.commitment_key is Some,
    {
        self.commitment_key.is_some()
    }

    /// The number of public inputs that a call must present.
    pub fn expected_inputs(&self) -> (n: usize)
        ensures
            n == expected_inputs(self@),
    {
        proof {
            use_type_invariant(self);
        }
        if self.commitment_key.is_some() {
            self.ic.len() - 2
        } else {
            self.ic.len() - 1
        }
    }
}

} // verus!
