use verifier_lib::commitments::verify_knowledge;
use verifier_lib::curve::G1Point;
use verifier_lib::error::{DecodeError, HostCallError, Rejection, VerificationFailed, Verdict};
use verifier_lib::field::FieldElement;
use verifier_lib::groth16::{
    check_equation, check_proof, compute_public_point, linear_combination, verify, verify_records,
    State,
};
use verifier_lib::proofs::Proof;
use verifier_lib::vk::VerifyingKey;
use verifier_lib::witness::PublicInputs;

const VK: &str = "0000000100000002000000002a14705537b009189da8808651eecdb82482477f\
    e92ac12ca8b71f80fc3d49ef2df7ee7f243ea8b38e1ddf14029258877a618c77\
    9fd4717db6177e19ea67ec38009edaf0698a8c56f51139588acc094cee3c37d4\
    27bb6d2eab830aae529097d123ad66f3a7cca9dc75049635faebd124316244b9\
    1de5fb2764cd151572a905f72700e8a29b7bb45f3022a18a07bdc66d0254559e\
    17cce64e3b4ad21578fcf4101ad4f87d3b4375a39988ac099b042b1e7c0c7156\
    78e4c2bea8905f607cf950f8227071bba5ff3b47ed8b504bb5b215bc701d7a32\
    59b933bff1a4164eae499c2c0c51a367b61d3119677b29739ddccbb78002b555\
    8d8f49ff16e299c1b41f809808bb188b2a6187bb1e87834c85a6a917763d65b9\
    8febf2c45ea339dd77fac41518fd2fd13be8494c39e8a91325d1ef3ba7d1a205\
    d10788e38bc9e09d9be8776925407be35f18c6594174374841311466c0e66ff0\
    03762448c06bca4fa5e9c54e15cbba9ab73bc73d0ba4ad132a15cb0c73107a9c\
    19b040c4c73d89f6bf75404d1edef86c1a42fa85ab6ae8d268a7e9b46890b213\
    0dd83b91c86c504cf1f93fbf2c750c045112e4ab07f18b12475309cebdcb726b\
    da1ca9948bacd498a28cf4111e28260f0ee971dec1e84cf81ff2776ad314d2cf\
    b9ef81d4c970620c29b811f128fc8a72d4ff12654c3c39dab54eaef9638d28de\
    738959779fcd3e7ac918b3961605ffc1ea2e1aef15d774d3207176420c5cc454\
    b19b55558562b0c7ddf00a7d0cf605873faa8028df38ec2d0800d5ddc67f1776\
    338d675491fe87f6bb7354b3";
const PROOF: &str = "05993a0f58fbd9a5c3433af91634b89dac6615f078bec426320af17b8da019c0\
    3058ced4b10ce26de28652f7a3105146f0bc71e145173637041c599b35fcc9bb\
    112481cb92f08c33f3b41dd04d01cccc74ea26dd31f17f3da66b624dd5ccc074\
    14550237c376595b16cb8a6107729731c341634464ba1a15c239e2047f0cc083\
    2d6a1707745972d09054b5098b7abe2433d727e336a1f9933f9aa14748ad594e\
    255420d4a7200beb753a7ea90439f5790e06d7082c75c77ea40771acdc81643e\
    24f253a56d4badbe5f105ae102f14cf23ecb3a3892640ed1edb49c9d9e45d063\
    1392ab50e020ade3c6069f16bf09d1ac4ebe686a3063ce392a0ea2b7ec03f6b1";
const INPUT_7: &str = "0000000000000000000000000000000000000000000000000000000000000007";
const INPUT_8: &str = "0000000000000000000000000000000000000000000000000000000000000008";
const VK_COMMIT: &str = "0000000100000003000000012a14705537b009189da8808651eecdb82482477f\
    e92ac12ca8b71f80fc3d49ef2df7ee7f243ea8b38e1ddf14029258877a618c77\
    9fd4717db6177e19ea67ec38009edaf0698a8c56f51139588acc094cee3c37d4\
    27bb6d2eab830aae529097d123ad66f3a7cca9dc75049635faebd124316244b9\
    1de5fb2764cd151572a905f72700e8a29b7bb45f3022a18a07bdc66d0254559e\
    17cce64e3b4ad21578fcf4101ad4f87d3b4375a39988ac099b042b1e7c0c7156\
    78e4c2bea8905f607cf950f8227071bba5ff3b47ed8b504bb5b215bc701d7a32\
    59b933bff1a4164eae499c2c0c51a367b61d3119677b29739ddccbb78002b555\
    8d8f49ff16e299c1b41f809808bb188b2a6187bb1e87834c85a6a917763d65b9\
    8febf2c45ea339dd77fac41518fd2fd13be8494c39e8a91325d1ef3ba7d1a205\
    d10788e38bc9e09d9be8776925407be35f18c6594174374841311466c0e66ff0\
    03762448c06bca4fa5e9c54e15cbba9ab73bc73d0ba4ad132a15cb0c73107a9c\
    19b040c4c73d89f6bf75404d1edef86c1a42fa85ab6ae8d268a7e9b46890b213\
    0dd83b91c86c504cf1f93fbf2c750c045112e4ab07f18b12475309cebdcb726b\
    da1ca9948bacd498a28cf4111e28260f0ee971dec1e84cf81ff2776ad314d2cf\
    b9ef81d4c970620c29b811f128fc8a72d4ff12654c3c39dab54eaef9638d28de\
    738959779fcd3e7ac918b3961605ffc1ea2e1aef15d774d3207176420c5cc454\
    b19b55558562b0c7ddf00a7d0cf605873faa8028df38ec2d0800d5ddc67f1776\
    338d675491fe87f6bb7354b314b4fa251277a6f4cbbfe379a152a976641f58a4\
    a2bffd3b677ea093bdad853c28ce094a6d16280abcf8d84efa062c85511819dd\
    87d8da255885ce0580ebee361158386a608a2a7a3f784c01aa9bd891b079e148\
    0365c8979ac218dfab47269019d48b804e83ca1cdb0658cf3d8eccb82b37149a\
    0fb46857158a58605dc0dcd81a9cef365ac54913b6d15deb6f9a7226369baa32\
    3bd118c0a1d73835d96ef656000871aa985de8ef9dd46dde96e622e8a34f7d8b\
    7c88bf86414893bf3712e5562ad8081239cb67291ce92322e2b7c506bd476335\
    e19e464d16d677812b53983e0c934a67566dc22f53a1d0cf78054e2fd320268a\
    fc0efeb4ebc45163659f50970f34edb88b45944a1dc8248f47a57fb38b703201\
    5b80f7e855f1a4267452b683005fc88867f7cd7b1e7ae95e3c1a2623921eb913\
    5288789a554517e86b7adff4";
const PROOF_COMMIT: &str = "089f3bde74954a1616db436ff4b50c9f46d2cfb2c2c19ec7c4b2ed6224bc2c0c\
    124e7a575497b681ec0f157447022499e9bd6153dfcbd058fae5699ae2ad9967\
    112481cb92f08c33f3b41dd04d01cccc74ea26dd31f17f3da66b624dd5ccc074\
    14550237c376595b16cb8a6107729731c341634464ba1a15c239e2047f0cc083\
    2d6a1707745972d09054b5098b7abe2433d727e336a1f9933f9aa14748ad594e\
    255420d4a7200beb753a7ea90439f5790e06d7082c75c77ea40771acdc81643e\
    24f253a56d4badbe5f105ae102f14cf23ecb3a3892640ed1edb49c9d9e45d063\
    1392ab50e020ade3c6069f16bf09d1ac4ebe686a3063ce392a0ea2b7ec03f6b1\
    2a82de6403f176ebf924b2a21c45cf3d7a925f5b91cd17053ddaa4aa5fc0f8a8\
    05388612b753a376eccc8bed6b11b2c58e4cdbce56b08bc3bf5369746c57872b\
    05b702f88df617dd945884dde4502cc6cf4f57f8dff4cc0bfbf87c96232736e3\
    0e2dfaab014a140dfa3ad213d7c47298762ee2311711b6351bdb21427b69bb1a";
const PROOF_COMMIT_BAD_POK: &str = "089f3bde74954a1616db436ff4b50c9f46d2cfb2c2c19ec7c4b2ed6224bc2c0c\
    124e7a575497b681ec0f157447022499e9bd6153dfcbd058fae5699ae2ad9967\
    112481cb92f08c33f3b41dd04d01cccc74ea26dd31f17f3da66b624dd5ccc074\
    14550237c376595b16cb8a6107729731c341634464ba1a15c239e2047f0cc083\
    2d6a1707745972d09054b5098b7abe2433d727e336a1f9933f9aa14748ad594e\
    255420d4a7200beb753a7ea90439f5790e06d7082c75c77ea40771acdc81643e\
    24f253a56d4badbe5f105ae102f14cf23ecb3a3892640ed1edb49c9d9e45d063\
    1392ab50e020ade3c6069f16bf09d1ac4ebe686a3063ce392a0ea2b7ec03f6b1\
    2a82de6403f176ebf924b2a21c45cf3d7a925f5b91cd17053ddaa4aa5fc0f8a8\
    05388612b753a376eccc8bed6b11b2c58e4cdbce56b08bc3bf5369746c57872b\
    13189039b8a3ce928b1b72fdfe8988e64809a11d86a76c9883b74a4521329bc9\
    0394528fb4c90392ff4e068b61555940220365d60c9307a1fdfe29f13713113f";
const G1_GEN: &str = "0000000000000000000000000000000000000000000000000000000000000001\
    0000000000000000000000000000000000000000000000000000000000000002";
const G1_OFF_CURVE: &str = "0000000000000000000000000000000000000000000000000000000000000001\
    0000000000000000000000000000000000000000000000000000000000000003";
const MODULUS_R: &str = "30644e72e131a029b85045b68181585d2833e84879b9709143e1f593f0000001";

fn raw(text: &str) -> Vec<u8> {
    let digits: Vec<u8> = text
        .bytes()
        .map(|c| match c {
            b'0'..=b'9' => c - b'0',
            b'a'..=b'f' => c - b'a' + 10,
            _ => panic!("not a hex digit"),
        })
        .collect();
    digits.chunks(2).map(|pair| pair[0] * 16 + pair[1]).collect()
}

fn decode_error(v: Verdict) -> DecodeError {
    match v {
        Verdict::Rejected(Rejection::Decode(e)) => e,
        other => panic!("not a decode error: {:?}", other),
    }
}

const INVALID: Verdict = Verdict::Rejected(Rejection::Failed(VerificationFailed::PairingEquation));

#[test]
fn verifying_key_parses() {
    let vk = VerifyingKey::parse(&raw(VK)).unwrap();
    assert_eq!(vk.expected_inputs(), 1);
    assert_eq!(vk.ic().len(), 2);
    assert!(!vk.uses_commitment());
    assert!(vk.commitment_key().is_none());
    let bytes = raw(VK);
    assert_eq!(vk.alpha().encode(), bytes[12..76].to_vec());
    assert_eq!(vk.beta().encode(), bytes[76..204].to_vec());
    assert_eq!(vk.gamma().encode(), bytes[204..332].to_vec());
    assert_eq!(vk.delta().encode(), bytes[332..460].to_vec());
    assert_eq!(vk.ic()[0].encode(), bytes[460..524].to_vec());
    assert_eq!(vk.ic()[1].encode(), bytes[524..588].to_vec());
}

#[test]
fn verifying_key_with_a_commitment_parses() {
    let bytes = raw(VK_COMMIT);
    let vk = VerifyingKey::parse(&bytes).unwrap();
    assert_eq!(vk.expected_inputs(), 1);
    assert_eq!(vk.ic().len(), 3);
    assert!(vk.uses_commitment());
    let key = vk.commitment_key().unwrap();
    assert_eq!(key.g.encode(), bytes[652..780].to_vec());
    assert_eq!(key.g_sigma_neg.encode(), bytes[780..908].to_vec());
}

#[test]
fn verifying_key_of_the_wrong_length_is_refused() {
    let bytes = raw(VK);
    assert_eq!(VerifyingKey::parse(&bytes[..bytes.len() - 1]).err(), Some(DecodeError::Length));
    let mut longer = bytes.clone();
    longer.push(0);
    assert_eq!(VerifyingKey::parse(&longer).err(), Some(DecodeError::Length));
    assert_eq!(VerifyingKey::parse(&bytes[..11]).err(), Some(DecodeError::Length));
    assert_eq!(VerifyingKey::parse(&[]).err(), Some(DecodeError::Length));
}

#[test]
fn verifying_key_counts_must_agree() {
    let mut bytes = raw(VK);
    bytes[3] = 2;
    assert_eq!(VerifyingKey::parse(&bytes).err(), Some(DecodeError::InputCountMismatch));
    let mut no_constant = raw(VK);
    no_constant[3] = 0;
    no_constant[7] = 0;
    assert_eq!(VerifyingKey::parse(&no_constant).err(), Some(DecodeError::InputCountMismatch));
    let mut two_commitments = raw(VK_COMMIT);
    two_commitments[11] = 2;
    assert_eq!(VerifyingKey::parse(&two_commitments).err(), Some(DecodeError::CommitmentCount));
    // One commitment declared, but the points of ic do not include its term.
    let mut missing_term = raw(VK);
    missing_term[11] = 1;
    assert_eq!(VerifyingKey::parse(&missing_term).err(), Some(DecodeError::InputCountMismatch));
}

#[test]
fn verifying_key_points_are_validated() {
    let mut bad_alpha = raw(VK);
    bad_alpha[12..76].copy_from_slice(&raw(G1_OFF_CURVE));
    assert_eq!(VerifyingKey::parse(&bad_alpha).err(), Some(DecodeError::NotOnCurve));
    let mut bad_ic = raw(VK);
    bad_ic[524..588].copy_from_slice(&raw(G1_OFF_CURVE));
    assert_eq!(VerifyingKey::parse(&bad_ic).err(), Some(DecodeError::NotOnCurve));
    let mut bad_beta = raw(VK);
    bad_beta[76] = 0x40;
    assert_eq!(VerifyingKey::parse(&bad_beta).err(), Some(DecodeError::InvalidInfinityEncoding));
    let mut bad_key = raw(VK_COMMIT);
    bad_key[780] = 0xff;
    assert_eq!(VerifyingKey::parse(&bad_key).err(), Some(DecodeError::NotCanonical));
}

#[test]
fn proof_parses_in_its_mode_only() {
    let plain = raw(PROOF);
    let with_commitment = raw(PROOF_COMMIT);
    let p = Proof::parse(&plain, false).unwrap();
    assert!(p.commitment.is_none());
    assert_eq!(p.a.encode(), plain[..64].to_vec());
    assert_eq!(p.b.encode(), plain[64..192].to_vec());
    assert_eq!(p.c.encode(), plain[192..256].to_vec());
    let q = Proof::parse(&with_commitment, true).unwrap();
    let c = q.commitment.unwrap();
    assert_eq!(c.point.encode(), with_commitment[256..320].to_vec());
    assert_eq!(c.knowledge.encode(), with_commitment[320..384].to_vec());
    assert_eq!(Proof::parse(&plain, true).err(), Some(DecodeError::Length));
    assert_eq!(Proof::parse(&with_commitment, false).err(), Some(DecodeError::Length));
}

#[test]
fn proof_with_trailing_bytes_is_refused() {
    let mut bytes = raw(PROOF);
    bytes.push(0);
    assert_eq!(Proof::parse(&bytes, false).err(), Some(DecodeError::Length));
    assert_eq!(Proof::parse(&[], false).err(), Some(DecodeError::Length));
}

#[test]
fn proof_points_are_validated() {
    let mut bad_a = raw(PROOF);
    bad_a[..64].copy_from_slice(&raw(G1_OFF_CURVE));
    assert_eq!(Proof::parse(&bad_a, false).err(), Some(DecodeError::NotOnCurve));
    let mut bad_c = raw(PROOF);
    bad_c[192] = 0x40;
    assert_eq!(Proof::parse(&bad_c, false).err(), Some(DecodeError::InvalidInfinityEncoding));
    let mut bad_knowledge = raw(PROOF_COMMIT);
    bad_knowledge[320..384].copy_from_slice(&raw(G1_OFF_CURVE));
    assert_eq!(Proof::parse(&bad_knowledge, true).err(), Some(DecodeError::NotOnCurve));
}

#[test]
fn public_inputs_parse_as_whole_scalars() {
    let mut bytes = raw(INPUT_7);
    bytes.extend_from_slice(&raw(INPUT_8));
    let inputs = PublicInputs::parse(&bytes).unwrap();
    assert_eq!(inputs.len(), 2);
    assert_eq!(inputs.elements, vec![FieldElement::from_u64(7), FieldElement::from_u64(8)]);
    assert_eq!(PublicInputs::parse(&[]).unwrap().len(), 0);
    assert_eq!(PublicInputs::parse(&bytes[..63]).err(), Some(DecodeError::Length));
    assert_eq!(PublicInputs::parse(&bytes[..33]).err(), Some(DecodeError::Length));
    bytes[32..64].copy_from_slice(&raw(MODULUS_R));
    assert_eq!(PublicInputs::parse(&bytes).err(), Some(DecodeError::NotCanonical));
}

#[test]
fn valid_proof_is_accepted() {
    let vk = VerifyingKey::parse(&raw(VK)).unwrap();
    let v = verify(&vk, &raw(PROOF), &raw(INPUT_7));
    assert_eq!(v, Verdict::Accepted);
    assert!(v.is_accepted());
    assert_eq!(v.decode_error(), None);
}

#[test]
fn proof_for_another_input_is_rejected() {
    let vk = VerifyingKey::parse(&raw(VK)).unwrap();
    let v = verify(&vk, &raw(PROOF), &raw(INPUT_8));
    assert_eq!(v, INVALID);
    assert!(!v.is_accepted());
    assert_eq!(v.decode_error(), None);
    match v {
        Verdict::Rejected(reason) => assert!(reason.is_invalid_proof()),
        Verdict::Accepted => panic!("accepted"),
    }
}

#[test]
fn truncated_proof_is_a_decode_error() {
    let vk = VerifyingKey::parse(&raw(VK)).unwrap();
    let proof = raw(PROOF);
    let v = verify(&vk, &proof[..proof.len() - 1], &raw(INPUT_7));
    assert_eq!(v, Verdict::Rejected(Rejection::Decode(DecodeError::Length)));
    assert_eq!(v.decode_error(), Some(DecodeError::Length));
    match v {
        Verdict::Rejected(reason) => assert!(!reason.is_invalid_proof()),
        Verdict::Accepted => panic!("accepted"),
    }
}

#[test]
fn extended_proof_is_a_decode_error() {
    let vk = VerifyingKey::parse(&raw(VK)).unwrap();
    let mut proof = raw(PROOF);
    proof.push(0);
    assert_eq!(decode_error(verify(&vk, &proof, &raw(INPUT_7))), DecodeError::Length);
}

#[test]
fn wrong_number_of_inputs_is_a_decode_error() {
    let vk = VerifyingKey::parse(&raw(VK)).unwrap();
    let proof = raw(PROOF);
    assert_eq!(decode_error(verify(&vk, &proof, &[])), DecodeError::InputCountMismatch);
    let mut two = raw(INPUT_7);
    two.extend_from_slice(&raw(INPUT_8));
    assert_eq!(decode_error(verify(&vk, &proof, &two)), DecodeError::InputCountMismatch);
    let mut padded = raw(INPUT_7);
    padded.push(0);
    assert_eq!(decode_error(verify(&vk, &proof, &padded)), DecodeError::Length);
    assert_eq!(decode_error(verify(&vk, &proof, &raw(INPUT_7)[..31])), DecodeError::Length);
}

#[test]
fn input_above_the_modulus_is_a_decode_error() {
    let vk = VerifyingKey::parse(&raw(VK)).unwrap();
    assert_eq!(
        decode_error(verify(&vk, &raw(PROOF), &raw(MODULUS_R))),
        DecodeError::NotCanonical
    );
}

#[test]
fn no_single_flipped_byte_is_accepted() {
    let vk = VerifyingKey::parse(&raw(VK)).unwrap();
    let proof = raw(PROOF);
    let inputs = raw(INPUT_7);
    for i in 0..proof.len() {
        let mut changed = proof.clone();
        changed[i] ^= 0x01;
        assert_ne!(verify(&vk, &changed, &inputs), Verdict::Accepted, "byte {}", i);
    }
}

#[test]
fn no_flipped_high_bit_is_accepted() {
    let vk = VerifyingKey::parse(&raw(VK)).unwrap();
    let proof = raw(PROOF);
    let inputs = raw(INPUT_7);
    for i in 0..proof.len() {
        let mut changed = proof.clone();
        changed[i] ^= 0x80;
        assert_ne!(verify(&vk, &changed, &inputs), Verdict::Accepted, "byte {}", i);
    }
}

#[test]
fn another_valid_point_in_the_proof_is_rejected() {
    let vk = VerifyingKey::parse(&raw(VK)).unwrap();
    let mut proof = raw(PROOF);
    proof[192..256].copy_from_slice(&raw(G1_GEN));
    assert_eq!(verify(&vk, &proof, &raw(INPUT_7)), INVALID);
    let mut swapped = raw(PROOF);
    swapped[..64].copy_from_slice(&raw(G1_GEN));
    assert_eq!(verify(&vk, &swapped, &raw(INPUT_7)), INVALID);
}

#[test]
fn verification_is_repeatable() {
    let vk = VerifyingKey::parse(&raw(VK)).unwrap();
    let again = VerifyingKey::parse(&raw(VK)).unwrap();
    let first = verify(&vk, &raw(PROOF), &raw(INPUT_7));
    assert_eq!(verify(&vk, &raw(PROOF), &raw(INPUT_7)), first);
    assert_eq!(verify(&again, &raw(PROOF), &raw(INPUT_7)), first);
    let rejected = verify(&vk, &raw(PROOF), &raw(INPUT_8));
    assert_eq!(verify(&vk, &raw(PROOF), &raw(INPUT_8)), rejected);
    let refused = verify(&vk, &raw(PROOF)[..255], &raw(INPUT_7));
    assert_eq!(verify(&vk, &raw(PROOF)[..255], &raw(INPUT_7)), refused);
}

#[test]
fn proof_with_a_commitment_is_accepted() {
    let vk = VerifyingKey::parse(&raw(VK_COMMIT)).unwrap();
    assert_eq!(verify(&vk, &raw(PROOF_COMMIT), &raw(INPUT_7)), Verdict::Accepted);
}

#[test]
fn commitment_binds_the_public_input() {
    let vk = VerifyingKey::parse(&raw(VK_COMMIT)).unwrap();
    assert_eq!(verify(&vk, &raw(PROOF_COMMIT), &raw(INPUT_8)), INVALID);
}

#[test]
fn failed_proof_of_knowledge_has_its_own_reason() {
    let vk = VerifyingKey::parse(&raw(VK_COMMIT)).unwrap();
    assert_eq!(
        verify(&vk, &raw(PROOF_COMMIT_BAD_POK), &raw(INPUT_7)),
        Verdict::Rejected(Rejection::Failed(VerificationFailed::CommitmentProof))
    );
    let proof = Proof::parse(&raw(PROOF_COMMIT), true).unwrap();
    let bad = Proof::parse(&raw(PROOF_COMMIT_BAD_POK), true).unwrap();
    let key = vk.commitment_key().unwrap();
    assert_eq!(verify_knowledge(&key, &proof.commitment.unwrap()), Ok(true));
    assert_eq!(verify_knowledge(&key, &bad.commitment.unwrap()), Ok(false));
}

#[test]
fn proof_of_the_other_mode_is_a_decode_error() {
    let plain = VerifyingKey::parse(&raw(VK)).unwrap();
    let committing = VerifyingKey::parse(&raw(VK_COMMIT)).unwrap();
    assert_eq!(
        decode_error(verify(&plain, &raw(PROOF_COMMIT), &raw(INPUT_7))),
        DecodeError::Length
    );
    assert_eq!(
        decode_error(verify(&committing, &raw(PROOF), &raw(INPUT_7))),
        DecodeError::Length
    );
    let proof = Proof::parse(&raw(PROOF), false).unwrap();
    let inputs = PublicInputs::parse(&raw(INPUT_7)).unwrap();
    assert_eq!(decode_error(check_proof(&committing, &proof, &inputs)), DecodeError::Length);
}

#[test]
fn decoded_values_are_checked_like_bytes() {
    let vk = VerifyingKey::parse(&raw(VK)).unwrap();
    let proof = Proof::parse(&raw(PROOF), false).unwrap();
    let seven = PublicInputs::parse(&raw(INPUT_7)).unwrap();
    let eight = PublicInputs::parse(&raw(INPUT_8)).unwrap();
    let none = PublicInputs::parse(&[]).unwrap();
    assert_eq!(check_proof(&vk, &proof, &seven), Verdict::Accepted);
    assert_eq!(check_proof(&vk, &proof, &eight), INVALID);
    assert_eq!(decode_error(check_proof(&vk, &proof, &none)), DecodeError::InputCountMismatch);
}

#[test]
fn linear_combination_of_the_key() {
    // ic[0] = 23 G and ic[1] = 29 G, so the combination for 7 is 226 G.
    let vk = VerifyingKey::parse(&raw(VK)).unwrap();
    let g = G1Point::decode(&raw(G1_GEN)).unwrap();
    let l = linear_combination(vk.ic(), &[FieldElement::from_u64(7)]).unwrap();
    assert_eq!(l, g.scalar_mul(&FieldElement::from_u64(226)).unwrap());
    let only_constant = linear_combination(&vk.ic()[..1], &[]).unwrap();
    assert_eq!(only_constant, g.scalar_mul(&FieldElement::from_u64(23)).unwrap());
    let zero = linear_combination(vk.ic(), &[FieldElement::from_u64(0)]).unwrap();
    assert_eq!(zero, only_constant);
}

#[test]
fn public_point_and_equation() {
    let vk = VerifyingKey::parse(&raw(VK)).unwrap();
    let proof = Proof::parse(&raw(PROOF), false).unwrap();
    let seven = PublicInputs::parse(&raw(INPUT_7)).unwrap();
    let g = G1Point::decode(&raw(G1_GEN)).unwrap();
    let l = compute_public_point(&vk, &proof, &seven).unwrap();
    assert_eq!(l, g.scalar_mul(&FieldElement::from_u64(226)).unwrap());
    assert_eq!(check_equation(&vk, &proof, &l), Ok(true));
    assert_eq!(check_equation(&vk, &proof, &g), Ok(false));
}

#[test]
fn public_point_includes_the_commitment() {
    // With the commitment 53 G and the challenge h, the point is
    // (23 + 7 * 29 + h * 31 + 53) G.
    let vk = VerifyingKey::parse(&raw(VK_COMMIT)).unwrap();
    let proof = Proof::parse(&raw(PROOF_COMMIT), true).unwrap();
    let seven = PublicInputs::parse(&raw(INPUT_7)).unwrap();
    let l = compute_public_point(&vk, &proof, &seven).unwrap();
    let h = verifier_lib::commitments::challenge(&proof.commitment.unwrap().point, &seven.elements);
    let g = G1Point::decode(&raw(G1_GEN)).unwrap();
    let fixed = g.scalar_mul(&FieldElement::from_u64(23 + 7 * 29 + 53)).unwrap();
    let varying = vk.ic()[2].scalar_mul(&h).unwrap();
    assert_eq!(l, fixed.add(&varying).unwrap());
    assert_eq!(check_equation(&vk, &proof, &l), Ok(true));
}

#[test]
fn states_follow_one_another() {
    let vk = VerifyingKey::parse(&raw(VK)).unwrap();
    let s = State::start();
    assert!(matches!(s, State::Unverified));
    assert_eq!(s.verdict(), None);
    let s = s.step(&vk);
    assert!(matches!(s, State::Unverified));
    let s = s.submit(raw(PROOF), raw(INPUT_7));
    assert!(matches!(s, State::Decoding(_, _)));
    assert_eq!(s.verdict(), None);
    let s = s.step(&vk);
    assert!(matches!(s, State::PairingCheck(_, _)));
    assert_eq!(s.verdict(), None);
    let s = s.step(&vk);
    assert!(matches!(s, State::Accepted));
    assert_eq!(s.verdict(), Some(Verdict::Accepted));
    let s = s.step(&vk).submit(raw(PROOF), raw(INPUT_8)).step(&vk);
    assert_eq!(s.verdict(), Some(Verdict::Accepted));
}

#[test]
fn decode_failure_goes_straight_to_rejected() {
    let vk = VerifyingKey::parse(&raw(VK)).unwrap();
    let s = State::start().submit(raw(PROOF)[..255].to_vec(), raw(INPUT_7)).step(&vk);
    assert_eq!(s.verdict(), Some(Verdict::Rejected(Rejection::Decode(DecodeError::Length))));
    let s = s.step(&vk);
    assert_eq!(s.verdict(), Some(Verdict::Rejected(Rejection::Decode(DecodeError::Length))));
    let t = State::start().submit(raw(PROOF), Vec::new()).step(&vk);
    assert_eq!(
        t.verdict(),
        Some(Verdict::Rejected(Rejection::Decode(DecodeError::InputCountMismatch)))
    );
}

#[test]
fn invalid_proof_ends_in_rejected() {
    let vk = VerifyingKey::parse(&raw(VK)).unwrap();
    let s = State::start().submit(raw(PROOF), raw(INPUT_8)).step(&vk).step(&vk);
    assert_eq!(s.verdict(), Some(INVALID));
    assert_eq!(s.verdict(), Some(verify(&vk, &raw(PROOF), &raw(INPUT_8))));
}

#[test]
fn host_errors_are_distinct_from_failed_checks() {
    let host = Verdict::Rejected(Rejection::Host(HostCallError::Rejected));
    assert_ne!(host, INVALID);
    assert_eq!(host.decode_error(), None);
    assert!(!host.is_accepted());
    assert!(!Rejection::Host(HostCallError::MalformedOutput).is_invalid_proof());
    assert!(Rejection::Failed(VerificationFailed::CommitmentProof).is_invalid_proof());
    assert!(!Rejection::Decode(DecodeError::NotInSubgroup).is_invalid_proof());
}

#[test]
fn records_are_verified_from_bytes() {
    assert_eq!(verify_records(&raw(VK), &raw(PROOF), &raw(INPUT_7), false), Verdict::Accepted);
    assert_eq!(verify_records(&raw(VK), &raw(PROOF), &raw(INPUT_8), false), INVALID);
    assert_eq!(
        verify_records(&raw(VK_COMMIT), &raw(PROOF_COMMIT), &raw(INPUT_7), true),
        Verdict::Accepted
    );
}

#[test]
fn key_record_must_decode_and_match_the_mode() {
    let vk = raw(VK);
    assert_eq!(
        decode_error(verify_records(&vk[..vk.len() - 1], &raw(PROOF), &raw(INPUT_7), false)),
        DecodeError::Length
    );
    assert_eq!(
        decode_error(verify_records(&vk, &raw(PROOF), &raw(INPUT_7), true)),
        DecodeError::CommitmentCount
    );
    assert_eq!(
        decode_error(verify_records(&raw(VK_COMMIT), &raw(PROOF_COMMIT), &raw(INPUT_7), false)),
        DecodeError::CommitmentCount
    );
    let mut bad = raw(VK);
    bad[12..76].copy_from_slice(&raw(G1_OFF_CURVE));
    assert_eq!(
        decode_error(verify_records(&bad, &raw(PROOF), &raw(INPUT_7), false)),
        DecodeError::NotOnCurve
    );
}
