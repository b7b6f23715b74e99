use verifier_lib::commitments::challenge;
use verifier_lib::curve::G1Point;
use verifier_lib::field::FieldElement;
use verifier_lib::hash::{
    append_length, build_first_input, build_second_input, build_seed_input, build_suffix,
    draw_bytes, expand, hash_to_field, xor_with,
};

const PROOF_COMMIT: &str = "089f3bde74954a1616db436ff4b50c9f46d2cfb2c2c19ec7c4b2ed6224bc2c0c\
    124e7a575497b681ec0f157447022499e9bd6153dfcbd058fae5699ae2ad9967\
    112481cb92f08c33f3b41dd04d01cccc74ea26dd31f17f3da66b624dd5ccc074\
    14550237c376595b16cb8a6107729731c341634464ba1a15c239e2047f0cc083\
    2d6a1707745972d09054b5098b7abe2433d727e336a1f9933f9aa14748ad594e\
    255420d4a7200beb753a7ea90439f5790e06d7082c75c77ea40771acdc81643e\
    24f253a56d4badbe5f105ae102f14cf23ecb3a3892640ed1edb49c9d9e45d063\
    1392ab50e020ade3c6069f16bf09d1ac4ebe686a3063ce392a0ea2b7ec03f6b1\
    2a82de6403f176ebf924b2a21c45cf3d7a925f5b91cd17053ddaa4aa5fc0f8a8\
    05388612b753a376eccc8bed6b11b2c58e4cdbce56b08bc3bf5369746c57872b\
    05b702f88df617dd945884dde4502cc6cf4f57f8dff4cc0bfbf87c96232736e3\
    0e2dfaab014a140dfa3ad213d7c47298762ee2311711b6351bdb21427b69bb1a";
const CHALLENGE_7: &str = "239a99d203aa71a0cbd0b60f92ca0fb365c533da9fa2bd3c229ce904120eedcd";
const EXPANDED_7: &str = "faffb7b4517f960eefe38b6c25df8ea5fa8b69ddef1b1604b952eca42cad213a\
    21b69d97469c501eb7b5e95f24829e4b";
const EXPAND_ABC: &str = "2b877f5f0dfd881405426c6b87b39205ef53a548b0e4d567fc007cb37c6fa1f3\
    b19f42871efefca518ac950c27ac4e28";

fn bytes_of(text: &str) -> Vec<u8> {
    let digits: Vec<u8> = text
        .bytes()
        .map(|c| match c {
            b'0'..=b'9' => c - b'0',
            b'a'..=b'f' => c - b'a' + 10,
            _ => panic!("not a hex digit"),
        })
        .collect();
    digits.chunks(2).map(|pair| pair[0] * 16 + pair[1]).collect()
}

const TAG: &[u8] = b"bsb22-commitment";

fn transcript_for_seven() -> Vec<u8> {
    let proof = bytes_of(PROOF_COMMIT);
    let mut message = proof[256..320].to_vec();
    let mut seven = vec![0u8; 32];
    seven[31] = 7;
    message.extend_from_slice(&seven);
    message
}

#[test]
fn expansion_gives_forty_eight_bytes() {
    let out = expand(b"abc", b"QUUX-V01-CS02-with-expander-SHA256-128");
    assert_eq!(out.len(), 48);
    assert_eq!(out, bytes_of(EXPAND_ABC));
}

#[test]
fn expansion_of_the_transcript() {
    assert_eq!(expand(&transcript_for_seven(), TAG), bytes_of(EXPANDED_7));
}

#[test]
fn expansion_is_separated_by_the_tag() {
    let under_tag = expand(b"abc", TAG);
    let under_other = expand(b"abc", b"another-purpose");
    assert_ne!(under_tag, under_other);
    assert_ne!(expand(b"abc", TAG), expand(b"abd", TAG));
    assert_eq!(expand(b"abc", TAG), under_tag);
}

#[test]
fn hash_to_field_reduces_the_expansion() {
    let expanded = expand(&transcript_for_seven(), TAG);
    assert_eq!(
        hash_to_field(&transcript_for_seven(), TAG),
        FieldElement::from_be_bytes_reduced(&expanded)
    );
    assert_eq!(hash_to_field(&transcript_for_seven(), TAG).encode(), bytes_of(CHALLENGE_7));
}

#[test]
fn challenge_binds_the_commitment_to_the_inputs() {
    let proof = bytes_of(PROOF_COMMIT);
    let commitment = G1Point::decode(&proof[256..320]).unwrap();
    let seven = [FieldElement::from_u64(7)];
    let h = challenge(&commitment, &seven);
    assert_eq!(h.encode(), bytes_of(CHALLENGE_7));
    assert_eq!(challenge(&commitment, &seven), h);
    assert_ne!(challenge(&commitment, &[FieldElement::from_u64(8)]), h);
    assert_ne!(challenge(&commitment, &[]), h);
    let other = G1Point::decode(&proof[320..384]).unwrap();
    assert_ne!(challenge(&other, &seven), h);
}

const EXPAND_LONG_TAG: &str = "9dce3bce31d54f523f85f5de7f8770c434c9124e75756288c218d6f13b4f8c58\
    e82aface86e022ef49efca5ce9a969c4";
const EXPAND_TAG_255: &str = "b45ce7db2331a449a27b0245871c1d1fefd0096985d8bcb381d43417fb0de1f8\
    288b66598475df6033da3c7cee248055";
const SCALAR_LONG_TAG: &str = "226e72edc81864f3f85fe7db4f53c02dd4f0357019da3d7ed8b0281daf495168";

#[test]
fn tag_of_any_length_is_taken() {
    assert_eq!(expand(b"abc", &[0x61u8; 255]), bytes_of(EXPAND_TAG_255));
    assert_eq!(expand(b"abc", &[0x61u8; 256]), bytes_of(EXPAND_LONG_TAG));
    assert_eq!(hash_to_field(b"abc", &[0x61u8; 256]).encode(), bytes_of(SCALAR_LONG_TAG));
    assert_eq!(expand(b"abc", &[]).len(), 48);
}

#[test]
fn suffix_is_the_tag_and_its_length() {
    assert_eq!(append_length(b"ab"), vec![0x61, 0x62, 2]);
    assert_eq!(append_length(&[]), vec![0]);
    assert_eq!(build_suffix(b"ab"), vec![0x61, 0x62, 2]);
    let mut at_limit = vec![7u8; 255];
    at_limit.push(255);
    assert_eq!(build_suffix(&[7u8; 255]), at_limit);
    // A longer tag enters as its 32-byte digest.
    let long = build_suffix(&[7u8; 256]);
    assert_eq!(long.len(), 33);
    assert_eq!(long[32], 32);
    assert_ne!(long, build_suffix(&[7u8; 257]));
}

#[test]
fn blocks_of_the_expansion() {
    let suffix = [0xaau8, 1];
    let mut seed_input = vec![0u8; 64];
    seed_input.extend_from_slice(b"msg");
    seed_input.extend_from_slice(&[0, 48, 0, 0xaa, 1]);
    assert_eq!(build_seed_input(b"msg", &suffix), seed_input);
    assert_eq!(build_first_input(&[9, 8], &suffix), vec![9, 8, 1, 0xaa, 1]);
    assert_eq!(
        build_second_input(&[0x0f, 0xf0], &[0xff, 0xff], &suffix),
        vec![0xf0, 0x0f, 2, 0xaa, 1]
    );
}

#[test]
fn exclusive_or_keeps_the_length_of_the_first() {
    assert_eq!(xor_with(&[0x0f, 0xf0, 0x55], &[0xff, 0x0f, 0x55]), vec![0xf0, 0xff, 0x00]);
    assert_eq!(xor_with(&[1, 2, 3], &[1]), vec![0, 2, 3]);
    assert_eq!(xor_with(&[1], &[1, 2, 3]), vec![0]);
    assert_eq!(xor_with(&[], &[1]), Vec::<u8>::new());
}

#[test]
fn drawn_bytes_are_one_block_and_a_half() {
    let first = [1u8; 32];
    let mut second = [2u8; 32];
    second[15] = 3;
    second[16] = 4;
    let out = draw_bytes(&first, &second);
    assert_eq!(out.len(), 48);
    assert_eq!(out[..32], first);
    assert_eq!(out[32..], second[..16]);
    assert_eq!(draw_bytes(&[1, 2], &[3, 4]), vec![1, 2, 3, 4]);
}
