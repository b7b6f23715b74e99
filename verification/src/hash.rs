//! The transcript hash: SHA-256 expanded under a domain-separation tag and
//! reduced to a scalar.
use crate::encoding::{append_bytes, be_value, zero_bytes, zeros};
use crate::field::{scalar_modulus, FieldElement};
use vstd::prelude::*;

verus! {

/// The number of bytes drawn from the hash for one scalar. Sixteen bytes
/// more than the modulus is wide, so that the reduction is uniform up to a
/// bias of `2^-128`.
pub const EXPANDED_SIZE: usize = 48;

/// The longest tag that is used as it is; a longer one is hashed first.
pub const MAX_TAG_SIZE: usize = 255;

/// The SHA-256 digest of `input`.
pub uninterp spec fn sha256_digest(input: Seq<u8>) -> Seq<u8>;

/// Calls `sha2::Sha256::digest`. The contract claims that the digest is a
/// function of the input bytes, named by [`sha256_digest`], and that it is 32
/// bytes long.
#[verifier::external_body]
pub(crate) fn sha256(input: &[u8]) -> (out: Vec<u8>)
    ensures
        out@ == sha256_digest(input@),
        out@.len() == 32,
{
    <sha2::Sha256 as sha2::Digest>::digest(input).to_vec()
}

/// The byte-wise exclusive or of `a` with `b`; where `b` is the shorter, the
/// rest of `a` stays as it is.
pub open spec fn xor_bytes(a: Seq<u8>, b: Seq<u8>) -> Seq<u8> {
    Seq::new(
        a.len(),
        |i: int|
            if i < b.len() {
                a[i] ^ b[i]
            } else {
                a[i]
            },
    )
}

/// The bytes put before a tag of more than 255 bytes when it is hashed: the
/// ASCII bytes of `H2C-OVERSIZE-DST-`.
pub open spec fn oversize_prefix() -> Seq<u8> {
    seq![
        0x48u8,
        0x32u8,
        0x43u8,
        0x2du8,
        0x4fu8,
        0x56u8,
        0x45u8,
        0x52u8,
        0x53u8,
        0x49u8,
        0x5au8,
        0x45u8,
        0x2du8,
        0x44u8,
        0x53u8,
        0x54u8,
        0x2du8,
    ]
}

/// The tag that enters the expansion: the tag itself, or the digest of a
/// tag of more than 255 bytes.
pub open spec fn effective_tag(tag: Seq<u8>) -> Seq<u8> {
    if tag.len() > 255 {
        sha256_digest(oversize_prefix() + tag)
    } else {
        tag
    }
}

/// A tag followed by its length in one byte.
pub open spec fn tag_with_length(tag: Seq<u8>) -> Seq<u8> {
    tag.push((tag.len() % 256) as u8)
}

/// The suffix that separates the domain in every block of the expansion.
pub open spec fn domain_suffix(tag: Seq<u8>) -> Seq<u8> {
    tag_with_length(effective_tag(tag))
}

/// The input of the first digest: a zero block, the message, the requested
/// length in two bytes, a zero byte and the suffix.
pub open spec fn seed_input(message: Seq<u8>, suffix: Seq<u8>) -> Seq<u8> {
    zeros(64) + message + seq![0u8, 48u8, 0u8] + suffix
}

/// The input of the second digest: the seed, the counter one and the suffix.
pub open spec fn first_input(seed: Seq<u8>, suffix: Seq<u8>) -> Seq<u8> {
    seed + seq![1u8] + suffix
}

/// The input of the third digest: the seed combined with the block before,
/// the counter two and the suffix.
pub open spec fn second_input(seed: Seq<u8>, first: Seq<u8>, suffix: Seq<u8>) -> Seq<u8> {
    xor_bytes(seed, first) + seq![2u8] + suffix
}

/// The bytes drawn from two blocks: the first whole, and of the second the
/// first sixteen bytes, or all of it where it is shorter.
pub open spec fn drawn_bytes(first: Seq<u8>, second: Seq<u8>) -> Seq<u8> {
    first + second.subrange(
        0,
        if second.len() < 16 {
            second.len() as int
        } else {
            16
        },
    )
}

/// The 48 bytes that the message expands to under the tag, by the
/// `expand_message_xmd` construction over SHA-256.
pub open spec fn expand_message(message: Seq<u8>, tag: Seq<u8>) -> Seq<u8> {
    let suffix = domain_suffix(tag);
    let seed = sha256_digest(seed_input(message, suffix));
    let first = sha256_digest(first_input(seed, suffix));
    let second = sha256_digest(second_input(seed, first, suffix));
    drawn_bytes(first, second)
}

/// The scalar that the message hashes to under the tag: the expansion read
/// as a big-endian integer and reduced modulo `r`.
pub open spec fn hash_to_scalar(message: Seq<u8>, tag: Seq<u8>) -> nat {
    be_value(expand_message(message, tag)) % scalar_modulus()
}

/// Combines two byte strings by exclusive or.
pub fn xor_with(a: &[u8], b: &[u8]) -> (out: Vec<u8>)
    ensures
        out@ == xor_bytes(a@, b@),
{
    let mut out: Vec<u8> = Vec::new();
    let mut i: usize = 0;
    while i < a.len()
        invariant
            i <= a@.len(),
            out@.len() == i,
            forall|j: int| 0 <= j < i ==> out@[j] == xor_bytes(a@, b@)[j],
        decreases a@.len() - i,
    {
        if i < b.len() {
            out.push(a[i] ^ b[i]);
        } else {
            out.push(a[i]);
        }
        i += 1;
    }
    assert(out@ =~= xor_bytes(a@, b@));
    out
}

/// Appends to a tag its length in one byte.
pub fn append_length(tag: &[u8]) -> (out: Vec<u8>)
    ensures
        out@ == tag_with_length(tag@),
{
    let mut out: Vec<u8> = Vec::new();
    append_bytes(&mut out, tag);
    out.push((tag.len() % 256) as u8);
    assert(out@ =~= tag_with_length(tag@));
    out
}

/// Builds the suffix that separates the domain: a tag of at most 255 bytes
/// enters as it is, a longer one as its digest.
pub fn build_suffix(tag: &[u8]) -> (out: Vec<u8>)
    ensures
        out@ == domain_suffix(tag@),
{
    if tag.len() > MAX_TAG_SIZE {
        let mut long: Vec<u8> = vec![
            0x48u8,
            0x32u8,
            0x43u8,
            0x2du8,
            0x4fu8,
            0x56u8,
            0x45u8,
            0x52u8,
            0x53u8,
            0x49u8,
            0x5au8,
            0x45u8,
            0x2du8,
            0x44u8,
            0x53u8,
            0x54u8,
            0x2du8,
        ];
        assert(long@ =~= oversize_prefix());
        append_bytes(&mut long, tag);
        let digest = sha256(long.as_slice());
        append_length(digest.as_slice())
    } else {
        append_length(tag)
    }
}

/// Builds the input of the first digest.
pub fn build_seed_input(message: &[u8], suffix: &[u8]) -> (out: Vec<u8>)
    ensures
        out@ == seed_input(message@, suffix@),
{
    let mut out = zero_bytes(64);
    append_bytes(&mut out, message);
    out.push(0u8);
    out.push(EXPANDED_SIZE as u8);
    out.push(0u8);
    append_bytes(&mut out, suffix);
    assert(out@ =~= seed_input(message@, suffix@));
    out
}

/// Builds the input of the second digest from the seed.
pub fn build_first_input(seed: &[u8], suffix: &[u8]) -> (out: Vec<u8>)
    ensures
        out@ == first_input(seed@, suffix@),
{
    let mut out: Vec<u8> = Vec::new();
    append_bytes(&mut out, seed);
    out.push(1u8);
    append_bytes(&mut out, suffix);
    assert(out@ =~= first_input(seed@, suffix@));
    out
}

/// Builds the input of the third digest from the seed and the block before.
pub fn build_second_input(seed: &[u8], first: &[u8], suffix: &[u8]) -> (out: Vec<u8>)
    ensures
        out@ == second_input(seed@, first@, suffix@),
{
    let mut out = xor_with(seed, first);
    out.push(2u8);
    append_bytes(&mut out, suffix);
    assert(out@ =~= second_input(seed@, first@, suffix@));
    out
}

/// Draws the expanded bytes from the two blocks.
pub fn draw_bytes(first: &[u8], second: &[u8]) -> (out: Vec<u8>)
    ensures
        out@ == drawn_bytes(first@, second@),
{
    let take: usize = if second.len() < 16 {
        second.len()
    } else {
        16
    };
    let mut out: Vec<u8> = Vec::new();
    append_bytes(&mut out, first);
    append_bytes(&mut out, vstd::slice::slice_subrange(second, 0, take));
    out
}

/// Expands a message to 48 bytes under a domain-separation tag.
pub fn expand(message: &[u8], tag: &[u8]) -> (out: Vec<u8>)
    ensures
        out@ == expand_message(message@, tag@),
        out@.len() == 48,
{
    let suffix = build_suffix(tag);
    let seed_block = build_seed_input(message, suffix.as_slice());
    let seed = sha256(seed_block.as_slice());
    let first_block = build_first_input(seed.as_slice(), suffix.as_slice());
    let first = sha256(first_block.as_slice());
    let second_block = build_second_input(seed.as_slice(), first.as_slice(), suffix.as_slice());
    let second = sha256(second_block.as_slice());
    draw_bytes(first.as_slice(), second.as_slice())
}

/// Hashes a message to a scalar under a domain-separation tag.
pub fn hash_to_field(message: &[u8], tag: &[u8]) -> (r: FieldElement)
    ensures
        r@ == hash_to_scalar(message@, tag@),
{
    let expanded = expand(message, tag);
    FieldElement::from_be_bytes_reduced(expanded.as_slice())
}

} // verus!
