//! Verification of Gnark-generated Groth16 proofs over BN254.
//!
//! The crate decodes verifying keys, proofs and public inputs from their
//! fixed-width records, validates every field element and curve point, and
//! evaluates the Groth16 pairing equation through the platform's `alt_bn128`
//! group operations.
//!
//! # Conventions
//!
//! One convention holds for every record. Field elements are 32 bytes,
//! big-endian, and reduced: an encoding at or above the modulus is refused.
//! Points are uncompressed. A point of G1 is `x` followed by `y`; a point of
//! G2 is `x` followed by `y`, each an element of the quadratic extension with
//! the coefficient of `u` first. The point at infinity is the record of zero
//! bytes and has no other encoding. No field element and no point carries a
//! length prefix. The verifying-key record alone starts with a header, three
//! 32-bit big-endian counts that fix its length; the proof record and the
//! public-input record have none. Every record must end with its last field.
//!
//! # Layout
//!
//! - [`encoding`], [`bigint`], [`field`], [`fq2`]: bytes, integers and field
//!   elements.
//! - [`curve`], [`pairing`], [`syscalls`]: points and the native group
//!   operations.
//! - [`vk`], [`proofs`], [`witness`]: the three records of a call.
//! - [`hash`], [`commitments`]: the transcript hash and the commitment
//!   extension.
//! - [`groth16`]: the verifier.
//! - [`error`]: the typed outcomes.
//! - [`fixtures`]: encoded circuit fixtures and the names of their files.
pub mod bigint;
pub mod commitments;
pub mod curve;
pub mod encoding;
pub mod error;
pub mod field;
pub mod fixtures;
pub mod fq2;
pub mod groth16;
pub mod hash;
pub mod pairing;
pub mod proofs;
pub mod syscalls;
pub mod vk;
pub mod witness;
