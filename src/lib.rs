//! Verification of sidechain certificate proofs, with the field-element
//! codec, the fixed-height field-based Merkle tree and the per-context
//! error reporting that it is built from.
//!
//! The field hash and the proof verifier are supplied by the caller as
//! closures. Every contract that depends on them is stated for each function
//! `h` that the hash closure behaves as (`poseidon::hashes_as`), and, for
//! the verifier, for each function that it behaves as
//! (`certificate::verifies_as`).

pub mod field;
pub mod poseidon;
pub mod merkle;
pub mod certificate;
pub mod error;
pub mod boundary;
