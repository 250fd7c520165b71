//! Verification core for Lightning-style signed messages.
//!
//! A message is authenticated by a recoverable ECDSA signature over
//! secp256k1: the signer hashes `"Lightning Signed Message:" ++ message`
//! twice with SHA-256, signs the digest, and publishes the 65-byte
//! signature (recovery marker followed by the compact `r ‖ s` pair)
//! in the human-oriented zbase32 alphabet.  This crate decodes that
//! encoding, recomputes the digest, recovers the signer's public key
//! and compares it against the expected one.

pub mod signature;
pub mod types;
