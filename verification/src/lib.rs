//! Transparent file-encryption layer for a version-control working tree.
//!
//! The core is a deterministic authenticated-encryption codec: the cipher key
//! is derived from user key material by hashing, and the nonce is derived from
//! the plaintext itself, so that encrypting the same content under the same
//! key is byte-for-byte reproducible across independent invocations. On top of
//! the codec sit a content classifier (magic-tag detection) and the three
//! stateless filter transforms (clean, smudge, diff) with their pass-through
//! and failure-masking policies.

pub mod crypto;
pub mod filter;
pub mod util;
