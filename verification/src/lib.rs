//! Contracts and core mechanisms underlying a family of cryptographic
//! primitive interfaces: authenticated encryption with associated data
//! (AEAD), hashing, elliptic-curve arithmetic and signature verification.
//!
//! Two components carry the real algorithmic content and are fully verified:
//! the in-place AEAD transform ([`aead`]), which composes a detached
//! encrypt/decrypt primitive with a tag-placement policy and a
//! capacity-constrained byte buffer, and the batched modular-inversion
//! engine ([`ops`]), which inverts a whole sequence of field elements at the
//! amortized cost of a single inversion.  The remaining modules declare the
//! capability contracts (hashers, verifiers, reduction) that concrete
//! algorithms implement.

pub mod aead;
pub mod buffer;
pub mod dev;
pub mod digest;
pub mod legacy;
pub mod ops;
pub mod signature;
pub mod voprf;
