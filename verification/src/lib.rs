//! Verification side of a Groth16-style zero-knowledge proof system.
//!
//! The crate decides acceptance of a proof against a verifying key and a
//! vector of public inputs, without access to the witness.  It provides:
//!
//! - a byte-exact serialization codec for proofs and verifying keys,
//!   including elliptic-curve point encoding and rejection of degenerate
//!   (identity) points;
//! - the one-time preparation step that turns a verifying key into a form
//!   optimized for repeated pairing checks;
//! - the pairing-based verification protocol itself;
//! - the shared error taxonomy for malformed cryptographic input.
//!
//! The elliptic-curve arithmetic is consumed as an abstract capability,
//! the [`engine::Engine`] trait; a small engine over a toy field,
//! [`dummy_engine::DummyEngine`], implements it and discharges all of the
//! trait's laws, so every proof in this crate is grounded in at least one
//! checked instance.

pub mod bytes;
pub mod cursor;
pub mod dummy_engine;
pub mod engine;
pub mod errors;
pub mod groth16;
pub mod records;
