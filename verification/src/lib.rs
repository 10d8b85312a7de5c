//! Proof-of-work nonce discovery.
//!
//! Given a byte payload and a difficulty, the engine searches for a 64-bit
//! nonce such that the SHA-256 digest of the payload followed by the nonce's
//! little-endian bytes, written as lowercase hex, starts with the required
//! number of `'0'` characters.  Besides the searches it offers the raw
//! hashing primitive and a validator for a claimed nonce.

pub mod difficulty;
pub mod digest;
pub mod engine;
pub mod laws;

pub use difficulty::meets_difficulty;
pub use digest::{compute_hash, get_hash};
pub use engine::{compute, compute_parallel, valid, PowError};
