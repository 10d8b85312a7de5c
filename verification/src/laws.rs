//! Laws that relate the engine's operations to one another.

use crate::difficulty::meets_spec;
use crate::digest::digest_chars;
use crate::engine::nonce_valid;
use vstd::prelude::*;

verus! {

/// The digest text is a pure function of payload and nonce: any two hash
/// results for the same inputs are the same string.
pub proof fn lemma_hash_deterministic(data: Seq<u8>, nonce: u64, r1: Seq<char>, r2: Seq<char>)
    requires
        r1 == digest_chars(data, nonce),
        r2 == digest_chars(data, nonce),
    ensures
        r1 == r2,
{
}

/// Validation is exactly the difficulty predicate applied to the digest
/// text of the payload and nonce.
pub proof fn lemma_valid_is_predicate_of_hash(data: Seq<u8>, nonce: u64, difficulty: u32)
    ensures
        nonce_valid(data, nonce, difficulty) == meets_spec(digest_chars(data, nonce), difficulty),
{
}

/// Difficulty 0 accepts every nonce for every payload.
pub proof fn lemma_difficulty_zero_trivial(data: Seq<u8>, nonce: u64)
    ensures
        nonce_valid(data, nonce, 0),
{
}

} // verus!
