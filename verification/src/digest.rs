//! The hasher: a payload and a nonce are turned into a digest, written as
//! lowercase hex text.

use vstd::prelude::*;

verus! {

/// The SHA-256 digest of a byte sequence: 32 bytes, a function of the input
/// alone.  Its value is not stated here; the engine only needs that it is
/// one fixed sequence per input.
pub uninterp spec fn sha256_of(input: Seq<u8>) -> Seq<u8>;

/// The lowercase hex character for a nibble value.
pub open spec fn hex_digit_char(v: int) -> char
    recommends
        0 <= v < 16,
{
    seq!['0', '1', '2', '3', '4', '5', '6', '7', '8', '9', 'a', 'b', 'c', 'd', 'e', 'f'][v]
}

/// Lowercase hex text of a byte sequence: two digits per byte, high nibble
/// first, no separators.
pub open spec fn hex_of(bytes: Seq<u8>) -> Seq<char> {
    Seq::new(
        bytes.len() * 2,
        |i: int|
            if i % 2 == 0 {
                hex_digit_char(bytes[i / 2] as int / 16)
            } else {
                hex_digit_char(bytes[i / 2] as int % 16)
            },
    )
}

/// The bytes fed to the hash: the payload followed by the nonce in
/// little-endian order.
pub open spec fn pow_message(data: Seq<u8>, nonce: u64) -> Seq<u8> {
    data + vstd::bytes::spec_u64_to_le_bytes(nonce)
}

/// The digest text for a payload and nonce: lowercase hex of the SHA-256
/// digest of the message.
pub open spec fn digest_chars(data: Seq<u8>, nonce: u64) -> Seq<char> {
    hex_of(sha256_of(pow_message(data, nonce)))
}

/// Relies on sha2::Sha256::digest: the SHA-256 digest of the input bytes,
/// always 32 bytes, depending on the input alone.
#[verifier::external_body]
fn sha256(data: &[u8]) -> (r: Vec<u8>)
    ensures
        r@ == sha256_of(data@),
        r@.len() == 32,
{
    <sha2::Sha256 as sha2::Digest>::digest(data).to_vec()
}

/// Relies on hex::encode: two lowercase hex digits for each input byte, high
/// nibble first, with no separators.
#[verifier::external_body]
fn hex_lower(data: &Vec<u8>) -> (r: String)
    ensures
        r@ == hex_of(data@),
{
    hex::encode(data.as_slice())
}

/// Hashes the payload together with the nonce's 8-byte little-endian
/// representation and returns the digest as lowercase hex text, always 64
/// characters.
pub fn compute_hash(data: &[u8], nonce: u64) -> (r: String)
    ensures
        r@ == digest_chars(data@, nonce),
        r@.len() == 64,
{
    let mut message: Vec<u8> = vstd::slice::slice_to_vec(data);
    let mut tail: Vec<u8> = vstd::bytes::u64_to_le_bytes(nonce);
    message.append(&mut tail);
    let digest = sha256(message.as_slice());
    hex_lower(&digest)
}

/// The raw hashing operation offered to callers: the 64-character digest
/// text for a payload and nonce.
pub fn get_hash(data: &[u8], nonce: u64) -> (r: String)
    ensures
        r@ == digest_chars(data@, nonce),
        r@.len() == 64,
{
    compute_hash(data, nonce)
}

} // verus!
