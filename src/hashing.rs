//! SHA-256 digests rendered as lowercase hex.
use sha2::Digest;
use vstd::prelude::*;
use vstd::utf8::encode_utf8;

verus! {

/// The 32-byte SHA-256 digest of a byte string.
pub uninterp spec fn sha256_of(data: Seq<u8>) -> Seq<u8>;

/// The lowercase hex digit for a nibble.
pub open spec fn hex_digit(n: int) -> char {
    seq!['0', '1', '2', '3', '4', '5', '6', '7', '8', '9', 'a', 'b', 'c', 'd', 'e', 'f'][n]
}

/// Lowercase hex rendering: two digits per byte, high nibble first.
pub open spec fn hex_of(b: Seq<u8>) -> Seq<char> {
    Seq::new(
        2 * b.len(),
        |i: int|
            if i % 2 == 0 {
                hex_digit(b[i / 2] as int / 16)
            } else {
                hex_digit(b[i / 2] as int % 16)
            },
    )
}

/// The hex-rendered SHA-256 digest of a byte string.
pub open spec fn digest_hex(data: Seq<u8>) -> Seq<char> {
    hex_of(sha256_of(data))
}

/// The hex-rendered SHA-256 digest of the UTF-8 encoding of a text.
pub open spec fn text_digest(s: Seq<char>) -> Seq<char> {
    digest_hex(encode_utf8(s))
}

/// Relies on sha2's `Sha256::digest`: the SHA-256 digest of the input, 32 bytes long.
#[verifier::external_body]
fn sha256_digest(data: &[u8]) -> (r: Vec<u8>)
    ensures
        r@ == sha256_of(data@),
        r@.len() == 32,
{
    sha2::Sha256::digest(data).to_vec()
}

/// Relies on `hex::encode`: two lowercase hex digits per byte, high nibble first.
#[verifier::external_body]
fn hex_encode(b: &[u8]) -> (r: String)
    ensures
        r@ == hex_of(b@),
{
    hex::encode(b)
}

/// Computes the SHA-256 digest of `data` as 64 lowercase hex digits.
pub fn hash_data(data: &[u8]) -> (r: String)
    ensures
        r@ == digest_hex(data@),
        r@.len() == 64,
{
    let d = sha256_digest(data);
    hex_encode(d.as_slice())
}

/// Computes the digest of the UTF-8 bytes of `s`.
pub fn hash_text(s: &str) -> (r: String)
    ensures
        r@ == text_digest(s@),
        r@.len() == 64,
{
    hash_data(s.as_bytes())
}

} // verus!
