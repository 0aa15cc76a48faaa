//! Content hashing and chunk payload decoding.
//!
//! Each chunk's digest is the lowercase hex form of its SHA-256 hash; the
//! calls into the digest and encoding crates stand behind trusted wrappers.

use vstd::prelude::*;
use crate::ident::{is_hex_char, valid_content_hash};
use crate::CoreError;
use sha2::Digest;

verus! {

/// The SHA-256 digest of `data`. The digest itself is not written out here:
/// it is pinned only as a deterministic function of the input bytes.
pub uninterp spec fn sha256_of(data: Seq<u8>) -> Seq<u8>;

/// Relies on sha2::Sha256 (update, then finalize): the digest depends on the
/// input bytes alone and is exactly 32 bytes long.
#[verifier::external_body]
fn sha256_digest(data: &Vec<u8>) -> (r: Vec<u8>)
    ensures
        r@ == sha256_of(data@),
        r@.len() == 32,
{
    let mut hasher = sha2::Sha256::new();
    hasher.update(data.as_slice());
    hasher.finalize().to_vec()
}

/// The character for one hexadecimal digit, lowercase.
pub open spec fn hex_digit_char(d: int) -> char {
    if d < 10 {
        crate::ident::dec_digit_char(d)
    } else if d == 10 {
        'a'
    } else if d == 11 {
        'b'
    } else if d == 12 {
        'c'
    } else if d == 13 {
        'd'
    } else if d == 14 {
        'e'
    } else {
        'f'
    }
}

/// Lowercase hex encoding: two digits per byte, high nibble first.
pub open spec fn hex_of(data: Seq<u8>) -> Seq<char> {
    Seq::new(
        2 * data.len(),
        |i: int|
            if i % 2 == 0 {
                hex_digit_char(data[i / 2] as int / 16)
            } else {
                hex_digit_char(data[i / 2] as int % 16)
            },
    )
}

/// Relies on hex::encode: lowercase output, each input byte encoded as two
/// hex digits, high nibble first.
#[verifier::external_body]
fn hex_encode(data: &Vec<u8>) -> (r: String)
    ensures
        r@ == hex_of(data@),
{
    hex::encode(data.as_slice())
}

/// The recorded digest of a chunk: the lowercase hex form of its SHA-256 hash.
pub open spec fn chunk_digest_of(data: Seq<u8>) -> Seq<char> {
    hex_of(sha256_of(data))
}

/// Every hex digit character is a lowercase hex character.
proof fn lemma_hex_digit_char_is_hex(d: int)
    requires
        0 <= d < 16,
    ensures
        is_hex_char(hex_digit_char(d)),
{
}

/// A chunk digest is itself a well-formed content hash: 64 lowercase hex
/// characters. Identifiers may therefore be derived from recorded digests.
pub proof fn lemma_chunk_digest_valid(data: Seq<u8>)
    requires
        sha256_of(data).len() == 32,
    ensures
        chunk_digest_of(data).len() == 64,
        valid_content_hash(chunk_digest_of(data)),
{
    let digest = sha256_of(data);
    let s = hex_of(digest);
    assert forall|i: int| 0 <= i < s.len() implies is_hex_char(#[trigger] s[i]) by {
        let b = digest[i / 2];
        assert(0 <= b as int / 16 < 16);
        assert(0 <= b as int % 16 < 16);
        lemma_hex_digit_char_is_hex(b as int / 16);
        lemma_hex_digit_char_is_hex(b as int % 16);
    }
}

/// Computes the digest recorded for a chunk at split time: the lowercase hex
/// form of the chunk's SHA-256 hash.
pub fn chunk_digest(data: &Vec<u8>) -> (r: String)
    ensures
        r@ == chunk_digest_of(data@),
        r@.len() == 64,
        valid_content_hash(r@),
{
    let digest = sha256_digest(data);
    let r = hex_encode(&digest);
    proof {
        lemma_chunk_digest_valid(data@);
    }
    r
}

#[verifier::external_type_specification]
#[verifier::external_body]
pub struct ExDecodeError(base64::DecodeError);

/// What base64 decoding yields for `s`: `Some` decoded bytes when `s` is a
/// well-formed standard-alphabet encoding, `None` otherwise. The result
/// depends on the input characters alone.
pub uninterp spec fn base64_decode_of(s: Seq<char>) -> Option<Seq<u8>>;

/// Relies on base64::decode (standard alphabet): decoding is a deterministic
/// function of the input; it returns the decoded bytes exactly when the
/// input is well-formed.
#[verifier::external_body]
fn base64_decode(s: &str) -> (r: Result<Vec<u8>, base64::DecodeError>)
    ensures
        r is Ok <==> base64_decode_of(s@) is Some,
        r matches Ok(v) ==> base64_decode_of(s@) == Some(v@),
{
    base64::decode(s)
}

/// Decodes a chunk payload that was handed over as a base64 string, as on
/// the local caching path; a malformed payload is a storage error.
pub fn decode_chunk_payload(payload: &str) -> (r: Result<Vec<u8>, CoreError>)
    ensures
        r is Ok <==> base64_decode_of(payload@) is Some,
        r matches Ok(v) ==> base64_decode_of(payload@) == Some(v@),
        r is Err ==> r matches Err(CoreError::Storage { .. }),
{
    match base64_decode(payload) {
        Ok(v) => Ok(v),
        Err(_) => Err(
            CoreError::Storage { cause: String::from_str("malformed base64 chunk payload") },
        ),
    }
}

} // verus!
