//! Trusted bindings to the outside crates this library computes with.
//! Each function's contract states what the outside call is documented to
//! return; the callers' own contracts are proved from these.

use vstd::prelude::*;
use base64::Engine;
use rand::RngCore;
use sha2::Digest;

verus! {

/// The URL-safe, unpadded base64 encoding of a byte sequence, as the
/// `base64` crate's `URL_SAFE_NO_PAD` engine produces it.
pub uninterp spec fn b64url_of(bytes: Seq<u8>) -> Seq<char>;

/// The standard, padded base64 encoding of a byte sequence, as the
/// `base64` crate's `STANDARD` engine produces it.
pub uninterp spec fn b64std_of(bytes: Seq<u8>) -> Seq<char>;

/// The SHA-256 digest of a byte sequence, as the `sha2` crate computes it.
pub uninterp spec fn sha256_of(bytes: Seq<u8>) -> Seq<u8>;

/// Relies on `base64::Engine::encode` with the `URL_SAFE_NO_PAD` engine:
/// the encoding is a function of the input bytes alone, and without
/// padding its length is `4 * (n / 3)` plus 2 or 3 for a one- or two-byte
/// remainder.
#[verifier::external_body]
pub fn base64_url_nopad(bytes: &[u8]) -> (r: String)
    ensures
        r@ == b64url_of(bytes@),
        r@.len() == 4 * (bytes@.len() / 3) + (if bytes@.len() % 3 == 0 {
            0int
        } else {
            (bytes@.len() % 3 + 1) as int
        }),
{
    base64::engine::general_purpose::URL_SAFE_NO_PAD.encode(bytes)
}

/// Relies on `base64::Engine::encode` with the `STANDARD` engine: the
/// encoding is a function of the input bytes alone, padded to a multiple
/// of four characters.
#[verifier::external_body]
pub fn base64_standard(bytes: &[u8]) -> (r: String)
    ensures
        r@ == b64std_of(bytes@),
        r@.len() == 4 * ((bytes@.len() + 2) / 3),
{
    base64::engine::general_purpose::STANDARD.encode(bytes)
}

/// Relies on `sha2::Sha256::digest`: a 32-byte digest, a function of the
/// input alone.
#[verifier::external_body]
pub fn sha256(bytes: &[u8]) -> (r: Vec<u8>)
    ensures
        r@ == sha256_of(bytes@),
        r@.len() == 32,
{
    sha2::Sha256::digest(bytes).to_vec()
}

/// Relies on `rand::thread_rng` and `RngCore::fill_bytes`: the buffer is
/// filled; nothing is promised of the values.
#[verifier::external_body]
pub fn random_bytes(n: usize) -> (r: Vec<u8>)
    ensures
        r@.len() == n,
{
    let mut buf = vec![0u8; n];
    rand::thread_rng().fill_bytes(&mut buf);
    buf
}

/// Relies on `time::OffsetDateTime::now_utc` and `unix_timestamp`: the
/// machine's current time as Unix seconds; nothing is promised of the
/// value.
#[verifier::external_body]
pub fn now_unix() -> (r: i64) {
    time::OffsetDateTime::now_utc().unix_timestamp()
}

/// Relies on `String::from_utf8`: bytes below 128 are valid UTF-8 and
/// decode to one character per byte.
#[verifier::external_body]
pub fn string_from_ascii(bytes: Vec<u8>) -> (r: String)
    requires
        forall|i: int| 0 <= i < bytes@.len() ==> bytes@[i] < 128,
    ensures
        r@ == bytes@.map(|i: int, b: u8| b as char),
{
    String::from_utf8(bytes).unwrap()
}

} // verus!
