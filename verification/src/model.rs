//! Account, paste and token records, and the pure parts of the model
//! layer: password hashing and token minting. The database calls around
//! them live in the unverified shell.

use vstd::prelude::*;
use vstd::string::StringSliceAdditionalSpecFns;
use crate::bindings::{b64std_of, b64url_of, base64_standard, base64_url_nopad, random_bytes,
    sha256, sha256_of};

verus! {

#[derive(Clone, Copy, Debug)]
pub struct UserId(pub i32);

#[derive(Clone, Debug)]
pub struct User {
    pub id: UserId,
    pub username: String,
    pub password_hash: String,
}

pub struct Paste {
    pub id: String,
    pub visibility: Visibility,
}

pub enum Visibility {
    Public,
    Unlisted,
    Private,
}

pub struct File {
    pub paste_id: i32,
    pub filename: String,
    pub content: String,
}

/// A minted LFS bearer token; `expires_unix` is Unix seconds.
#[derive(Clone, Debug)]
pub struct LfsToken {
    pub token: String,
    pub user_id: UserId,
    pub expires_unix: i64,
}

#[derive(Clone, Debug)]
pub struct LfsTokenWithUser {
    pub token: String,
    pub user_id: UserId,
    pub username: String,
    pub expires_unix: i64,
}

/// A web session record; `expires_unix` is Unix seconds.
#[derive(Clone, Debug)]
pub struct Session {
    pub token: String,
    pub user_id: UserId,
    pub expires_unix: i64,
}

/// The stored form of a password: the standard base64 encoding of its
/// SHA-256 digest.
pub fn hash_password(password: &str) -> (r: String)
    ensures
        r@ == b64std_of(sha256_of(password.spec_bytes())),
{
    let digest = sha256(password.as_bytes());
    base64_standard(digest.as_slice())
}

/// Mint an LFS bearer token: the unpadded URL-safe base64 encoding of 32
/// fresh random bytes, which is 43 characters long.
pub fn mint_lfs_token() -> (r: String)
    ensures
        exists|b: Seq<u8>| b.len() == 32 && r@ == b64url_of(b),
        r@.len() == 43,
{
    let buf = random_bytes(32);
    base64_url_nopad(buf.as_slice())
}

/// Mint a web session token: the standard base64 encoding of 16 fresh
/// random bytes, which is 24 characters long.
pub fn mint_session_token() -> (r: String)
    ensures
        exists|b: Seq<u8>| b.len() == 16 && r@ == b64std_of(b),
        r@.len() == 24,
{
    let buf = random_bytes(16);
    base64_standard(buf.as_slice())
}

/// A fresh candidate for a unique short identifier: the unpadded URL-safe
/// base64 encoding of `bytes` fresh random bytes. The caller retries with
/// a new candidate while the store reports a collision.
pub fn unique_candidate(bytes: usize) -> (r: String)
    ensures
        exists|b: Seq<u8>| b.len() == bytes@ && r@ == b64url_of(b),
        r@.len() == 4 * (bytes as int / 3) + (if bytes as int % 3 == 0 {
            0int
        } else {
            bytes as int % 3 + 1
        }),
{
    let buf = random_bytes(bytes);
    base64_url_nopad(buf.as_slice())
}

/// When a freshly minted token expires: the current time plus the TTL,
/// capped at the largest representable instant.
pub fn token_expiry(now: i64, ttl_secs: i64) -> (r: i64)
    requires
        ttl_secs >= 0,
    ensures
        r == if now + ttl_secs <= i64::MAX {
            now + ttl_secs
        } else {
            i64::MAX as int
        },
{
    if now <= i64::MAX - ttl_secs {
        now + ttl_secs
    } else {
        i64::MAX
    }
}

} // verus!
