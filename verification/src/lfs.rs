//! Git-LFS authentication over SSH: the access decision, the minted-token
//! response, and the paths and hrefs the front-end hands out.

use vstd::prelude::*;
use crate::command::{check_repo, check_user, valid_repo, valid_user};
use crate::config::Config;

verus! {

/// The token's lifetime: 24 hours, in seconds.
pub const LFS_TOKEN_TTL_SECS: i64 = 86400;

/// A user name and repository name are usable exactly when both fit the
/// command grammar's alphabets.
pub fn valid_user_repo(user: &str, repo: &str) -> (r: bool)
    ensures
        r == (valid_user(user@) && valid_repo(repo@)),
{
    check_user(user) && check_repo(repo)
}

pub open spec fn is_hex_digit(c: char) -> bool {
    ('0' <= c && c <= '9') || ('a' <= c && c <= 'f') || ('A' <= c && c <= 'F')
}

/// Hex digits fold to lower case; everything else keeps its character.
pub open spec fn to_lower_hex(c: char) -> char {
    if c == 'A' {
        'a'
    } else if c == 'B' {
        'b'
    } else if c == 'C' {
        'c'
    } else if c == 'D' {
        'd'
    } else if c == 'E' {
        'e'
    } else if c == 'F' {
        'f'
    } else {
        c
    }
}

/// An object id is 64 hex digits; its normal form is lower case. Anything
/// else is refused.
pub fn normalize_oid(oid: &str) -> (r: Option<String>)
    ensures
        (r is Some) <==> (oid@.len() == 64 && (forall|i: int|
            0 <= i < oid@.len() ==> is_hex_digit(#[trigger] oid@[i]))),
        (r matches Some(s) ==> s@ == Seq::new(oid@.len(), |i: int| to_lower_hex(oid@[i]))),
{
    let n = oid.unicode_len();
    if n != 64 {
        return None;
    }
    let mut out: Vec<u8> = Vec::new();
    let mut i: usize = 0;
    while i < n
        invariant
            n == oid@.len(),
            n == 64,
            i <= n,
            out@.len() == i,
            forall|j: int| 0 <= j < i ==> is_hex_digit(#[trigger] oid@[j]),
            forall|j: int| 0 <= j < i ==> #[trigger] out@[j] < 128,
            forall|j: int| 0 <= j < i ==> #[trigger] out@[j] as char == to_lower_hex(oid@[j]),
        decreases n - i,
    {
        let c = oid.get_char(i);
        let v = c as u32;
        let lower: u32 = if 65 <= v && v <= 70 {
            // fold 'A'..'F' onto 'a'..'f'
            v + 32
        } else if (48 <= v && v <= 57) || (97 <= v && v <= 102) {
            v
        } else {
            return None;
        };
        out.push(lower as u8);
        i = i + 1;
    }
    let s = crate::bindings::string_from_ascii(out);
    proof {
        assert(s@ =~= Seq::new(oid@.len(), |i: int| to_lower_hex(oid@[i])));
    }
    Some(s)
}

/// Where a repository's Git helper runs: `<repository_path>/<user>/<repo>`.
pub fn repo_path(config: &Config, user: &str, repo: &str) -> (r: String)
    ensures
        r@ == config.git.repository_path@ + "/"@ + user@ + "/"@ + repo@,
{
    let mut out = config.git.repository_path.clone();
    out.append("/");
    out.append(user);
    out.append("/");
    out.append(repo);
    out
}

/// The href a client calls back for one LFS object.
pub fn lfs_object_href(public_url: &str, user: &str, repo: &str, oid: &str) -> (r: String)
    ensures
        r@ == public_url@ + "/~"@ + user@ + "/"@ + repo@ + "/info/lfs/objects/"@ + oid@,
{
    let mut out = public_url.to_owned();
    out.append("/~");
    out.append(user);
    out.append("/");
    out.append(repo);
    out.append("/info/lfs/objects/");
    out.append(oid);
    out
}

/// The href a client calls to verify an uploaded LFS object.
pub fn lfs_verify_href(public_url: &str, user: &str, repo: &str) -> (r: String)
    ensures
        r@ == public_url@ + "/~"@ + user@ + "/"@ + repo@ + "/info/lfs/objects/verify"@,
{
    let mut out = public_url.to_owned();
    out.append("/~");
    out.append(user);
    out.append("/");
    out.append(repo);
    out.append("/info/lfs/objects/verify");
    out
}

/// Where one LFS object is stored: the repository's object root, fanned
/// out by the oid's first two byte pairs.
pub fn lfs_object_path(config: &Config, user: &str, repo: &str, oid: &str) -> (r: String)
    requires
        oid@.len() >= 4,
    ensures
        r@ == config.git.lfs_path@ + "/"@ + user@ + "/"@ + repo@ + "/objects/"@ + oid@.subrange(
            0,
            2,
        ) + "/"@ + oid@.subrange(2, 4) + "/"@ + oid@,
{
    let mut out = config.git.lfs_path.clone();
    out.append("/");
    out.append(user);
    out.append("/");
    out.append(repo);
    out.append("/objects/");
    out.append(oid.substring_char(0, 2));
    out.append("/");
    out.append(oid.substring_char(2, 4));
    out.append("/");
    out.append(oid);
    out
}

/// Why an LFS authentication request is refused.
pub enum LfsAuthError {
    /// The session never authenticated.
    NotAuthenticated,
    /// The authenticated user does not own the requested repository.
    AccessDenied,
    /// The authenticated user has no account record.
    UserNotFound,
    /// The store failed; no detail crosses the wire.
    Backend,
}

/// Whether the session may mint a token for this repository owner: only
/// an authenticated session, and only for its own namespace.
pub fn lfs_access_check(authenticated: Option<&String>, user: &str) -> (r: Result<
    (),
    LfsAuthError,
>)
    ensures
        (r matches Err(e) && e is NotAuthenticated) <==> authenticated is None,
        (r matches Err(e) && e is AccessDenied) <==> (authenticated matches Some(a) && a@
            != user@),
        (r is Ok) <==> (authenticated matches Some(a) && a@ == user@),
{
    match authenticated {
        None => Err(LfsAuthError::NotAuthenticated),
        Some(a) => {
            if crate::command::chars_eq(a.as_str(), user) {
                Ok(())
            } else {
                Err(LfsAuthError::AccessDenied)
            }
        },
    }
}

/// What the user store reported for the repository owner: an account id,
/// or the refusal a missing account earns.
pub fn lfs_resolve_user(user_id: Option<crate::model::UserId>) -> (r: Result<
    crate::model::UserId,
    LfsAuthError,
>)
    ensures
        (match user_id {
            Some(id) => r == Ok::<crate::model::UserId, LfsAuthError>(id),
            None => r matches Err(e) && e is UserNotFound,
        }),
{
    match user_id {
        Some(id) => Ok(id),
        None => Err(LfsAuthError::UserNotFound),
    }
}

/// The one-line stderr reply for each refusal, delivered with exit
/// status 1.
pub fn lfs_error_message(e: &LfsAuthError) -> (r: String)
    ensures
        r@ == (match e {
            LfsAuthError::NotAuthenticated => "authentication failed\n"@,
            LfsAuthError::AccessDenied => "repository access denied\n"@,
            LfsAuthError::UserNotFound => "user not found\n"@,
            LfsAuthError::Backend => "internal error\n"@,
        }),
{
    match e {
        LfsAuthError::NotAuthenticated => "authentication failed\n".to_owned(),
        LfsAuthError::AccessDenied => "repository access denied\n".to_owned(),
        LfsAuthError::UserNotFound => "user not found\n".to_owned(),
        LfsAuthError::Backend => "internal error\n".to_owned(),
    }
}

/// The JSON blob a successful request receives on stdout, newline
/// terminated: the repository's LFS href, the bearer header, and the
/// token's lifetime in seconds.
pub open spec fn lfs_response_chars(
    public_url: Seq<char>,
    user: Seq<char>,
    repo: Seq<char>,
    token: Seq<char>,
) -> Seq<char> {
    "{\"href\":\""@ + public_url + "/~"@ + user + "/"@ + repo
        + "/info/lfs\",\"header\":{\"Authorization\":\"RemoteAuth "@ + token
        + "\"},\"expires_in\":86400}\n"@
}

pub fn lfs_auth_response(public_url: &str, user: &str, repo: &str, token: &str) -> (r: String)
    ensures
        r@ == lfs_response_chars(public_url@, user@, repo@, token@),
{
    let mut out = "{\"href\":\"".to_owned();
    out.append(public_url);
    out.append("/~");
    out.append(user);
    out.append("/");
    out.append(repo);
    out.append("/info/lfs\",\"header\":{\"Authorization\":\"RemoteAuth ");
    out.append(token);
    out.append("\"},\"expires_in\":86400}\n");
    out
}

} // verus!
