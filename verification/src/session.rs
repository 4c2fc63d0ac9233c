//! The session driver's decisions: public-key authentication against the
//! authorized-key snapshot, the service-request gate, and the one-channel
//! rule. The native key exchange and event polling around these decisions
//! are driven by the unverified shell.

use vstd::prelude::*;
use crate::command::chars_eq;

verus! {

/// One record of the authorized-key snapshot: the canonical base64
/// encoding of an Ed25519 public key, and the account that owns it.
#[derive(Clone, Debug)]
pub struct AuthorizedKey {
    pub encoded: String,
    pub owner: String,
}

/// What the peer has presented so far: nothing signed yet, a valid
/// signature, or an invalid one.
pub enum SignatureState {
    NotPresented,
    Valid,
    Invalid,
}

/// The authentication callback's answer. Before a signature is presented
/// the server answers success so the client proceeds to sign; that binds
/// no user.
pub enum AuthDecision {
    ProceedToSign,
    Accept { owner: String },
    Deny,
}

/// The shared login every repository client authenticates as; the real
/// identity comes from the key.
pub open spec fn git_login_chars() -> Seq<char> {
    seq!['g', 'i', 't']
}

pub open spec fn ssh_userauth_chars() -> Seq<char> {
    seq!['s', 's', 'h', '-', 'u', 's', 'e', 'r', 'a', 'u', 't', 'h']
}

/// The index of the first snapshot record whose encoding equals the
/// presented key's, or -1 when none does.
pub open spec fn match_index(keys: Seq<AuthorizedKey>, encoded: Seq<char>) -> int
    decreases keys.len(),
{
    if keys.len() == 0 {
        -1
    } else if keys[0].encoded@ == encoded {
        0
    } else {
        let rest = match_index(keys.drop_first(), encoded);
        if rest == -1 {
            -1
        } else {
            1 + rest
        }
    }
}

/// The match index finds the first record with the exact encoding, and -1
/// exactly when no record has it.
pub proof fn lemma_match_index(keys: Seq<AuthorizedKey>, encoded: Seq<char>)
    ensures
        match_index(keys, encoded) >= 0 ==> {
            &&& match_index(keys, encoded) < keys.len()
            &&& keys[match_index(keys, encoded)].encoded@ == encoded
            &&& forall|j: int|
                0 <= j < match_index(keys, encoded) ==> (#[trigger] keys[j]).encoded@ != encoded
        },
        match_index(keys, encoded) == -1 <==> (forall|j: int|
            0 <= j < keys.len() ==> (#[trigger] keys[j]).encoded@ != encoded),
        match_index(keys, encoded) >= -1,
    decreases keys.len(),
{
    if keys.len() > 0 && keys[0].encoded@ != encoded {
        lemma_match_index(keys.drop_first(), encoded);
        assert forall|j: int| 0 <= j < keys.len() && match_index(keys, encoded) == -1 implies (
        #[trigger] keys[j]).encoded@ != encoded by {
            if j > 0 {
                assert(keys.drop_first()[j - 1].encoded@ != encoded);
            }
        }
        if match_index(keys.drop_first(), encoded) >= 0 {
            assert forall|j: int| 0 <= j < match_index(keys, encoded) implies (
            #[trigger] keys[j]).encoded@ != encoded by {
                if j > 0 {
                    assert(keys.drop_first()[j - 1].encoded@ != encoded);
                }
            }
        }
    }
}

/// The publickey authentication decision. Before a signature is presented,
/// answer success so the client proceeds to sign. With a valid signature,
/// accept exactly when the login is `git`, the key is Ed25519, and the
/// key's canonical encoding appears in the snapshot; the bound user is the
/// owner of the first record matched, by exact string equality.
pub fn authenticate_pubkey(
    username: &str,
    signature: SignatureState,
    key_is_ed25519: bool,
    encoded_key: &str,
    keys: &Vec<AuthorizedKey>,
) -> (r: AuthDecision)
    ensures
        (r is ProceedToSign) <==> (signature is NotPresented),
        (r is Accept) <==> {
            &&& signature is Valid
            &&& username@ == git_login_chars()
            &&& key_is_ed25519
            &&& match_index(keys@, encoded_key@) >= 0
        },
        (r matches AuthDecision::Accept { owner } ==> owner@ == keys@[match_index(
            keys@,
            encoded_key@,
        )].owner@),
{
    match signature {
        SignatureState::NotPresented => AuthDecision::ProceedToSign,
        SignatureState::Invalid => {
            proof {
                lemma_match_index(keys@, encoded_key@);
            }
            AuthDecision::Deny
        },
        SignatureState::Valid => {
            proof {
                reveal_strlit("git");
                assert("git"@ =~= git_login_chars());
            }
            if !chars_eq(username, "git") {
                return AuthDecision::Deny;
            }
            if !key_is_ed25519 {
                return AuthDecision::Deny;
            }
            let mut i: usize = 0;
            while i < keys.len()
                invariant
                    i <= keys@.len(),
                    signature is Valid,
                    username@ == git_login_chars(),
                    key_is_ed25519,
                    forall|j: int| 0 <= j < i ==> (#[trigger] keys@[j]).encoded@ != encoded_key@,
                decreases keys@.len() - i,
            {
                if chars_eq(keys[i].encoded.as_str(), encoded_key) {
                    let owner = keys[i].owner.clone();
                    proof {
                        lemma_match_index(keys@, encoded_key@);
                        lemma_match_index_prefix(keys@, encoded_key@, i as int);
                    }
                    return AuthDecision::Accept { owner };
                }
                i = i + 1;
            }
            proof {
                lemma_match_index(keys@, encoded_key@);
            }
            AuthDecision::Deny
        },
    }
}

/// If nothing before `i` matches and `i` does, then `i` is the match
/// index.
proof fn lemma_match_index_prefix(keys: Seq<AuthorizedKey>, encoded: Seq<char>, i: int)
    requires
        0 <= i < keys.len(),
        keys[i].encoded@ == encoded,
        forall|j: int| 0 <= j < i ==> (#[trigger] keys[j]).encoded@ != encoded,
    ensures
        match_index(keys, encoded) == i,
    decreases keys.len(),
{
    if i > 0 {
        lemma_match_index_prefix(keys.drop_first(), encoded, i - 1);
    }
}

/// Accept only the `ssh-userauth` service; refuse every other service
/// request.
pub fn accept_service_request(service: &str) -> (r: bool)
    ensures
        r == (service@ == ssh_userauth_chars()),
{
    proof {
        reveal_strlit("ssh-userauth");
        assert("ssh-userauth"@ =~= ssh_userauth_chars());
    }
    chars_eq(service, "ssh-userauth")
}

/// The per-connection session state the callbacks decide over: the
/// authorized-key snapshot, the user bound by authentication, and whether
/// the one session channel was already opened.
pub struct SessionState {
    keys: Vec<AuthorizedKey>,
    authenticated: Option<String>,
    channel_opened: bool,
}

impl SessionState {
    pub closed spec fn keys_snapshot(&self) -> Seq<AuthorizedKey> {
        self.keys@
    }

    pub closed spec fn authenticated_user_spec(&self) -> Option<String> {
        self.authenticated
    }

    pub closed spec fn channel_opened(&self) -> bool {
        self.channel_opened
    }

    pub fn new() -> (r: SessionState)
        ensures
            r.keys_snapshot() == Seq::<AuthorizedKey>::empty(),
            r.authenticated_user_spec() is None,
            !r.channel_opened(),
    {
        SessionState { keys: Vec::new(), authenticated: None, channel_opened: false }
    }

    /// Install the authorized-key snapshot taken when the connection was
    /// accepted.
    pub fn allowed_keys(&mut self, keys: Vec<AuthorizedKey>)
        ensures
            final(self).keys_snapshot() == keys@,
            final(self).authenticated_user_spec() == old(self).authenticated_user_spec(),
            final(self).channel_opened() == old(self).channel_opened(),
    {
        self.keys = keys;
    }

    /// The user bound by a successful public-key authentication, if any.
    pub fn authenticated_user(&self) -> (r: Option<&String>)
        ensures
            (match r {
                Some(u) => self.authenticated_user_spec() == Some(*u),
                None => self.authenticated_user_spec() is None,
            }),
    {
        self.authenticated.as_ref()
    }

    /// The publickey callback: decide, and on acceptance bind the matched
    /// record's owner as the session's authenticated user.
    pub fn on_auth_pubkey(
        &mut self,
        username: &str,
        signature: SignatureState,
        key_is_ed25519: bool,
        encoded_key: &str,
    ) -> (r: AuthDecision)
        ensures
            (r is ProceedToSign) <==> (signature is NotPresented),
            (r is Accept) <==> {
                &&& signature is Valid
                &&& username@ == git_login_chars()
                &&& key_is_ed25519
                &&& match_index(old(self).keys_snapshot(), encoded_key@) >= 0
            },
            (r matches AuthDecision::Accept { owner } ==> {
                &&& owner@ == old(self).keys_snapshot()[match_index(
                    old(self).keys_snapshot(),
                    encoded_key@,
                )].owner@
                &&& final(self).authenticated_user_spec() == Some(owner)
            }),
            !(r is Accept) ==> final(self).authenticated_user_spec() == old(
                self,
            ).authenticated_user_spec(),
            final(self).keys_snapshot() == old(self).keys_snapshot(),
            final(self).channel_opened() == old(self).channel_opened(),
    {
        let decision = authenticate_pubkey(username, signature, key_is_ed25519, encoded_key, &self.keys);
        match decision {
            AuthDecision::Accept { owner } => {
                self.authenticated = Some(owner.clone());
                AuthDecision::Accept { owner }
            },
            other => other,
        }
    }

    /// The channel-open callback: accept exactly one session channel and
    /// refuse later openings.
    pub fn on_channel_open(&mut self) -> (accepted: bool)
        ensures
            accepted == !old(self).channel_opened(),
            final(self).channel_opened(),
            final(self).keys_snapshot() == old(self).keys_snapshot(),
            final(self).authenticated_user_spec() == old(self).authenticated_user_spec(),
    {
        if self.channel_opened {
            false
        } else {
            self.channel_opened = true;
            true
        }
    }
}

} // verus!
