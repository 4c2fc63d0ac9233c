use conduit::session::{
    accept_service_request, authenticate_pubkey, AuthDecision, AuthorizedKey, SessionState,
    SignatureState,
};

fn snapshot() -> Vec<AuthorizedKey> {
    vec![
        AuthorizedKey { encoded: String::from("AAAAC3NzaC1lZDI1NTE5AAAAIFIRST"), owner: String::from("alice") },
        AuthorizedKey { encoded: String::from("AAAAC3NzaC1lZDI1NTE5AAAAISECOND"), owner: String::from("bob") },
    ]
}

#[test]
fn proceeds_before_signature() {
    let keys = snapshot();
    let d = authenticate_pubkey(
        "git",
        SignatureState::NotPresented,
        true,
        "AAAAC3NzaC1lZDI1NTE5AAAAIFIRST",
        &keys,
    );
    assert!(matches!(d, AuthDecision::ProceedToSign));
}

#[test]
fn accepts_known_key_and_binds_owner() {
    let keys = snapshot();
    let d = authenticate_pubkey(
        "git",
        SignatureState::Valid,
        true,
        "AAAAC3NzaC1lZDI1NTE5AAAAISECOND",
        &keys,
    );
    match d {
        AuthDecision::Accept { owner } => assert_eq!(owner, "bob"),
        _ => panic!("expected acceptance"),
    }
}

#[test]
fn denies_wrong_login() {
    let keys = snapshot();
    let d = authenticate_pubkey(
        "alice",
        SignatureState::Valid,
        true,
        "AAAAC3NzaC1lZDI1NTE5AAAAIFIRST",
        &keys,
    );
    assert!(matches!(d, AuthDecision::Deny));
}

#[test]
fn denies_non_ed25519_key() {
    let keys = snapshot();
    let d = authenticate_pubkey(
        "git",
        SignatureState::Valid,
        false,
        "AAAAC3NzaC1lZDI1NTE5AAAAIFIRST",
        &keys,
    );
    assert!(matches!(d, AuthDecision::Deny));
}

#[test]
fn denies_unknown_key() {
    let keys = snapshot();
    let d = authenticate_pubkey("git", SignatureState::Valid, true, "AAAAC3UNKNOWN", &keys);
    assert!(matches!(d, AuthDecision::Deny));
}

#[test]
fn denies_invalid_signature() {
    let keys = snapshot();
    let d = authenticate_pubkey(
        "git",
        SignatureState::Invalid,
        true,
        "AAAAC3NzaC1lZDI1NTE5AAAAIFIRST",
        &keys,
    );
    assert!(matches!(d, AuthDecision::Deny));
}

#[test]
fn key_match_is_exact_string_equality() {
    let keys = snapshot();
    // a prefix of a known encoding is not a match
    let d = authenticate_pubkey(
        "git",
        SignatureState::Valid,
        true,
        "AAAAC3NzaC1lZDI1NTE5AAAAIFIRS",
        &keys,
    );
    assert!(matches!(d, AuthDecision::Deny));
}

#[test]
fn session_records_authenticated_user() {
    let mut s = SessionState::new();
    s.allowed_keys(snapshot());
    assert!(s.authenticated_user().is_none());
    let d = s.on_auth_pubkey(
        "git",
        SignatureState::Valid,
        true,
        "AAAAC3NzaC1lZDI1NTE5AAAAIFIRST",
    );
    assert!(matches!(d, AuthDecision::Accept { .. }));
    assert_eq!(s.authenticated_user().unwrap(), "alice");
}

#[test]
fn session_keeps_no_user_after_denial() {
    let mut s = SessionState::new();
    s.allowed_keys(snapshot());
    let d = s.on_auth_pubkey("git", SignatureState::Valid, true, "nope");
    assert!(matches!(d, AuthDecision::Deny));
    assert!(s.authenticated_user().is_none());
}

#[test]
fn only_one_channel_is_accepted() {
    let mut s = SessionState::new();
    assert!(s.on_channel_open());
    assert!(!s.on_channel_open());
    assert!(!s.on_channel_open());
}

#[test]
fn only_userauth_service_is_accepted() {
    assert!(accept_service_request("ssh-userauth"));
    assert!(!accept_service_request("ssh-connection"));
    assert!(!accept_service_request(""));
}
