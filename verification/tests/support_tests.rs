use conduit::bindings::{base64_standard, base64_url_nopad, now_unix, sha256, string_from_ascii};
use conduit::db::{should_retry, Backoff};
use conduit::error::{classify_return_code, poll_flags_to_interests, poll_flags_to_ready, AppError,
    IoInterest, LibsshError, SshStatus};
use conduit::metrics;
use conduit::model::{hash_password, mint_lfs_token, mint_session_token, token_expiry,
    unique_candidate};
use conduit::validate::ValidationError;

#[test]
fn backoff_steps_then_gives_up() {
    let mut b = Backoff::new();
    assert_eq!(b.next_delay(), Some(10));
    assert_eq!(b.next_delay(), Some(30));
    assert_eq!(b.next_delay(), Some(90));
    assert_eq!(b.next_delay(), Some(270));
    assert_eq!(b.next_delay(), Some(810));
    assert_eq!(b.next_delay(), None);
    assert_eq!(b.next_delay(), None);
}

#[test]
fn retryable_sqlstate_codes() {
    assert!(should_retry("40001"));
    assert!(should_retry("40P01"));
    assert!(should_retry("23505"));
    assert!(should_retry("23P01"));
    assert!(!should_retry("23503"));
    assert!(!should_retry(""));
    assert!(!should_retry("40001 "));
}

#[test]
fn return_codes_classify() {
    assert!(matches!(classify_return_code(0), SshStatus::Done));
    assert!(matches!(classify_return_code(-2), SshStatus::WouldBlock));
    assert!(matches!(classify_return_code(-1), SshStatus::ProtocolError));
}

#[test]
fn poll_flags_map_to_interests() {
    assert!(matches!(poll_flags_to_interests(2), IoInterest::Readable));
    assert!(matches!(poll_flags_to_interests(8), IoInterest::Writable));
    assert!(matches!(poll_flags_to_interests(10), IoInterest::Both));
    assert!(matches!(poll_flags_to_ready(2), IoInterest::Readable));
    assert!(matches!(poll_flags_to_ready(8), IoInterest::Writable));
    assert!(matches!(poll_flags_to_ready(10), IoInterest::Both));
}

#[test]
fn errors_carry_their_messages() {
    let e = LibsshError::new(String::from("kex failed"));
    assert_eq!(e.message(), "kex failed");
    let a = AppError::Internal(String::from("boom"));
    assert_eq!(a.message(), "boom");
    assert_eq!(ValidationError.message(), "validation error");
}

#[test]
fn metrics_start_zeroed_and_count() {
    let mut m = metrics::get();
    assert_eq!(m.connections_accepted, 0);
    assert_eq!(m.auth_denied, 0);
    assert_eq!(m.sessions_closed, 0);
    assert_eq!(m.lfs_tokens_minted, 0);
    m.record_connection();
    m.record_connection();
    m.record_auth_denied();
    m.record_session_closed();
    m.record_lfs_token_minted();
    assert_eq!(m.connections_accepted, 2);
    assert_eq!(m.auth_denied, 1);
    assert_eq!(m.sessions_closed, 1);
    assert_eq!(m.lfs_tokens_minted, 1);
}

#[test]
fn password_hash_is_base64_of_sha256() {
    // SHA-256 of the empty string, standard base64
    assert_eq!(hash_password(""), "47DEQpj8HBSa+/TImW+5JCeuQeRkm5NMpJWZG3hSuFU=");
    // SHA-256 of "abc"
    assert_eq!(hash_password("abc"), "ungWv48Bz+pBQUDeXa4iI7ADYaOWF3qctBD/YfIAFa0=");
}

#[test]
fn sha256_digest_of_abc() {
    let d = sha256(b"abc");
    let expected: Vec<u8> = vec![
        0xba, 0x78, 0x16, 0xbf, 0x8f, 0x01, 0xcf, 0xea, 0x41, 0x41, 0x40, 0xde, 0x5d, 0xae,
        0x22, 0x23, 0xb0, 0x03, 0x61, 0xa3, 0x96, 0x17, 0x7a, 0x9c, 0xb4, 0x10, 0xff, 0x61,
        0xf2, 0x00, 0x15, 0xad,
    ];
    assert_eq!(d, expected);
}

#[test]
fn base64_engines_encode() {
    assert_eq!(base64_url_nopad(&[1, 2, 3]), "AQID");
    assert_eq!(base64_url_nopad(&[251, 255]), "-_8");
    assert_eq!(base64_url_nopad(&[]), "");
    assert_eq!(base64_standard(&[251, 239]), "++8=");
    assert_eq!(base64_standard(&[]), "");
}

#[test]
fn ascii_bytes_become_a_string() {
    assert_eq!(string_from_ascii(b"hello".to_vec()), "hello");
    assert_eq!(string_from_ascii(Vec::new()), "");
}

#[test]
fn minted_tokens_have_the_encoded_length() {
    // 32 random bytes, URL-safe unpadded: 43 characters
    assert_eq!(mint_lfs_token().len(), 43);
    // 16 random bytes, standard padded: 24 characters
    assert_eq!(mint_session_token().len(), 24);
    // 4 random bytes, URL-safe unpadded: 6 characters
    assert_eq!(unique_candidate(4).len(), 6);
}

#[test]
fn minted_tokens_differ() {
    assert_ne!(mint_lfs_token(), mint_lfs_token());
}

#[test]
fn expiry_adds_ttl_and_saturates() {
    assert_eq!(token_expiry(1000, 86400), 87400);
    assert_eq!(token_expiry(i64::MAX - 5, 10), i64::MAX);
    assert_eq!(token_expiry(i64::MAX, 0), i64::MAX);
}

#[test]
fn clock_reads_a_plausible_time() {
    // after 2020-01-01 and monotone enough to be a real clock
    assert!(now_unix() > 1_577_836_800);
}
