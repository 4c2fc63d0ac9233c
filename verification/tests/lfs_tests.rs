use conduit::config::{Config, Database, GitConfig, HttpConfig, SshConfig};
use conduit::lfs::{
    lfs_access_check, lfs_auth_response, lfs_error_message, lfs_object_href, lfs_object_path,
    lfs_resolve_user, lfs_verify_href, normalize_oid, repo_path, valid_user_repo, LfsAuthError,
    LFS_TOKEN_TTL_SECS,
};
use conduit::model::UserId;

fn test_config() -> Config {
    Config {
        database: Database {
            host: String::from("localhost"),
            port: 5432,
            user: String::from("conduit"),
            password: String::from("dbpass"),
            database: String::from("conduit"),
        },
        git: GitConfig {
            repository_path: String::from("/srv/git"),
            lfs_path: String::from("/srv/lfs"),
        },
        http: HttpConfig {
            host: String::from("127.0.0.1"),
            port: 8080,
            public_url: String::from("https://example.com"),
        },
        ssh: SshConfig {
            host: String::from("0.0.0.0"),
            port: 2222,
            host_key: String::from("/etc/conduit/host_key"),
        },
    }
}

#[test]
fn user_repo_validation() {
    assert!(valid_user_repo("alice", "repo.git"));
    assert!(valid_user_repo("A1b2", "a.b-c.git"));
    assert!(!valid_user_repo("", "repo.git"));
    assert!(!valid_user_repo("al_ice", "repo.git"));
    assert!(!valid_user_repo("alice", "repo"));
    assert!(!valid_user_repo("alice", ".git"));
    assert!(!valid_user_repo("alice", "re/po.git"));
}

#[test]
fn oid_normalizes_to_lower_case() {
    let oid = "ABCDEF0123456789abcdef0123456789ABCDEF0123456789abcdef0123456789";
    let normalized = normalize_oid(oid).unwrap();
    assert_eq!(
        normalized,
        "abcdef0123456789abcdef0123456789abcdef0123456789abcdef0123456789"
    );
}

#[test]
fn oid_already_lower_is_kept() {
    let oid = "aaaaaaaaaaaaaaaaaaaaaaaaaaaaaaaaaaaaaaaaaaaaaaaaaaaaaaaaaaaaaaaa";
    assert_eq!(normalize_oid(oid).unwrap(), oid);
}

#[test]
fn oid_rejects_bad_input() {
    assert!(normalize_oid("abc").is_none());
    assert!(normalize_oid("").is_none());
    let not_hex = "zzzzzzzzzzzzzzzzzzzzzzzzzzzzzzzzzzzzzzzzzzzzzzzzzzzzzzzzzzzzzzzz";
    assert!(normalize_oid(not_hex).is_none());
    let too_long = "aaaaaaaaaaaaaaaaaaaaaaaaaaaaaaaaaaaaaaaaaaaaaaaaaaaaaaaaaaaaaaaaa";
    assert!(normalize_oid(too_long).is_none());
}

#[test]
fn repository_directory_layout() {
    let config = test_config();
    assert_eq!(repo_path(&config, "alice", "repo.git"), "/srv/git/alice/repo.git");
}

#[test]
fn object_and_verify_hrefs() {
    let oid = "abcdef0123456789abcdef0123456789abcdef0123456789abcdef0123456789";
    assert_eq!(
        lfs_object_href("https://example.com", "alice", "repo.git", oid),
        format!("https://example.com/~alice/repo.git/info/lfs/objects/{}", oid)
    );
    assert_eq!(
        lfs_verify_href("https://example.com", "alice", "repo.git"),
        "https://example.com/~alice/repo.git/info/lfs/objects/verify"
    );
}

#[test]
fn object_path_fans_out_by_oid() {
    let config = test_config();
    let oid = "abcdef0123456789abcdef0123456789abcdef0123456789abcdef0123456789";
    assert_eq!(
        lfs_object_path(&config, "alice", "repo.git", oid),
        format!("/srv/lfs/alice/repo.git/objects/ab/cd/{}", oid)
    );
}

#[test]
fn access_check_cases() {
    let alice = String::from("alice");
    assert!(lfs_access_check(Some(&alice), "alice").is_ok());
    assert!(matches!(
        lfs_access_check(None, "alice"),
        Err(LfsAuthError::NotAuthenticated)
    ));
    assert!(matches!(
        lfs_access_check(Some(&alice), "bob"),
        Err(LfsAuthError::AccessDenied)
    ));
}

#[test]
fn user_resolution_maps_misses() {
    assert!(matches!(lfs_resolve_user(None), Err(LfsAuthError::UserNotFound)));
    match lfs_resolve_user(Some(UserId(7))) {
        Ok(UserId(id)) => assert_eq!(id, 7),
        _ => panic!("expected the account id back"),
    }
}

#[test]
fn error_messages_are_fixed_lines() {
    assert_eq!(lfs_error_message(&LfsAuthError::NotAuthenticated), "authentication failed\n");
    assert_eq!(lfs_error_message(&LfsAuthError::AccessDenied), "repository access denied\n");
    assert_eq!(lfs_error_message(&LfsAuthError::UserNotFound), "user not found\n");
    assert_eq!(lfs_error_message(&LfsAuthError::Backend), "internal error\n");
}

#[test]
fn response_json_is_exact() {
    let json = lfs_auth_response("https://example.com", "alice", "repo.git", "TOK123");
    let expected = "{\"href\":\"https://example.com/~alice/repo.git/info/lfs\",\"header\":{\"Authorization\":\"RemoteAuth TOK123\"},\"expires_in\":86400}\n";
    assert_eq!(json, expected);
    assert!(json.ends_with('\n'));
}

#[test]
fn ttl_is_a_day() {
    assert_eq!(LFS_TOKEN_TTL_SECS, 86400);
}
