use conduit::command::{parse_command, render_git_command, Command, CommandError, LfsOperation};

fn expect_git(cmd: &str, bin: &str, user: &str, repo: &str) {
    match parse_command(cmd) {
        Ok(Command::Git { bin: b, user: u, repo: r }) => {
            assert_eq!(b, bin);
            assert_eq!(u, user);
            assert_eq!(r, repo);
        },
        _ => panic!("expected a Git command for {:?}", cmd),
    }
}

fn expect_lfs(cmd: &str, user: &str, repo: &str, download: bool) {
    match parse_command(cmd) {
        Ok(Command::LfsAuth { user: u, repo: r, operation }) => {
            assert_eq!(u, user);
            assert_eq!(r, repo);
            match operation {
                LfsOperation::Download => assert!(download),
                LfsOperation::Upload => assert!(!download),
            }
        },
        _ => panic!("expected an LFS command for {:?}", cmd),
    }
}

fn expect_invalid(cmd: &str) {
    assert!(matches!(parse_command(cmd), Err(CommandError::InvalidCommand)), "{:?}", cmd);
}

fn expect_unsupported(cmd: &str) {
    assert!(matches!(parse_command(cmd), Err(CommandError::UnsupportedCommand)), "{:?}", cmd);
}

#[test]
fn parses_upload_pack_with_slash() {
    expect_git("git-upload-pack '/~alice/repo.git'", "git-upload-pack", "alice", "repo.git");
}

#[test]
fn parses_upload_pack_without_slash() {
    expect_git("git-upload-pack '~alice/repo.git'", "git-upload-pack", "alice", "repo.git");
}

#[test]
fn parses_receive_pack() {
    expect_git("git-receive-pack '/~bob42/my-project.git'", "git-receive-pack", "bob42", "my-project.git");
}

#[test]
fn parses_repo_with_dots_and_dashes() {
    expect_git(
        "git-upload-pack '/~carol/a.b-c.git'",
        "git-upload-pack",
        "carol",
        "a.b-c.git",
    );
}

#[test]
fn parses_lfs_quoted_download() {
    expect_lfs("git-lfs-authenticate '/~alice/repo.git' download", "alice", "repo.git", true);
}

#[test]
fn parses_lfs_quoted_no_slash_upload() {
    expect_lfs("git-lfs-authenticate '~alice/repo.git' upload", "alice", "repo.git", false);
}

#[test]
fn parses_lfs_unquoted_download() {
    expect_lfs("git-lfs-authenticate /~alice/repo.git download", "alice", "repo.git", true);
}

#[test]
fn parses_lfs_unquoted_no_slash_upload() {
    expect_lfs("git-lfs-authenticate ~alice/repo.git upload", "alice", "repo.git", false);
}

#[test]
fn rejects_unknown_binary() {
    expect_unsupported("ls");
    expect_unsupported("rm -rf /");
    expect_unsupported("");
    expect_unsupported("git-upload-packs '/~a/b.git'");
}

#[test]
fn rejects_git_without_quotes() {
    expect_invalid("git-upload-pack /~alice/repo.git");
}

#[test]
fn rejects_git_without_argument() {
    expect_invalid("git-upload-pack");
    expect_invalid("git-upload-pack ");
}

#[test]
fn rejects_missing_git_suffix() {
    expect_invalid("git-upload-pack '/~alice/repo'");
}

#[test]
fn rejects_empty_user() {
    expect_invalid("git-upload-pack '/~/repo.git'");
}

#[test]
fn rejects_user_with_bad_character() {
    expect_invalid("git-upload-pack '/~al_ice/repo.git'");
    expect_invalid("git-upload-pack '/~a!b/repo.git'");
}

#[test]
fn rejects_repo_with_extra_slash() {
    expect_invalid("git-upload-pack '/~alice/dir/repo.git'");
}

#[test]
fn rejects_missing_tilde() {
    expect_invalid("git-upload-pack '/alice/repo.git'");
}

#[test]
fn rejects_lfs_bad_operation() {
    expect_invalid("git-lfs-authenticate '/~alice/repo.git' fetch");
    expect_invalid("git-lfs-authenticate '/~alice/repo.git'");
}

#[test]
fn rejects_lfs_unbalanced_quote() {
    expect_invalid("git-lfs-authenticate '/~alice/repo.git download");
}

#[test]
fn round_trip_upload_pack() {
    let rendered = render_git_command("git-upload-pack", "alice", "repo.git");
    assert_eq!(rendered, "git-upload-pack '/~alice/repo.git'");
    expect_git(&rendered, "git-upload-pack", "alice", "repo.git");
}

#[test]
fn round_trip_receive_pack() {
    let rendered = render_git_command("git-receive-pack", "bob", "b-2.x.git");
    expect_git(&rendered, "git-receive-pack", "bob", "b-2.x.git");
}

#[test]
fn round_trip_after_parse() {
    // a command accepted without the leading slash re-renders canonically
    // and parses back to the same triple
    match parse_command("git-upload-pack '~dave/d.git'") {
        Ok(Command::Git { bin, user, repo }) => {
            let rendered = render_git_command(&bin, &user, &repo);
            match parse_command(&rendered) {
                Ok(Command::Git { bin: b2, user: u2, repo: r2 }) => {
                    assert_eq!(b2, bin);
                    assert_eq!(u2, user);
                    assert_eq!(r2, repo);
                },
                _ => panic!("re-rendered command did not parse"),
            }
        },
        _ => panic!("expected a Git command"),
    }
}
