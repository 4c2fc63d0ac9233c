use conduit::command::LfsOperation;
use conduit::config::{Config, Database, GitConfig, HttpConfig, SshConfig};
use conduit::dispatch::{plan_exec, ExecPlan};

fn test_config() -> Config {
    Config {
        database: Database {
            host: String::from("localhost"),
            port: 5432,
            user: String::from("conduit"),
            password: String::from("dbpass"),
            database: String::from("conduit"),
        },
        git: GitConfig {
            repository_path: String::from("/srv/git"),
            lfs_path: String::from("/srv/lfs"),
        },
        http: HttpConfig {
            host: String::from("127.0.0.1"),
            port: 8080,
            public_url: String::from("https://example.com"),
        },
        ssh: SshConfig {
            host: String::from("0.0.0.0"),
            port: 2222,
            host_key: String::from("/etc/conduit/host_key"),
        },
    }
}

#[test]
fn git_command_becomes_a_spawn_plan() {
    let config = test_config();
    match plan_exec(&config, "git-upload-pack '/~alice/repo.git'") {
        ExecPlan::RunGit { bin, repo_dir } => {
            assert_eq!(bin, "git-upload-pack");
            assert_eq!(repo_dir, "/srv/git/alice/repo.git");
        },
        _ => panic!("expected a spawn plan"),
    }
}

#[test]
fn lfs_command_becomes_an_auth_plan() {
    let config = test_config();
    match plan_exec(&config, "git-lfs-authenticate '/~alice/repo.git' download") {
        ExecPlan::LfsAuth { user, repo, operation } => {
            assert_eq!(user, "alice");
            assert_eq!(repo, "repo.git");
            assert!(matches!(operation, LfsOperation::Download));
        },
        _ => panic!("expected an LFS plan"),
    }
}

#[test]
fn unknown_command_earns_one_line_error() {
    let config = test_config();
    match plan_exec(&config, "ls") {
        ExecPlan::Reply { stderr, exit_code } => {
            assert_eq!(stderr, "unsupported command\n");
            assert_eq!(exit_code, 1);
        },
        _ => panic!("expected an error reply"),
    }
}

#[test]
fn malformed_command_earns_one_line_error() {
    let config = test_config();
    match plan_exec(&config, "git-upload-pack repo") {
        ExecPlan::Reply { stderr, exit_code } => {
            assert_eq!(stderr, "invalid command\n");
            assert_eq!(exit_code, 1);
        },
        _ => panic!("expected an error reply"),
    }
}
