//! The configuration the outer system hands the core: database
//! coordinates, repository and LFS roots, the public URL base, and the
//! SSH listener's address and host key. Loading it from disk is the
//! shell's job.

use vstd::prelude::*;

verus! {

pub struct Config {
    pub database: Database,
    pub git: GitConfig,
    pub http: HttpConfig,
    pub ssh: SshConfig,
}

pub struct Database {
    pub host: String,
    pub port: u16,
    pub user: String,
    pub password: String,
    pub database: String,
}

pub struct GitConfig {
    /// Repositories live at `<repository_path>/<user>/<repo>`.
    pub repository_path: String,
    /// LFS objects live under `<lfs_path>/<user>/<repo>/objects`.
    pub lfs_path: String,
}

pub struct HttpConfig {
    pub host: String,
    pub port: u16,
    /// The base under which clients reach the HTTP front-end; LFS hrefs
    /// are formed against it.
    pub public_url: String,
}

pub struct SshConfig {
    pub host: String,
    pub port: u16,
    /// The host key, loaded once at bind time; rotation requires restart.
    pub host_key: String,
}

} // verus!
