//! Core of a small self-hosted code-collaboration service: the SSH Git
//! transport front-end. A TCP listener accepts SSH connections, a session
//! driver authenticates users by public key against an account snapshot,
//! and each accepted channel either proxies byte streams between the SSH
//! channel and a spawned Git helper process, or answers a Git-LFS
//! authentication request with a signed JSON blob.
//!
//! This crate holds the verified logic: the ring buffer, the exec command
//! grammar, the channel write-window accounting, the public-key
//! authentication decision, the LFS response construction, and the proxy
//! state machine. The native SSH engine, sockets, child processes and the
//! database are driven by an unverified shell around this library.

pub mod bindings;
pub mod channel;
pub mod command;
pub mod config;
pub mod db;
pub mod dispatch;
pub mod error;
pub mod lfs;
pub mod metrics;
pub mod model;
pub mod proxy;
pub mod respond;
pub mod ringbuf;
pub mod session;
pub mod validate;
