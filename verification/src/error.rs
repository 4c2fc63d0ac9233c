//! Error taxonomy of the SSH core, and the translation of native return
//! codes into it.

use vstd::prelude::*;

verus! {

/// The native library's failure, carrying its message.
pub struct LibsshError {
    pub message: String,
}

impl LibsshError {
    pub fn new(message: String) -> (r: LibsshError)
        ensures
            r.message@ == message@,
    {
        LibsshError { message }
    }

    pub fn message(&self) -> (r: &String)
        ensures
            r@ == self.message@,
    {
        &self.message
    }
}

/// The application-level error surfaced by the front-end: internal
/// failures carry a message that is logged, never sent to the peer.
pub enum AppError {
    Internal(String),
}

impl AppError {
    pub fn message(&self) -> (r: &String)
        ensures
            (match self {
                AppError::Internal(m) => r@ == m@,
            }),
    {
        match self {
            AppError::Internal(m) => m,
        }
    }
}

/// A native call's outcome: done, not ready yet, or a protocol failure.
pub enum SshStatus {
    Done,
    WouldBlock,
    ProtocolError,
}

/// Translate a native return code: 0 succeeds, -2 asks the caller to wait
/// for readiness, -1 is a protocol failure. The native library returns no
/// other code from these calls.
pub fn classify_return_code(rc: i32) -> (r: SshStatus)
    requires
        rc == 0 || rc == -1 || rc == -2,
    ensures
        (r is Done) <==> rc == 0,
        (r is WouldBlock) <==> rc == -2,
        (r is ProtocolError) <==> rc == -1,
{
    if rc == 0 {
        SshStatus::Done
    } else if rc == -2 {
        SshStatus::WouldBlock
    } else {
        SshStatus::ProtocolError
    }
}

/// The readiness a session's poll flags ask for.
pub enum IoInterest {
    Readable,
    Writable,
    Both,
}

/// Map the native poll flags (read pending: bit 1, write pending: bit 3)
/// to the readiness to wait for; at least one must be set.
pub fn poll_flags_to_interests(flags: u32) -> (r: IoInterest)
    requires
        flags & 2 != 0 || flags & 8 != 0,
    ensures
        (r is Both) <==> (flags & 2 != 0 && flags & 8 != 0),
        (r is Readable) <==> (flags & 2 != 0 && flags & 8 == 0),
        (r is Writable) <==> (flags & 2 == 0 && flags & 8 != 0),
{
    if flags & 2 != 0 && flags & 8 != 0 {
        IoInterest::Both
    } else if flags & 2 != 0 {
        IoInterest::Readable
    } else {
        IoInterest::Writable
    }
}

/// The same mapping for reporting which readiness arrived.
pub fn poll_flags_to_ready(flags: u32) -> (r: IoInterest)
    requires
        flags & 2 != 0 || flags & 8 != 0,
    ensures
        (r is Both) <==> (flags & 2 != 0 && flags & 8 != 0),
        (r is Readable) <==> (flags & 2 != 0 && flags & 8 == 0),
        (r is Writable) <==> (flags & 2 == 0 && flags & 8 != 0),
{
    poll_flags_to_interests(flags)
}

} // verus!
