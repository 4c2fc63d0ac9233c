//! Counters the front-end maintains about itself. The long-lived registry
//! and its HTTP exposition live in the shell; this module owns the data
//! and its updates.

use vstd::prelude::*;

verus! {

pub struct Metrics {
    pub connections_accepted: u64,
    pub auth_denied: u64,
    pub sessions_closed: u64,
    pub lfs_tokens_minted: u64,
}

/// A fresh, zeroed snapshot; the shell keeps the long-lived one and
/// updates it through the methods below.
pub fn get() -> (m: Metrics)
    ensures
        m.connections_accepted == 0,
        m.auth_denied == 0,
        m.sessions_closed == 0,
        m.lfs_tokens_minted == 0,
{
    Metrics { connections_accepted: 0, auth_denied: 0, sessions_closed: 0, lfs_tokens_minted: 0 }
}

impl Metrics {
    pub fn record_connection(&mut self)
        ensures
            final(self).connections_accepted == (if old(self).connections_accepted < u64::MAX {
                old(self).connections_accepted + 1
            } else {
                old(self).connections_accepted as int
            }),
            final(self).auth_denied == old(self).auth_denied,
            final(self).sessions_closed == old(self).sessions_closed,
            final(self).lfs_tokens_minted == old(self).lfs_tokens_minted,
    {
        if self.connections_accepted < u64::MAX {
            self.connections_accepted = self.connections_accepted + 1;
        }
    }

    pub fn record_auth_denied(&mut self)
        ensures
            final(self).auth_denied == (if old(self).auth_denied < u64::MAX {
                old(self).auth_denied + 1
            } else {
                old(self).auth_denied as int
            }),
            final(self).connections_accepted == old(self).connections_accepted,
            final(self).sessions_closed == old(self).sessions_closed,
            final(self).lfs_tokens_minted == old(self).lfs_tokens_minted,
    {
        if self.auth_denied < u64::MAX {
            self.auth_denied = self.auth_denied + 1;
        }
    }

    pub fn record_session_closed(&mut self)
        ensures
            final(self).sessions_closed == (if old(self).sessions_closed < u64::MAX {
                old(self).sessions_closed + 1
            } else {
                old(self).sessions_closed as int
            }),
            final(self).connections_accepted == old(self).connections_accepted,
            final(self).auth_denied == old(self).auth_denied,
            final(self).lfs_tokens_minted == old(self).lfs_tokens_minted,
    {
        if self.sessions_closed < u64::MAX {
            self.sessions_closed = self.sessions_closed + 1;
        }
    }

    pub fn record_lfs_token_minted(&mut self)
        ensures
            final(self).lfs_tokens_minted == (if old(self).lfs_tokens_minted < u64::MAX {
                old(self).lfs_tokens_minted + 1
            } else {
                old(self).lfs_tokens_minted as int
            }),
            final(self).connections_accepted == old(self).connections_accepted,
            final(self).auth_denied == old(self).auth_denied,
            final(self).sessions_closed == old(self).sessions_closed,
    {
        if self.lfs_tokens_minted < u64::MAX {
            self.lfs_tokens_minted = self.lfs_tokens_minted + 1;
        }
    }
}

} // verus!
