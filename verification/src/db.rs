//! The retry policy for database transactions: which failures are worth
//! retrying, and how long to back off before each attempt. The pool,
//! connections and queries live in the unverified shell.

use vstd::prelude::*;
use crate::command::chars_eq;

verus! {

/// The backoff delay before retry `i` (counting from zero), in
/// milliseconds; geometric, five steps.
pub open spec fn backoff_step_millis(i: int) -> u64 {
    if i == 0 {
        10
    } else if i == 1 {
        30
    } else if i == 2 {
        90
    } else if i == 3 {
        270
    } else {
        810
    }
}

/// SQLSTATE codes worth retrying: serialization failure, deadlock,
/// unique violation, exclusion violation.
pub open spec fn retryable_code(code: Seq<char>) -> bool {
    ||| code == "40001"@
    ||| code == "40P01"@
    ||| code == "23505"@
    ||| code == "23P01"@
}

/// Whether a failed transaction should be retried, by its SQLSTATE code.
pub fn should_retry(code: &str) -> (r: bool)
    ensures
        r == retryable_code(code@),
{
    chars_eq(code, "40001") || chars_eq(code, "40P01") || chars_eq(code, "23505") || chars_eq(
        code,
        "23P01",
    )
}

/// Counts attempts and hands out the delay before each retry, five at
/// most.
pub struct Backoff {
    tries: usize,
}

impl Backoff {
    pub closed spec fn tries_spec(&self) -> nat {
        self.tries as nat
    }

    pub fn new() -> (r: Backoff)
        ensures
            r.tries_spec() == 0,
    {
        Backoff { tries: 0 }
    }

    /// The delay to sleep before the next retry, or nothing once the five
    /// steps are spent — the caller then gives up.
    pub fn next_delay(&mut self) -> (r: Option<u64>)
        requires
            old(self).tries_spec() < usize::MAX,
        ensures
            final(self).tries_spec() == old(self).tries_spec() + 1,
            old(self).tries_spec() < 5 ==> r == Some(backoff_step_millis(
                old(self).tries_spec() as int,
            )),
            old(self).tries_spec() >= 5 ==> r is None,
    {
        let prior = self.tries;
        self.tries = self.tries + 1;
        if prior >= 5 {
            return None;
        }
        let delay: u64 = if prior == 0 {
            10
        } else if prior == 1 {
            30
        } else if prior == 2 {
            90
        } else if prior == 3 {
            270
        } else {
            810
        };
        Some(delay)
    }
}

} // verus!
