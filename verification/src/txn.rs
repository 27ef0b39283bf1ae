//! The write-intent transaction discipline.
//!
//! The embedded store does not expose an immediate write transaction, so one
//! is forced: begin, then issue a no-op write to upgrade to an exclusive
//! write lock before any row is read. When the upgrade reports lock
//! contention the whole begin-and-upgrade is retried — with a small backoff
//! and a bounded retry count, so sustained contention cannot live-lock the
//! writer. Any other storage fault aborts at once and is never retried.
//! The runtime performs the begin and the upgrade; the decisions below say
//! when to retry, when to give up, and how long to pause.

use vstd::prelude::*;

verus! {

/// The most begin-and-upgrade attempts made for one write transaction
/// before lock contention is reported as a fault.
pub const MAX_WRITE_RETRIES: u32 = 64;

/// The longest pause between two attempts, in milliseconds.
pub const MAX_RETRY_BACKOFF_MS: u64 = 64;

/// What to do after one failed attempt to upgrade to a write transaction.
#[derive(Clone, Copy, PartialEq, Eq, Structural, Debug)]
pub enum RetryDecision {
    /// Lock contention: pause briefly and try the whole begin-and-upgrade
    /// again.
    Retry,
    /// A real storage fault, or contention that outlasted every retry:
    /// propagate the error.
    Abort,
}

/// Whether a storage error's primary result code signals lock contention.
///
/// The embedded store packs its primary result code into the low eight bits
/// of the extended code; primary code 5 is the busy signal. An error that
/// carries no numeric code is never contention.
pub fn is_sqlite_busy_err(code: Option<i64>) -> (r: bool)
    ensures
        r == (code matches Some(c) && c & 255 == 5),
{
    match code {
        Some(c) => (c & 255) == 5,
        None => false,
    }
}

/// Decide what one failed upgrade attempt means: only lock contention is
/// retried, and only while attempts remain; every other fault aborts at
/// once.
pub fn retry_decision(code: Option<i64>, attempts_so_far: u32) -> (r: RetryDecision)
    ensures
        r is Retry <==> ((code matches Some(c) && c & 255 == 5)
            && attempts_so_far < MAX_WRITE_RETRIES),
{
    if is_sqlite_busy_err(code) && attempts_so_far < MAX_WRITE_RETRIES {
        RetryDecision::Retry
    } else {
        RetryDecision::Abort
    }
}

/// How long to pause before the next attempt: doubling from one
/// millisecond, capped at the maximum backoff.
pub fn retry_backoff_ms(attempts_so_far: u32) -> (r: u64)
    ensures
        r == if attempts_so_far < 6 { (1u64 << attempts_so_far) as u64 } else { MAX_RETRY_BACKOFF_MS },
        1 <= r <= MAX_RETRY_BACKOFF_MS,
{
    if attempts_so_far < 6 {
        let r = 1u64 << attempts_so_far;
        proof {
            assert(1 <= (1u64 << attempts_so_far) <= 64 && (attempts_so_far < 6 ==> (1u64 << attempts_so_far) <= 32)) by (bit_vector)
                requires attempts_so_far < 6u32;
        }
        r
    } else {
        MAX_RETRY_BACKOFF_MS
    }
}

} // verus!
