//! Retry decisions for failed requests.
use vstd::prelude::*;
use crate::error::RequestError;

verus! {

/// What to do after a request failed.
#[derive(PartialEq, Eq, Structural, Clone, Copy, Debug)]
pub enum RetryDecision {
    RetrySameHost,
    RetryNextHost,
    Rethrow,
}

/// Consistency level of a query.
#[derive(PartialEq, Eq, Structural, Clone, Copy, Debug)]
pub enum Consistency {
    Any,
    One,
    Two,
    Three,
    Quorum,
    All,
    LocalQuorum,
    EachQuorum,
    Serial,
    LocalSerial,
    LocalOne,
}

/// Levels of conditional (compare-and-set) writes.
pub open spec fn is_serial(c: Consistency) -> bool {
    c == Consistency::Serial || c == Consistency::LocalSerial
}

/// Errors that a retry may cure. A timed-out write is retried only when the
/// query is idempotent and not a conditional write, whose outcome a retry
/// could change.
pub open spec fn retryable(e: RequestError, idempotent: bool, c: Consistency) -> bool {
    match e {
        RequestError::Unavailable | RequestError::ReadTimeout => true,
        RequestError::WriteTimeout => idempotent && !is_serial(c),
        _ => false,
    }
}

/// The decision for error `e` after `attempt` retries (zero for the first
/// failure) with at most `max_retries` allowed.
pub open spec fn decide_spec(e: RequestError, idempotent: bool, c: Consistency, attempt: u32, max_retries: u32) -> RetryDecision {
    if attempt >= max_retries || !retryable(e, idempotent, c) {
        RetryDecision::Rethrow
    } else if e == RequestError::Unavailable {
        RetryDecision::RetryNextHost
    } else {
        RetryDecision::RetrySameHost
    }
}

/// Decides whether to retry: an unavailable replica set is tried on the next
/// host, a read timeout (or a write timeout of an idempotent query that is
/// not a conditional write) on the same host; everything else, and anything
/// past `max_retries` retries, is handed to the caller.
pub fn decide(e: RequestError, idempotent: bool, c: Consistency, attempt: u32, max_retries: u32) -> (r: RetryDecision)
    ensures
        r == decide_spec(e, idempotent, c, attempt, max_retries),
{
    if attempt >= max_retries {
        return RetryDecision::Rethrow;
    }
    match e {
        RequestError::Unavailable => RetryDecision::RetryNextHost,
        RequestError::ReadTimeout => RetryDecision::RetrySameHost,
        RequestError::WriteTimeout => {
            if idempotent && !(c == Consistency::Serial || c == Consistency::LocalSerial) {
                RetryDecision::RetrySameHost
            } else {
                RetryDecision::Rethrow
            }
        },
        _ => RetryDecision::Rethrow,
    }
}

/// Whatever errors come back, a request is sent at most `max_retries + 1`
/// times: the decision after the last allowed retry is always to rethrow.
pub proof fn lemma_retries_bounded(e: RequestError, idempotent: bool, c: Consistency, attempt: u32, max_retries: u32)
    requires
        attempt >= max_retries,
    ensures
        decide_spec(e, idempotent, c, attempt, max_retries) == RetryDecision::Rethrow,
{
}

} // verus!
