//! The decisions of one query execution: after each attempt's outcome,
//! finish, fail, or send again to the same or the next host.
use vstd::prelude::*;
use crate::error::RequestError;
use crate::retry::{decide, decide_spec, Consistency, RetryDecision};

verus! {

/// Progress of one execution: retries made so far and the host in use.
#[derive(PartialEq, Eq, Structural, Clone, Copy, Debug)]
pub struct Execution {
    pub attempt: u32,
    pub host: usize,
}

/// What the caller of `step` does next.
#[derive(PartialEq, Eq, Structural, Clone, Copy, Debug)]
pub enum Step {
    /// The query succeeded.
    Done,
    /// The query failed with this error, which goes to the caller unchanged.
    Fail(RequestError),
    /// Send the query again, to this host.
    Resend(usize),
}

impl Execution {
    /// A new execution on host `host`.
    pub fn new(host: usize) -> (r: Execution)
        ensures
            r.attempt == 0,
            r.host == host,
    {
        Execution { attempt: 0, host }
    }

    /// Takes the outcome of the latest attempt. A success finishes; an error
    /// is retried as the retry policy decides for the query's consistency level, on the same host or on the
    /// next of `n_hosts` in turn, and otherwise handed back as it came.
    pub fn step(
        &mut self,
        outcome: Result<(), RequestError>,
        idempotent: bool,
        consistency: Consistency,
        max_retries: u32,
        n_hosts: usize,
    ) -> (r: Step)
        requires
            old(self).host < n_hosts,
        ensures
            final(self).host < n_hosts,
            outcome is Ok ==> r == Step::Done && *final(self) == *old(self),
            outcome matches Err(e) ==> match decide_spec(e, idempotent, consistency, old(self).attempt, max_retries) {
                RetryDecision::Rethrow => r == Step::Fail(e) && *final(self) == *old(self),
                RetryDecision::RetrySameHost => r == Step::Resend(old(self).host)
                    && final(self).attempt == old(self).attempt + 1 && final(self).host == old(self).host,
                RetryDecision::RetryNextHost => r == Step::Resend(final(self).host)
                    && final(self).attempt == old(self).attempt + 1 && final(self).host == (old(self).host + 1)
                    % (n_hosts as int),
            },
            r is Resend ==> final(self).attempt <= max_retries,
    {
        match outcome {
            Ok(()) => Step::Done,
            Err(e) => {
                match decide(e, idempotent, consistency, self.attempt, max_retries) {
                    RetryDecision::Rethrow => Step::Fail(e),
                    RetryDecision::RetrySameHost => {
                        self.attempt = self.attempt + 1;
                        Step::Resend(self.host)
                    },
                    RetryDecision::RetryNextHost => {
                        self.attempt = self.attempt + 1;
                        self.host = (self.host + 1) % n_hosts;
                        Step::Resend(self.host)
                    },
                }
            },
        }
    }
}

} // verus!
