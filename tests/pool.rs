use cql_client::error::RequestError;
use cql_client::pool::{
    acquire_slot, apply_jitter, backoff_delay, pick_connection, resize_decision, HostHealth, HostState,
    PoolAction,
};
use cql_client::retry::{decide, Consistency, RetryDecision};

#[test]
fn picks_least_loaded() {
    assert_eq!(pick_connection(&vec![3, 1, 2], 4, 0), Some(1));
}

#[test]
fn ties_break_in_round_robin_order() {
    assert_eq!(pick_connection(&vec![1, 2, 1, 1], 4, 1), Some(2));
    assert_eq!(pick_connection(&vec![1, 2, 1, 1], 4, 3), Some(3));
    assert_eq!(pick_connection(&vec![1, 2, 1, 1], 4, 7), Some(3));
}

#[test]
fn saturated_connections_are_skipped() {
    assert_eq!(pick_connection(&vec![4, 4, 3], 4, 0), Some(2));
    assert_eq!(pick_connection(&vec![4, 4], 4, 0), None);
    assert_eq!(pick_connection(&vec![], 4, 0), None);
}

#[test]
fn saturated_pool_times_out() {
    let n = 3;
    let loads = vec![n, n];
    assert_eq!(acquire_slot(&loads, n, 0, 10, 50), Ok(None));
    assert_eq!(acquire_slot(&loads, n, 0, 50, 50), Err(RequestError::PoolTimeout));
}

#[test]
fn freed_slot_is_taken_before_timeout() {
    let n = 3;
    assert_eq!(acquire_slot(&vec![n, n - 1], n, 0, 10, 50), Ok(Some(1)));
}

#[test]
fn backoff_grows_and_caps() {
    assert_eq!(backoff_delay(100, 2, 1000, 0), 100);
    assert_eq!(backoff_delay(100, 2, 1000, 3), 800);
    assert_eq!(backoff_delay(100, 2, 1000, 4), 1000);
    assert_eq!(backoff_delay(100, 2, 1000, 60), 1000);
    assert_eq!(backoff_delay(5000, 2, 1000, 0), 1000);
}

#[test]
fn jitter_cuts_a_share_of_the_delay() {
    assert_eq!(apply_jitter(1000, 200, 500), 900);
    assert_eq!(apply_jitter(1000, 0, 1000), 1000);
    assert_eq!(apply_jitter(1000, 1000, 1000), 0);
}

#[test]
fn host_goes_down_after_failures_and_up_on_success() {
    let mut h = HostHealth::new();
    assert_eq!(h.state, HostState::Unknown);
    h.record_failure(2);
    assert_eq!(h.state, HostState::Unknown);
    h.record_failure(2);
    assert_eq!(h.state, HostState::Down);
    h.record_success();
    assert_eq!(h.state, HostState::Up);
    assert_eq!(h.consecutive_failures, 0);
}

#[test]
fn retry_decisions() {
    assert_eq!(decide(RequestError::Unavailable, false, Consistency::Quorum, 0, 2), RetryDecision::RetryNextHost);
    assert_eq!(decide(RequestError::ReadTimeout, false, Consistency::Quorum, 1, 2), RetryDecision::RetrySameHost);
    assert_eq!(decide(RequestError::WriteTimeout, true, Consistency::Quorum, 0, 2), RetryDecision::RetrySameHost);
    assert_eq!(decide(RequestError::WriteTimeout, false, Consistency::Quorum, 0, 2), RetryDecision::Rethrow);
    assert_eq!(decide(RequestError::TimedOut, true, Consistency::Quorum, 0, 2), RetryDecision::Rethrow);
    assert_eq!(decide(RequestError::Unavailable, true, Consistency::Quorum, 2, 2), RetryDecision::Rethrow);
}

#[test]
fn conditional_writes_are_not_retried() {
    assert_eq!(decide(RequestError::WriteTimeout, true, Consistency::Serial, 0, 2), RetryDecision::Rethrow);
    assert_eq!(decide(RequestError::WriteTimeout, true, Consistency::LocalSerial, 0, 2), RetryDecision::Rethrow);
    assert_eq!(decide(RequestError::ReadTimeout, true, Consistency::Serial, 0, 2), RetryDecision::RetrySameHost);
}

#[test]
fn pool_resizes_within_bounds() {
    assert_eq!(resize_decision(&vec![0], 4, 2, 3), PoolAction::Grow);
    assert_eq!(resize_decision(&vec![1, 4], 4, 2, 3), PoolAction::Keep);
    assert_eq!(resize_decision(&vec![4, 4], 4, 2, 3), PoolAction::Grow);
    assert_eq!(resize_decision(&vec![4, 4, 4], 4, 2, 3), PoolAction::Keep);
    assert_eq!(resize_decision(&vec![0, 0, 0, 0], 4, 2, 3), PoolAction::Shrink);
}
