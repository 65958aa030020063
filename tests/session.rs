use cql_client::connection::Connection;
use cql_client::error::RequestError;
use cql_client::pool::{HostState, ReconnectPolicy, Reconnector};
use cql_client::retry::Consistency;
use cql_client::session::{Execution, Step};

fn policy() -> ReconnectPolicy {
    ReconnectPolicy { base: 100, multiplier: 2, cap: 1000, jitter_permille: 0, down_threshold: 2 }
}

#[test]
fn lost_transport_schedules_initial_backoff() {
    let mut c = Connection::new(4);
    c.handshake(4).unwrap();
    c.send(50).unwrap();
    c.send(50).unwrap();
    let lost = c.on_io_error();
    assert_eq!(lost, vec![(0, RequestError::ConnectionLost), (1, RequestError::ConnectionLost)]);
    let mut r = Reconnector::new(policy());
    assert_eq!(r.schedule_after_failure(0), 100);
    assert_eq!(r.health.state, HostState::Unknown);
    assert_eq!(r.schedule_after_failure(0), 200);
    assert_eq!(r.health.state, HostState::Down);
    r.on_success();
    assert_eq!(r.health.state, HostState::Up);
    assert_eq!(r.schedule_after_failure(0), 100);
}

#[test]
fn reconnect_delay_with_jitter() {
    let mut p = policy();
    p.jitter_permille = 500;
    let mut r = Reconnector::new(p);
    assert_eq!(r.schedule_after_failure(1000), 50);
    assert_eq!(r.schedule_after_failure(0), 200);
}

#[test]
fn execution_retries_then_rethrows() {
    let mut x = Execution::new(0);
    assert_eq!(x.step(Err(RequestError::Unavailable), false, Consistency::One, 2, 3), Step::Resend(1));
    assert_eq!(x.step(Err(RequestError::ReadTimeout), false, Consistency::One, 2, 3), Step::Resend(1));
    assert_eq!(x.step(Err(RequestError::ReadTimeout), false, Consistency::One, 2, 3), Step::Fail(RequestError::ReadTimeout));
    assert_eq!(x.attempt, 2);
}

#[test]
fn execution_wraps_to_first_host() {
    let mut x = Execution::new(2);
    assert_eq!(x.step(Err(RequestError::Unavailable), true, Consistency::One, 5, 3), Step::Resend(0));
}

#[test]
fn execution_success_and_plain_errors() {
    let mut x = Execution::new(0);
    assert_eq!(x.step(Ok(()), false, Consistency::One, 2, 1), Step::Done);
    assert_eq!(x.step(Err(RequestError::WriteTimeout), false, Consistency::One, 2, 1), Step::Fail(RequestError::WriteTimeout));
    assert_eq!(x.step(Err(RequestError::PoolTimeout), true, Consistency::One, 2, 1), Step::Fail(RequestError::PoolTimeout));
    assert_eq!(x.attempt, 0);
}
