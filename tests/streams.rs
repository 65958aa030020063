use cql_client::connection::{ConnState, Connection, Dispatch};
use cql_client::error::{ConnectError, ProtocolError, RequestError};
use cql_client::frame::{decode, encode, Frame};
use cql_client::streams::StreamTable;

#[test]
fn allocates_lowest_free_id() {
    let mut t = StreamTable::new(3);
    assert_eq!(t.allocate(10), Some(0));
    assert_eq!(t.allocate(10), Some(1));
    assert!(t.retire(0));
    assert_eq!(t.allocate(20), Some(0));
    assert_eq!(t.allocate(20), Some(2));
    assert_eq!(t.allocate(20), None);
    assert_eq!(t.in_flight(), 3);
}

#[test]
fn busy_id_is_not_reassigned() {
    let mut t = StreamTable::new(2);
    assert_eq!(t.allocate(5), Some(0));
    assert!(!t.retire(1));
    assert_eq!(t.reap(4), Vec::<i16>::new());
    assert!(t.is_busy(0));
    assert_eq!(t.allocate(5), Some(1));
    assert_eq!(t.allocate(5), None);
}

#[test]
fn unknown_response_is_discarded() {
    let mut t = StreamTable::new(2);
    assert!(!t.retire(1));
    assert!(!t.retire(-1));
    assert!(!t.retire(7));
    assert_eq!(t.in_flight(), 0);
}

#[test]
fn reaper_frees_due_ids() {
    let mut t = StreamTable::new(4);
    t.allocate(10);
    t.allocate(30);
    t.allocate(20);
    assert_eq!(t.reap(20), vec![0, 2]);
    assert!(!t.is_busy(0));
    assert!(t.is_busy(1));
    assert_eq!(t.allocate(40), Some(0));
}

fn ready(cap: usize) -> Connection {
    let mut c = Connection::new(cap);
    assert_eq!(c.handshake(4), Ok(()));
    c
}

#[test]
fn handshake_mismatch_faults() {
    let mut c = Connection::new(2);
    assert_eq!(c.handshake(2), Err(ConnectError::HandshakeMismatch));
    assert_eq!(c.state(), ConnState::Faulted);
}

#[test]
fn send_requires_ready_and_free_ids() {
    let mut c = Connection::new(1);
    assert_eq!(c.send(5), Err(RequestError::ConnectionLost));
    assert_eq!(c.handshake(0x84), Ok(()));
    assert_eq!(c.send(5), Ok(0));
    assert_eq!(c.send(5), Err(RequestError::StreamsExhausted));
}

#[test]
fn delayed_response_times_out_then_id_is_reused() {
    let mut c = ready(1);
    assert_eq!(c.send(100), Ok(0));
    assert_eq!(c.reap(99), Vec::<i16>::new());
    assert_eq!(c.reap(100), vec![0]);
    assert!(!c.on_response(0));
    assert_eq!(c.send(300), Ok(0));
}

#[test]
fn transport_loss_fails_all_in_flight() {
    let mut c = ready(4);
    c.send(10).unwrap();
    c.send(10).unwrap();
    c.send(10).unwrap();
    assert!(c.on_response(1));
    let lost = c.on_io_error();
    assert_eq!(lost, vec![(0, RequestError::ConnectionLost), (2, RequestError::ConnectionLost)]);
    assert_eq!(c.state(), ConnState::Faulted);
    assert_eq!(c.in_flight(), 0);
}

#[test]
fn close_drains_then_closes() {
    let mut c = ready(2);
    c.send(10).unwrap();
    c.close();
    assert_eq!(c.state(), ConnState::Draining);
    assert_eq!(c.send(10), Err(RequestError::ConnectionLost));
    assert!(c.on_response(0));
    assert_eq!(c.state(), ConnState::Closed);
}

#[test]
fn close_idle_connection_closes_at_once() {
    let mut c = ready(2);
    c.close();
    assert_eq!(c.state(), ConnState::Closed);
}

fn response(stream: i16, opcode: u8) -> Vec<u8> {
    encode(&Frame { version: 0x84, flags: 0, stream, opcode, body: vec![7] })
}

#[test]
fn dispatch_routes_responses_and_events() {
    let mut c = ready(2);
    c.send(10).unwrap();
    match c.on_decoded(decode(&response(0, 8), 64)) {
        Dispatch::Response(0, f) => assert_eq!(f.body, vec![7]),
        _ => panic!("expected the response to stream 0"),
    }
    assert!(matches!(c.on_decoded(decode(&response(0, 8), 64)), Dispatch::Discarded));
    assert!(matches!(c.on_decoded(decode(&response(-1, 12), 64)), Dispatch::Event(_)));
    assert!(matches!(c.on_decoded(decode(&response(0, 8)[..5], 64)), Dispatch::Incomplete));
    assert_eq!(c.state(), ConnState::Ready);
}

#[test]
fn corrupt_frame_faults_connection() {
    let mut c = ready(2);
    c.send(10).unwrap();
    let mut bytes = response(0, 8);
    bytes[0] = 9;
    match c.on_decoded(decode(&bytes, 64)) {
        Dispatch::Fault(e, lost) => {
            assert_eq!(e, ProtocolError::CorruptFrame);
            assert_eq!(lost, vec![(0, RequestError::ConnectionLost)]);
        }
        _ => panic!("expected a fault"),
    }
    assert_eq!(c.state(), ConnState::Faulted);
}

#[test]
fn request_opcode_from_peer_faults_connection() {
    let mut c = ready(2);
    match c.on_decoded(decode(&response(0, 7), 64)) {
        Dispatch::Fault(e, lost) => {
            assert_eq!(e, ProtocolError::UnexpectedOpcode);
            assert!(lost.is_empty());
        }
        _ => panic!("expected a fault"),
    }
    assert_eq!(c.state(), ConnState::Faulted);
}
