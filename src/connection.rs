//! One connection's lifecycle and its in-flight requests.
use vstd::prelude::*;
use crate::error::{ConnectError, ProtocolError, RequestError};
use crate::frame::{valid_version, Decoded, Frame};
use crate::streams::{StreamTable, MAX_STREAMS, busy_ids, due_ids, after_reap};

verus! {

/// `Connecting -> Ready -> Draining -> Closed`, with `Faulted` reachable from
/// any state on an I/O or protocol error.
#[derive(PartialEq, Eq, Structural, Clone, Copy, Debug)]
pub enum ConnState {
    Connecting,
    Ready,
    Draining,
    Closed,
    Faulted,
}

/// Opcode of a server-pushed event (topology or schema change).
pub const OPCODE_EVENT: u8 = 12;

/// Opcodes a server sends: error, ready, authenticate, supported, result,
/// event, auth challenge and auth success.
pub open spec fn response_opcode(op: u8) -> bool {
    op == 0 || op == 2 || op == 3 || op == 6 || op == 8 || op == 12 || op == 14 || op == 16
}

/// Where a decoded frame goes.
pub enum Dispatch {
    /// An event, for the registered listener.
    Event(Frame),
    /// The response to the pending request on this stream id, now retired.
    Response(i16, Frame),
    /// A response that matches no pending request; dropped.
    Discarded,
    /// Not a whole frame yet.
    Incomplete,
    /// The peer broke the protocol: the connection faulted and these
    /// requests are lost.
    Fault(ProtocolError, Vec<(i16, RequestError)>),
}

/// `after` is `before` faulted by protocol error `e`, and `r` reports it
/// with every request that was in flight, each lost.
pub open spec fn faulted(before: Connection, after: Connection, r: Dispatch, e: ProtocolError) -> bool {
    &&& after.state_of() == ConnState::Faulted
    &&& after.slots() == Seq::new(before.slots().len(), |i: int| None::<u64>)
    &&& match r {
        Dispatch::Fault(e2, lost) => {
            &&& e2 == e
            &&& lost@.len() == busy_ids(before.slots()).len()
            &&& forall|k: int|
                0 <= k < lost@.len() ==> #[trigger] lost@[k] == (
                    busy_ids(before.slots())[k],
                    RequestError::ConnectionLost,
                )
        },
        _ => false,
    }
}

/// A connection and the stream ids of its pending requests.
pub struct Connection {
    state: ConnState,
    streams: StreamTable,
}

/// A draining connection closes once nothing is in flight.
pub open spec fn settle(st: ConnState, s: Seq<Option<u64>>) -> ConnState {
    if st == ConnState::Draining && forall|i: int| 0 <= i < s.len() ==> s[i] is None {
        ConnState::Closed
    } else {
        st
    }
}

impl Connection {
    pub closed spec fn state_of(&self) -> ConnState {
        self.state
    }

    pub closed spec fn slots(&self) -> Seq<Option<u64>> {
        self.streams@
    }

    pub open spec fn wf(&self) -> bool {
        0 < self.slots().len() <= MAX_STREAMS
    }

    /// A connection being established, allowing `max_in_flight` concurrent requests.
    pub fn new(max_in_flight: usize) -> (r: Connection)
        requires
            0 < max_in_flight <= MAX_STREAMS,
        ensures
            r.wf(),
            r.state_of() == ConnState::Connecting,
            r.slots() == Seq::new(max_in_flight as nat, |i: int| None::<u64>),
    {
        Connection { state: ConnState::Connecting, streams: StreamTable::new(max_in_flight) }
    }

    pub fn state(&self) -> (r: ConnState)
        ensures
            r == self.state_of(),
    {
        self.state
    }

    /// Number of requests in flight.
    pub fn in_flight(&self) -> (r: usize)
        requires
            self.wf(),
        ensures
            r == busy_ids(self.slots()).len(),
    {
        self.streams.in_flight()
    }

    /// Completes the handshake with the protocol version the peer answered:
    /// a supported version makes a connecting connection ready; any other
    /// version faults it.
    pub fn handshake(&mut self, version: u8) -> (r: Result<(), ConnectError>)
        requires
            old(self).wf(),
        ensures
            final(self).wf(),
            final(self).slots() == old(self).slots(),
            r is Ok <==> old(self).state_of() == ConnState::Connecting && valid_version(version),
            r is Ok ==> final(self).state_of() == ConnState::Ready,
            r is Err ==> r == Err::<(), ConnectError>(ConnectError::HandshakeMismatch),
            r is Err && old(self).state_of() == ConnState::Connecting ==> final(self).state_of()
                == ConnState::Faulted,
            r is Err && old(self).state_of() != ConnState::Connecting ==> final(self).state_of()
                == old(self).state_of(),
    {
        if self.state != ConnState::Connecting {
            return Err(ConnectError::HandshakeMismatch);
        }
        if (3 <= version && version <= 5) || (0x83 <= version && version <= 0x85) {
            self.state = ConnState::Ready;
            Ok(())
        } else {
            self.state = ConnState::Faulted;
            Err(ConnectError::HandshakeMismatch)
        }
    }

    /// Registers a request due at `deadline` under a fresh stream id. Only a
    /// ready connection takes requests; it refuses with `StreamsExhausted`
    /// when every id is in flight.
    pub fn send(&mut self, deadline: u64) -> (r: Result<i16, RequestError>)
        requires
            old(self).wf(),
        ensures
            final(self).wf(),
            final(self).state_of() == old(self).state_of(),
            old(self).state_of() != ConnState::Ready ==> r == Err::<i16, RequestError>(
                RequestError::ConnectionLost,
            ) && final(self).slots() == old(self).slots(),
            old(self).state_of() == ConnState::Ready ==> {
                &&& r is Err <==> forall|i: int|
                    0 <= i < old(self).slots().len() ==> old(self).slots()[i] is Some
                &&& r is Err ==> r == Err::<i16, RequestError>(RequestError::StreamsExhausted)
                    && final(self).slots() == old(self).slots()
                &&& r matches Ok(id) ==> 0 <= id < old(self).slots().len() && old(
                    self,
                ).slots()[id as int] is None && (forall|j: int|
                    0 <= j < id ==> old(self).slots()[j] is Some) && final(self).slots() == old(
                    self,
                ).slots().update(id as int, Some(deadline))
            },
    {
        if self.state != ConnState::Ready {
            return Err(RequestError::ConnectionLost);
        }
        proof {
            crate::streams::lemma_first_free(self.slots(), self.slots().len() as int);
        }
        match self.streams.allocate(deadline) {
            Some(id) => Ok(id),
            None => Err(RequestError::StreamsExhausted),
        }
    }

    /// Dispatches a response on `stream`: `true` when it matched a pending
    /// request, which is then retired; an unmatched response is discarded.
    pub fn on_response(&mut self, stream: i16) -> (r: bool)
        requires
            old(self).wf(),
        ensures
            final(self).wf(),
            r == (0 <= stream < old(self).slots().len() && old(self).slots()[stream as int] is Some),
            r ==> final(self).slots() == old(self).slots().update(stream as int, None),
            !r ==> final(self).slots() == old(self).slots(),
            final(self).state_of() == settle(old(self).state_of(), final(self).slots()),
    {
        let r = self.streams.retire(stream);
        self.settle();
        r
    }

    /// Resolves every request due at `now` as timed out and frees its id;
    /// returns those ids in increasing order.
    pub fn reap(&mut self, now: u64) -> (r: Vec<i16>)
        requires
            old(self).wf(),
        ensures
            final(self).wf(),
            r@ == due_ids(old(self).slots(), now as int, old(self).slots().len() as int),
            final(self).slots() == after_reap(old(self).slots(), now as int),
            final(self).state_of() == settle(old(self).state_of(), final(self).slots()),
    {
        let r = self.streams.reap(now);
        self.settle();
        r
    }

    /// Stops taking requests: a ready connection drains, and closes once
    /// nothing is in flight; a connecting one closes at once.
    pub fn close(&mut self)
        requires
            old(self).wf(),
        ensures
            final(self).wf(),
            final(self).slots() == old(self).slots(),
            old(self).state_of() == ConnState::Ready ==> final(self).state_of() == settle(
                ConnState::Draining,
                old(self).slots(),
            ),
            old(self).state_of() == ConnState::Connecting ==> final(self).state_of()
                == ConnState::Closed,
            old(self).state_of() != ConnState::Ready && old(self).state_of()
                != ConnState::Connecting ==> final(self).state_of() == old(self).state_of(),
    {
        if self.state == ConnState::Ready {
            self.state = ConnState::Draining;
            self.settle();
        } else if self.state == ConnState::Connecting {
            self.state = ConnState::Closed;
        }
    }

    /// The transport failed: the connection faults, and every request in
    /// flight is lost; returns their ids in increasing order.
    pub fn on_io_error(&mut self) -> (r: Vec<(i16, RequestError)>)
        requires
            old(self).wf(),
        ensures
            final(self).wf(),
            final(self).state_of() == ConnState::Faulted,
            final(self).slots() == Seq::new(old(self).slots().len(), |i: int| None::<u64>),
            r@.len() == busy_ids(old(self).slots()).len(),
            forall|k: int|
                0 <= k < r@.len() ==> #[trigger] r@[k] == (
                    busy_ids(old(self).slots())[k],
                    RequestError::ConnectionLost,
                ),
    {
        self.state = ConnState::Faulted;
        let ids = self.streams.fail_all();
        let mut out: Vec<(i16, RequestError)> = Vec::new();
        let mut i: usize = 0;
        while i < ids.len()
            invariant
                i <= ids@.len(),
                out@.len() == i,
                forall|k: int| 0 <= k < i ==> #[trigger] out@[k] == (ids@[k], RequestError::ConnectionLost),
            decreases ids@.len() - i,
        {
            out.push((ids[i], RequestError::ConnectionLost));
            i = i + 1;
        }
        out
    }

    /// Dispatches the outcome of decoding the read buffer. Events go to the
    /// listener whatever their stream id; a response retires its stream id
    /// when a request is pending on it and is discarded otherwise. A corrupt
    /// frame, or one with an opcode that only clients send, faults the
    /// connection as an I/O error would.
    pub fn on_decoded(&mut self, d: Decoded) -> (r: Dispatch)
        requires
            old(self).wf(),
        ensures
            final(self).wf(),
            match d {
                Decoded::NeedMoreData => r is Incomplete && *final(self) == *old(self),
                Decoded::Corrupt(_) => faulted(*old(self), *final(self), r, ProtocolError::CorruptFrame),
                Decoded::Complete(f, _) => if !response_opcode(f.opcode) {
                    faulted(*old(self), *final(self), r, ProtocolError::UnexpectedOpcode)
                } else if f.opcode == OPCODE_EVENT {
                    r matches Dispatch::Event(g) && g@ == f@ && *final(self) == *old(self)
                } else {
                    let hit = 0 <= f.stream < old(self).slots().len()
                        && old(self).slots()[f.stream as int] is Some;
                    &&& hit ==> (r matches Dispatch::Response(id, g) && id == f.stream && g@ == f@)
                    &&& hit ==> final(self).slots() == old(self).slots().update(f.stream as int, None)
                    &&& !hit ==> r is Discarded && final(self).slots() == old(self).slots()
                    &&& final(self).state_of() == settle(old(self).state_of(), final(self).slots())
                },
            },
    {
        match d {
            Decoded::NeedMoreData => Dispatch::Incomplete,
            Decoded::Corrupt(_) => Dispatch::Fault(ProtocolError::CorruptFrame, self.on_io_error()),
            Decoded::Complete(f, _) => {
                let op = f.opcode;
                if !(op == 0 || op == 2 || op == 3 || op == 6 || op == 8 || op == 12 || op == 14
                    || op == 16) {
                    Dispatch::Fault(ProtocolError::UnexpectedOpcode, self.on_io_error())
                } else if op == OPCODE_EVENT {
                    Dispatch::Event(f)
                } else {
                    let stream = f.stream;
                    if self.on_response(stream) {
                        Dispatch::Response(stream, f)
                    } else {
                        Dispatch::Discarded
                    }
                }
            },
        }
    }

    fn settle(&mut self)
        requires
            old(self).wf(),
        ensures
            final(self).wf(),
            final(self).slots() == old(self).slots(),
            final(self).state_of() == settle(old(self).state_of(), old(self).slots()),
    {
        if self.state == ConnState::Draining && self.streams.is_idle() {
            self.state = ConnState::Closed;
        }
    }
}

} // verus!
