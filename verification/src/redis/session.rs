//! One connection: requests, responses, and the steps that a connection
//! goes through.
//!
//! A connection reads chunks until they hold a whole frame, decodes one
//! command from it, hands the command to the engine's queue, waits for the
//! reply, writes the reply, and goes on to the next request. It never has
//! two requests in flight. A frame may come in several chunks, and a chunk
//! may hold several frames. Reading, queuing,
//! waiting and writing are done by whoever drives the connection; what to do
//! next is decided by [`Session::step`].

use crate::redis::cmd::{parse_spec, parse_value_spec, parsed_as, Command, ParseCommandError};
use crate::redis::framing::{lemma_prefix_is_incomplete, lemma_whole_is_not_incomplete};
use crate::redis::resp::{views, Array, BulkString, SimpleString, Value};
use crate::redis::roundtrip::{lemma_decode_encode, well_formed};
use crate::redis::wire::{decode_spec, encode_spec, incomplete_spec, DecodeError, ValueView};
use crate::text::push_bytes;
use crate::util::encode_value;
use vstd::prelude::*;
use vstd::std_specs::cmp::PartialEqSpecImpl;
use vstd::std_specs::convert::FromSpecImpl;

verus! {

/// A value that asks for something.
#[derive(Debug)]
pub struct Request(Value);

impl View for Request {
    type V = ValueView;

    closed spec fn view(&self) -> ValueView {
        self.0@
    }
}

impl Clone for Request {
    fn clone(&self) -> (r: Self)
        ensures
            r@ == self@,
    {
        Request(self.0.clone())
    }
}

impl PartialEq for Request {
    fn eq(&self, other: &Self) -> (r: bool) {
        self.0 == other.0
    }
}

impl Eq for Request {

}

impl PartialEqSpecImpl for Request {
    open spec fn obeys_eq_spec() -> bool {
        true
    }

    open spec fn eq_spec(&self, other: &Self) -> bool {
        self@ == other@
    }
}

impl From<Value> for Request {
    fn from(value: Value) -> (r: Self)
        ensures
            r@ == value@,
    {
        Request(value)
    }
}

impl FromSpecImpl<Value> for Request {
    open spec fn obeys_from_spec() -> bool {
        true
    }

    closed spec fn from_spec(value: Value) -> Self {
        Request(value)
    }
}

impl Request {
    /// The request that is `value`.
    pub fn new(value: Value) -> (r: Self)
        ensures
            r@ == value@,
    {
        Self(value)
    }

    /// Reads the request that `buf` starts with.
    pub fn decode(buf: &[u8]) -> (r: Result<Self, DecodeError>)
        ensures
            match decode_spec(buf@) {
                Ok((v, _)) => r matches Ok(request) && request@ == v,
                Err(e) => r matches Err(x) && x == e,
            },
    {
        match Value::decode(buf) {
            Ok(value) => Ok(Self(value)),
            Err(e) => Err(e),
        }
    }

    /// The frame of the request.
    pub fn encode(&self) -> (r: Vec<u8>)
        ensures
            r@ == encode_spec(self@),
    {
        encode_value(&self.0)
    }

    /// Reads the request as a command.
    pub fn as_command(&self) -> (r: Result<Command, ParseCommandError>)
        ensures
            parsed_as(r, parse_value_spec(self@)),
    {
        Command::try_from(self.0.clone())
    }

    /// The value that the request is.
    pub fn into_value(self) -> (r: Value)
        ensures
            r@ == self@,
    {
        self.0
    }
}

/// A value that answers a request.
#[derive(Debug)]
pub struct Response(Value);

impl View for Response {
    type V = ValueView;

    closed spec fn view(&self) -> ValueView {
        self.0@
    }
}

impl Clone for Response {
    fn clone(&self) -> (r: Self)
        ensures
            r@ == self@,
    {
        Response(self.0.clone())
    }
}

impl PartialEq for Response {
    fn eq(&self, other: &Self) -> (r: bool) {
        self.0 == other.0
    }
}

impl Eq for Response {

}

impl PartialEqSpecImpl for Response {
    open spec fn obeys_eq_spec() -> bool {
        true
    }

    open spec fn eq_spec(&self, other: &Self) -> bool {
        self@ == other@
    }
}

impl From<Value> for Response {
    fn from(value: Value) -> (r: Self)
        ensures
            r@ == value@,
    {
        Response(value)
    }
}

impl FromSpecImpl<Value> for Response {
    open spec fn obeys_from_spec() -> bool {
        true
    }

    closed spec fn from_spec(value: Value) -> Self {
        Response(value)
    }
}

/// The bulk strings `bs` as an array of values.
pub open spec fn bulk_array_spec(bs: Seq<BulkString>) -> ValueView {
    ValueView::Array(Some(Seq::new(bs.len(), |i: int| ValueView::BulkString(bs[i]@))))
}

impl Response {
    /// The response that is `value`.
    pub fn new(value: Value) -> (r: Self)
        ensures
            r@ == value@,
    {
        Self(value)
    }

    /// Reads the response that `buf` starts with.
    pub fn decode(buf: &[u8]) -> (r: Result<Self, DecodeError>)
        ensures
            match decode_spec(buf@) {
                Ok((v, _)) => r matches Ok(response) && response@ == v,
                Err(e) => r matches Err(x) && x == e,
            },
    {
        match Value::decode(buf) {
            Ok(value) => Ok(Self(value)),
            Err(e) => Err(e),
        }
    }

    /// The frame of the response.
    pub fn encode(&self) -> (r: Vec<u8>)
        ensures
            r@ == encode_spec(self@),
    {
        encode_value(&self.0)
    }

    /// Tells whether the response is the value `expected`.
    pub fn is(&self, expected: Value) -> (r: bool)
        ensures
            r == (self@ == expected@),
    {
        self.0 == expected
    }

    /// Tells whether the response is the simple string `expected`.
    pub fn is_simple_string(&self, expected: &str) -> (r: bool)
        ensures
            r == (self@ == ValueView::SimpleString(expected@)),
    {
        self.is(Value::SimpleString(SimpleString::from(expected)))
    }

    /// Tells whether the response is the bulk string that holds `expected`.
    pub fn is_bulk_string(&self, expected: &[u8]) -> (r: bool)
        ensures
            r == (self@ == ValueView::BulkString(Some(expected@))),
    {
        self.is(Value::BulkString(BulkString::new(vstd::slice::slice_to_vec(expected))))
    }

    /// Tells whether the response is the array of the bulk strings
    /// `bulk_strings`.
    pub fn is_bulk_string_array(&self, bulk_strings: Vec<BulkString>) -> (r: bool)
        ensures
            r == (self@ == bulk_array_spec(bulk_strings@)),
    {
        let mut values: Vec<Value> = Vec::new();
        let mut i: usize = 0;
        while i < bulk_strings.len()
            invariant
                i <= bulk_strings@.len(),
                values@.len() == i,
                forall|j: int| 0 <= j < i ==> values@[j]@ == ValueView::BulkString(#[trigger] bulk_strings@[j]@),
            decreases bulk_strings@.len() - i,
        {
            values.push(Value::BulkString(bulk_strings[i].clone()));
            i = i + 1;
        }
        proof {
            assert(views(values@) =~= Seq::new(
                bulk_strings@.len(),
                |i: int| ValueView::BulkString(bulk_strings@[i]@),
            ));
        }
        self.is(Value::Array(Array::new(values)))
    }

    /// The value that the response is.
    pub fn into_value(self) -> (r: Value)
        ensures
            r@ == self@,
    {
        self.0
    }
}

/// Why a session did not yield a request or a response.
#[derive(Debug, Clone, Copy, PartialEq, Eq, Structural)]
pub enum SessionError {
    /// The peer sent nothing where a response was due.
    NoResponse,
    /// What the peer sent is no frame.
    Decode(DecodeError),
}

/// Where a connection stands.
#[derive(Debug, Clone, Copy, PartialEq, Eq, Structural)]
pub enum SessionState {
    /// A chunk is being read from the peer.
    Reading,
    /// A command was decoded and is on its way into the engine's queue.
    Decoded,
    /// The command is queued; its reply is awaited.
    AwaitingReply,
    /// The reply is being written to the peer.
    Writing,
    /// The connection is over.
    Closed,
}

/// Why a connection is over.
#[derive(Debug, PartialEq, Eq)]
pub enum CloseReason {
    /// The peer closed the connection: a read gave no bytes.
    PeerClosed,
    /// Reading, queuing, waiting or writing failed.
    Failed,
    /// What was read is no command. The peer gets no reply to it.
    Rejected(ParseCommandError),
    /// Something happened out of turn, or after the connection was over.
    OutOfTurn,
}

/// What happened on a connection.
#[derive(Debug, PartialEq, Eq)]
pub enum SessionEvent {
    /// A chunk was read; an empty one means that the peer closed.
    Read(Vec<u8>),
    /// The command was taken into the engine's queue.
    Queued,
    /// The engine replied.
    Replied(Value),
    /// The reply was written.
    Written,
    /// Reading, queuing, waiting or writing failed.
    Failed,
}

/// What to do next on a connection.
#[derive(Debug, PartialEq, Eq)]
pub enum SessionAction {
    /// Read a chunk from the peer.
    Read,
    /// Put the command into the engine's queue, waiting for room if the
    /// queue is full.
    Queue(Command),
    /// Wait for the engine's reply.
    Await,
    /// Write the bytes to the peer.
    Write(Vec<u8>),
    /// End the connection.
    Close(CloseReason),
}

/// What a connection does with the bytes `pending` that it has read and not
/// yet used. While they are the beginning of a frame of which more is to
/// come, the connection keeps them and reads on. Else the frame that they
/// start with is taken from them and read as a command, which goes to the
/// queue; what follows the frame is kept for the next request. Bytes that
/// start with no frame, or with a frame that is no command, end the
/// connection.
pub open spec fn next_request_spec(
    pending: Seq<u8>,
    after: SessionState,
    kept: Seq<u8>,
    action: SessionAction,
) -> bool {
    if incomplete_spec(pending) {
        after == SessionState::Reading && kept == pending && action is Read
    } else {
        match parse_spec(pending) {
            Ok(command) => {
                &&& after == SessionState::Decoded
                &&& decode_spec(pending) matches Ok((_, used))
                &&& kept == pending.skip(used)
                &&& action matches SessionAction::Queue(c)
                &&& c@ == command
            },
            Err(e) => {
                &&& after == SessionState::Closed
                &&& kept == pending
                &&& action matches SessionAction::Close(CloseReason::Rejected(x))
                &&& x@ == e
            },
        }
    }
}

/// What `event` leads to on a connection in the state `before` that holds
/// the unused bytes `pending`: the state `after`, the unused bytes `kept`,
/// and the action `action`. In turn come chunks while reading, the queue's
/// acceptance once a command is decoded, the reply while it is awaited, and
/// the end of the write while writing. A chunk is added to the unused bytes,
/// so that a frame may come in several chunks, and several frames in one.
/// After a write, the next request is taken from the unused bytes, and the
/// connection reads only where they do not hold one. An empty chunk, a
/// failure, or anything out of turn ends the connection.
pub open spec fn session_step_spec(
    before: SessionState,
    pending: Seq<u8>,
    event: SessionEvent,
    after: SessionState,
    kept: Seq<u8>,
    action: SessionAction,
) -> bool {
    match (before, event) {
        (SessionState::Closed, _) => {
            &&& after == SessionState::Closed
            &&& kept == pending
            &&& action matches SessionAction::Close(CloseReason::OutOfTurn)
        },
        (_, SessionEvent::Failed) => {
            &&& after == SessionState::Closed
            &&& kept == pending
            &&& action matches SessionAction::Close(CloseReason::Failed)
        },
        (SessionState::Reading, SessionEvent::Read(chunk)) => {
            if chunk@.len() == 0 {
                &&& after == SessionState::Closed
                &&& kept == pending
                &&& action matches SessionAction::Close(CloseReason::PeerClosed)
            } else {
                next_request_spec(pending + chunk@, after, kept, action)
            }
        },
        (SessionState::Decoded, SessionEvent::Queued) => {
            after == SessionState::AwaitingReply && kept == pending && action is Await
        },
        (SessionState::AwaitingReply, SessionEvent::Replied(reply)) => {
            &&& after == SessionState::Writing
            &&& kept == pending
            &&& action matches SessionAction::Write(bytes)
            &&& bytes@ == encode_spec(reply@)
        },
        (SessionState::Writing, SessionEvent::Written) => {
            next_request_spec(pending, after, kept, action)
        },
        _ => {
            &&& after == SessionState::Closed
            &&& kept == pending
            &&& action matches SessionAction::Close(CloseReason::OutOfTurn)
        },
    }
}

/// One connection.
#[derive(Debug)]
pub struct Session {
    state: SessionState,
    buffer: Vec<u8>,
}

impl Session {
    /// Where the connection stands.
    pub closed spec fn state_spec(&self) -> SessionState {
        self.state
    }

    /// The bytes that were read and belong to no request yet.
    pub closed spec fn pending_spec(&self) -> Seq<u8> {
        self.buffer@
    }

    /// A connection that was just accepted: it is reading, and has read
    /// nothing.
    pub fn new() -> (r: Self)
        ensures
            r.state_spec() == SessionState::Reading,
            r.pending_spec() == Seq::<u8>::empty(),
    {
        Session { state: SessionState::Reading, buffer: Vec::new() }
    }

    /// Where the connection stands.
    pub fn state(&self) -> (r: SessionState)
        ensures
            r == self.state_spec(),
    {
        self.state
    }

    /// The bytes that were read and belong to no request yet.
    pub fn pending(&self) -> (r: &[u8])
        ensures
            r@ == self.pending_spec(),
    {
        self.buffer.as_slice()
    }

    /// Takes the next request from the unused bytes, if they hold one.
    fn next_request(&mut self) -> (action: SessionAction)
        ensures
            next_request_spec(
                old(self).pending_spec(),
                final(self).state_spec(),
                final(self).pending_spec(),
                action,
            ),
    {
        if Value::is_incomplete(self.buffer.as_slice()) {
            self.state = SessionState::Reading;
            return SessionAction::Read;
        }
        let (value, used) = match Value::decode_with_len(self.buffer.as_slice()) {
            Ok(pair) => pair,
            Err(e) => {
                self.state = SessionState::Closed;
                return SessionAction::Close(
                    CloseReason::Rejected(ParseCommandError::Decode(e)),
                );
            },
        };
        match Command::try_from(value) {
            Ok(command) => {
                let rest = self.buffer.split_off(used);
                proof {
                    assert(rest@ =~= old(self).pending_spec().skip(used as int));
                }
                self.buffer = rest;
                self.state = SessionState::Decoded;
                SessionAction::Queue(command)
            },
            Err(e) => {
                self.state = SessionState::Closed;
                SessionAction::Close(CloseReason::Rejected(e))
            },
        }
    }

    /// Takes note of `event` and tells what to do next.
    pub fn step(&mut self, event: SessionEvent) -> (action: SessionAction)
        ensures
            session_step_spec(
                old(self).state_spec(),
                old(self).pending_spec(),
                event,
                final(self).state_spec(),
                final(self).pending_spec(),
                action,
            ),
    {
        let before = self.state;
        match (before, event) {
            (SessionState::Closed, _) => {
                SessionAction::Close(CloseReason::OutOfTurn)
            },
            (_, SessionEvent::Failed) => {
                self.state = SessionState::Closed;
                SessionAction::Close(CloseReason::Failed)
            },
            (SessionState::Reading, SessionEvent::Read(chunk)) => {
                if chunk.len() == 0 {
                    self.state = SessionState::Closed;
                    SessionAction::Close(CloseReason::PeerClosed)
                } else {
                    push_bytes(&mut self.buffer, chunk.as_slice());
                    self.next_request()
                }
            },
            (SessionState::Decoded, SessionEvent::Queued) => {
                self.state = SessionState::AwaitingReply;
                SessionAction::Await
            },
            (SessionState::AwaitingReply, SessionEvent::Replied(reply)) => {
                self.state = SessionState::Writing;
                SessionAction::Write(encode_value(&reply))
            },
            (SessionState::Writing, SessionEvent::Written) => {
                self.next_request()
            },
            _ => {
                self.state = SessionState::Closed;
                SessionAction::Close(CloseReason::OutOfTurn)
            },
        }
    }

    /// Reads what a server was sent: no request where the chunk is empty,
    /// for the peer has closed; else the request that the chunk starts with.
    pub fn receive_request(chunk: &[u8]) -> (r: Result<Option<Request>, SessionError>)
        ensures
            chunk@.len() == 0 ==> r matches Ok(None),
            chunk@.len() > 0 ==> match decode_spec(chunk@) {
                Ok((v, _)) => r matches Ok(Some(request)) && request@ == v,
                Err(e) => r == Err::<Option<Request>, SessionError>(SessionError::Decode(e)),
            },
    {
        if chunk.len() == 0 {
            return Ok(None);
        }
        match Request::decode(chunk) {
            Ok(request) => Ok(Some(request)),
            Err(e) => Err(SessionError::Decode(e)),
        }
    }

    /// Reads what a client was sent in reply: an empty chunk is no response;
    /// else the response that the chunk starts with.
    pub fn receive_response(chunk: &[u8]) -> (r: Result<Response, SessionError>)
        ensures
            chunk@.len() == 0 ==> r == Err::<Response, SessionError>(SessionError::NoResponse),
            chunk@.len() > 0 ==> match decode_spec(chunk@) {
                Ok((v, _)) => r matches Ok(response) && response@ == v,
                Err(e) => r == Err::<Response, SessionError>(SessionError::Decode(e)),
            },
    {
        if chunk.len() == 0 {
            return Err(SessionError::NoResponse);
        }
        match Response::decode(chunk) {
            Ok(response) => Ok(response),
            Err(e) => Err(SessionError::Decode(e)),
        }
    }
}

/// A connection takes a command into the queue only as it reads or has just
/// written, and goes on to the next request only after the reply to the one
/// before was written: it never has two requests in flight.
pub proof fn lemma_one_request_in_flight(
    before: SessionState,
    pending: Seq<u8>,
    event: SessionEvent,
    after: SessionState,
    kept: Seq<u8>,
    action: SessionAction,
)
    requires
        session_step_spec(before, pending, event, after, kept, action),
    ensures
        action is Queue ==> (before == SessionState::Reading || before == SessionState::Writing)
            && after == SessionState::Decoded,
        after == SessionState::Decoded ==> action is Queue,
        after == SessionState::Reading ==> action is Read && (before == SessionState::Reading
            || before == SessionState::Writing),
        after == SessionState::Writing ==> before == SessionState::AwaitingReply,
        after == SessionState::AwaitingReply ==> before == SessionState::Decoded,
        before == SessionState::Closed ==> after == SessionState::Closed,
{
}

/// A frame that comes in two chunks is put together: after the first chunk
/// the connection keeps it and reads on, and after the second it does what
/// it does with the whole frame in one chunk.
pub proof fn lemma_frame_in_two_chunks(
    v: ValueView,
    k: int,
    first: SessionEvent,
    middle: SessionState,
    held: Seq<u8>,
    first_action: SessionAction,
    second: SessionEvent,
    after: SessionState,
    kept: Seq<u8>,
    action: SessionAction,
)
    requires
        well_formed(v),
        0 < k < encode_spec(v).len(),
        first matches SessionEvent::Read(chunk) && chunk@ == encode_spec(v).take(k),
        second matches SessionEvent::Read(chunk) && chunk@ == encode_spec(v).skip(k),
        session_step_spec(
            SessionState::Reading,
            Seq::empty(),
            first,
            middle,
            held,
            first_action,
        ),
        session_step_spec(middle, held, second, after, kept, action),
    ensures
        middle == SessionState::Reading,
        held == encode_spec(v).take(k),
        first_action is Read,
        next_request_spec(encode_spec(v), after, kept, action),
        decode_spec(encode_spec(v)) == Ok::<(ValueView, int), DecodeError>(
            (v, encode_spec(v).len() as int),
        ),
        !incomplete_spec(encode_spec(v)),
{
    let s = encode_spec(v);
    lemma_prefix_is_incomplete(v, k);
    lemma_decode_encode(v);
    lemma_whole_is_not_incomplete(s);
    assert(Seq::<u8>::empty() + s.take(k) =~= s.take(k));
    assert(s.take(k) + s.skip(k) =~= s);
}

} // verus!
