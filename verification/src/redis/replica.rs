//! The handshake of a replica with its master.
//!
//! Once, at startup, a replica connects to its master and sends three
//! commands, each after the reply to the one before: `PING`, which must be
//! answered with `PONG`; `REPLCONF listening-port <port>` and `REPLCONF capa
//! psync2`, which must each be answered with `OK`. Any other reply, and any
//! failure, ends the handshake for good. Connecting, sending and waiting are
//! done by whoever drives the handshake; what to do next is decided by
//! [`Replication::step`].

use crate::redis::client::ClientError;
use crate::redis::cmd::ping::{Ping, PingArg};
use crate::redis::cmd::replconf::{ReplConf, ReplConfArg, ReplConfArgConfig};
use crate::decimal::lemma_nat_to_digits_len;
use crate::redis::cmd::inverse::lemma_parse_command_value;
use crate::redis::cmd::{
    command_value_spec, parse_spec, word, CommandView, ParseCommandErrorView, ReplConfView,
};
use crate::redis::handler::{execute_spec, EngineView};
use crate::redis::roundtrip::{lemma_decimal_is_plain, lemma_decode_encode, well_formed};
use crate::redis::session::{Request, Response, SessionError};
use crate::redis::wire::{encode_spec, ValueView};
use vstd::prelude::*;
use vstd::string::StringExecFns;

verus! {

/// Why the handshake failed.
#[derive(Debug, Clone, Copy, PartialEq, Eq, Structural)]
pub enum ReplicationError {
    /// The master could not be reached, or did not answer `PING` with
    /// `PONG`.
    CannotConnectMaster,
    /// The master did not acknowledge a setting.
    Client(ClientError),
}

/// How far the handshake has come.
#[derive(Debug, Clone, Copy, PartialEq, Eq, Structural)]
pub enum HandshakeState {
    /// Nothing has happened yet.
    Disconnected,
    /// The connection is open, and `PING` is sent.
    Connected,
    /// `PONG` came, and the listening port is sent.
    PongReceived,
    /// The listening port was acknowledged, and the capability is sent.
    ListeningPortAcked,
    /// The capability was acknowledged.
    CapabilitiesAcked,
    /// The handshake is done.
    HandshakeComplete,
    /// The handshake failed.
    Failed,
}

/// What happened in the handshake.
#[derive(Debug, PartialEq, Eq)]
pub enum HandshakeEvent {
    /// The connection to the master is open.
    Connected,
    /// The session with the master yielded a response, or failed to.
    Replied(Result<Response, SessionError>),
    /// Connecting, sending or waiting failed.
    Failed,
}

/// What to do next in the handshake.
#[derive(Debug, PartialEq, Eq)]
pub enum HandshakeAction {
    /// Open a connection to the master.
    Connect,
    /// Send the request and wait for the response.
    Send(Request),
    /// Nothing more: the handshake is done.
    Done,
    /// Nothing more: the handshake failed, or was over already.
    Abort(ReplicationError),
}

/// The command that is sent on reaching `state`, if one is.
pub open spec fn request_spec(state: HandshakeState, listening_port: u16) -> Option<CommandView> {
    match state {
        HandshakeState::Connected => Some(CommandView::Ping { msg: None }),
        HandshakeState::PongReceived => Some(
            CommandView::ReplConf { config: ReplConfView::ListeningPort(listening_port) },
        ),
        HandshakeState::ListeningPortAcked => Some(
            CommandView::ReplConf { config: ReplConfView::Capabilities("psync2"@) },
        ),
        _ => None,
    }
}

/// Whether the master's reply is the one that the handshake needs in
/// `state`.
pub open spec fn reply_expected(state: HandshakeState, reply: ValueView) -> bool {
    match state {
        HandshakeState::Connected => reply == ValueView::SimpleString("PONG"@),
        HandshakeState::PongReceived => reply == ValueView::SimpleString("OK"@),
        HandshakeState::ListeningPortAcked => reply == ValueView::SimpleString("OK"@),
        _ => false,
    }
}

/// What happened in the handshake, as mathematics.
pub enum HandshakeEventView {
    Connected,
    Replied(Result<ValueView, SessionError>),
    Failed,
}

impl View for HandshakeEvent {
    type V = HandshakeEventView;

    open spec fn view(&self) -> HandshakeEventView {
        match self {
            HandshakeEvent::Connected => HandshakeEventView::Connected,
            HandshakeEvent::Replied(Ok(response)) => HandshakeEventView::Replied(Ok(response@)),
            HandshakeEvent::Replied(Err(e)) => HandshakeEventView::Replied(Err(*e)),
            HandshakeEvent::Failed => HandshakeEventView::Failed,
        }
    }
}

/// The state that `event` leads to from `state`. The connection opens the
/// handshake; after that, the reply that the state needs leads one state
/// on, and the acknowledgement of the capability completes the handshake.
/// Everything else leads to failure, and nothing leads out of failure or
/// out of completion.
pub open spec fn next_state_spec(state: HandshakeState, event: HandshakeEventView) -> HandshakeState {
    match (state, event) {
        (HandshakeState::HandshakeComplete, _) => HandshakeState::HandshakeComplete,
        (HandshakeState::Disconnected, HandshakeEventView::Connected) => HandshakeState::Connected,
        (HandshakeState::Connected, HandshakeEventView::Replied(Ok(reply))) => {
            if reply_expected(state, reply) {
                HandshakeState::PongReceived
            } else {
                HandshakeState::Failed
            }
        },
        (HandshakeState::PongReceived, HandshakeEventView::Replied(Ok(reply))) => {
            if reply_expected(state, reply) {
                HandshakeState::ListeningPortAcked
            } else {
                HandshakeState::Failed
            }
        },
        (HandshakeState::ListeningPortAcked, HandshakeEventView::Replied(Ok(reply))) => {
            if reply_expected(state, reply) {
                completed_spec(HandshakeState::CapabilitiesAcked)
            } else {
                HandshakeState::Failed
            }
        },
        (HandshakeState::CapabilitiesAcked, _) => completed_spec(state),
        _ => HandshakeState::Failed,
    }
}

/// Once the capability is acknowledged, nothing is left to wait for: the
/// handshake is complete.
pub open spec fn completed_spec(state: HandshakeState) -> HandshakeState {
    if state == HandshakeState::CapabilitiesAcked {
        HandshakeState::HandshakeComplete
    } else {
        state
    }
}

/// The error with which the handshake fails when `event` comes in `state`
/// and leads to failure. Up to the answer to `PING`, the master counts as
/// unreachable. After that, a reply that is no acknowledgement is an
/// invalid response, a session without a response is passed on, and a
/// failure of the transport, or an event out of turn, counts as an
/// unreachable master.
pub open spec fn failure_spec(state: HandshakeState, event: HandshakeEventView) -> ReplicationError {
    match (state, event) {
        (HandshakeState::PongReceived, HandshakeEventView::Replied(Ok(_))) => ReplicationError::Client(
            ClientError::InvalidResponse,
        ),
        (HandshakeState::PongReceived, HandshakeEventView::Replied(Err(e))) => ReplicationError::Client(
            ClientError::Session(e),
        ),
        (
            HandshakeState::ListeningPortAcked,
            HandshakeEventView::Replied(Ok(_)),
        ) => ReplicationError::Client(ClientError::InvalidResponse),
        (
            HandshakeState::ListeningPortAcked,
            HandshakeEventView::Replied(Err(e)),
        ) => ReplicationError::Client(ClientError::Session(e)),
        _ => ReplicationError::CannotConnectMaster,
    }
}

/// What `event` leads to from `before`: the state `after` and the action
/// `action`. The action sends the command of the new state, reports
/// completion, or aborts with the error of the failure.
pub open spec fn handshake_step_spec(
    before: HandshakeState,
    listening_port: u16,
    event: HandshakeEventView,
    after: HandshakeState,
    action: HandshakeAction,
) -> bool {
    &&& after == next_state_spec(before, event)
    &&& match after {
        HandshakeState::HandshakeComplete => action is Done,
        HandshakeState::Failed => action matches HandshakeAction::Abort(e) && e == failure_spec(
            before,
            event,
        ),
        _ => {
            &&& request_spec(after, listening_port) matches Some(command)
            &&& action matches HandshakeAction::Send(request)
            &&& request@ == command_value_spec(command)
        },
    }
}

/// The handshake of one replica.
#[derive(Debug)]
pub struct Replication {
    state: HandshakeState,
    listening_port: u16,
}

impl Replication {
    /// How far the handshake has come.
    pub closed spec fn state_spec(&self) -> HandshakeState {
        self.state
    }

    /// The port that the replica announces.
    pub closed spec fn port_spec(&self) -> u16 {
        self.listening_port
    }

    /// The handshake of a replica that listens on `listening_port`, before
    /// anything has happened. The first thing to do is to connect.
    pub fn new(listening_port: u16) -> (r: (Self, HandshakeAction))
        ensures
            r.0.state_spec() == HandshakeState::Disconnected,
            r.0.port_spec() == listening_port,
            r.1 is Connect,
    {
        (Replication { state: HandshakeState::Disconnected, listening_port }, HandshakeAction::Connect)
    }

    /// How far the handshake has come.
    pub fn state(&self) -> (r: HandshakeState)
        ensures
            r == self.state_spec(),
    {
        self.state
    }

    /// Tells whether the handshake is done.
    pub fn is_complete(&self) -> (r: bool)
        ensures
            r == (self.state_spec() == HandshakeState::HandshakeComplete),
    {
        self.state == HandshakeState::HandshakeComplete
    }

    /// Goes on from the acknowledgement of the capability to the end of the
    /// handshake; every other state is left as it is.
    fn completed(state: HandshakeState) -> (r: HandshakeState)
        ensures
            r == completed_spec(state),
    {
        match state {
            HandshakeState::CapabilitiesAcked => HandshakeState::HandshakeComplete,
            other => other,
        }
    }

    /// Takes note of `event` and tells what to do next.
    pub fn step(&mut self, event: HandshakeEvent) -> (action: HandshakeAction)
        ensures
            final(self).port_spec() == old(self).port_spec(),
            handshake_step_spec(
                old(self).state_spec(),
                old(self).port_spec(),
                event@,
                final(self).state_spec(),
                action,
            ),
    {
        let before = self.state;
        match (before, event) {
            (HandshakeState::HandshakeComplete, _) => HandshakeAction::Done,
            (HandshakeState::CapabilitiesAcked, _) => {
                self.state = Self::completed(before);
                HandshakeAction::Done
            },
            (HandshakeState::Disconnected, HandshakeEvent::Connected) => {
                self.state = HandshakeState::Connected;
                HandshakeAction::Send(Ping::client().request(&PingArg { msg: None }))
            },
            (HandshakeState::Connected, HandshakeEvent::Replied(outcome)) => {
                match Ping::client().accept(&PingArg { msg: None }, outcome) {
                    Ok(_) => {
                        self.state = HandshakeState::PongReceived;
                        let arg = ReplConfArg {
                            config: ReplConfArgConfig::ListeningPort(self.listening_port),
                        };
                        HandshakeAction::Send(ReplConf::client().request(&arg))
                    },
                    Err(_) => {
                        self.state = HandshakeState::Failed;
                        HandshakeAction::Abort(ReplicationError::CannotConnectMaster)
                    },
                }
            },
            (HandshakeState::PongReceived, HandshakeEvent::Replied(outcome)) => {
                match ReplConf::client().accept(outcome) {
                    Ok(_) => {
                        self.state = HandshakeState::ListeningPortAcked;
                        let arg = ReplConfArg {
                            config: ReplConfArgConfig::Capabilities(String::from_str("psync2")),
                        };
                        HandshakeAction::Send(ReplConf::client().request(&arg))
                    },
                    Err(e) => {
                        self.state = HandshakeState::Failed;
                        HandshakeAction::Abort(ReplicationError::Client(e))
                    },
                }
            },
            (HandshakeState::ListeningPortAcked, HandshakeEvent::Replied(outcome)) => {
                match ReplConf::client().accept(outcome) {
                    Ok(_) => {
                        self.state = Self::completed(HandshakeState::CapabilitiesAcked);
                        HandshakeAction::Done
                    },
                    Err(e) => {
                        self.state = HandshakeState::Failed;
                        HandshakeAction::Abort(ReplicationError::Client(e))
                    },
                }
            },
            _ => {
                self.state = HandshakeState::Failed;
                HandshakeAction::Abort(ReplicationError::CannotConnectMaster)
            },
        }
    }
}

/// The state that the events `events` lead to from `state`, one after the
/// other.
pub open spec fn run_spec(state: HandshakeState, events: Seq<HandshakeEventView>) -> HandshakeState
    decreases events.len(),
{
    if events.len() == 0 {
        state
    } else {
        next_state_spec(run_spec(state, events.drop_last()), events.last())
    }
}

/// The events of a handshake in which the connection opens and the master
/// then sends the replies `replies`, one to each request.
pub open spec fn replies_spec(replies: Seq<ValueView>) -> Seq<HandshakeEventView> {
    seq![HandshakeEventView::Connected] + Seq::new(
        replies.len(),
        |i: int| HandshakeEventView::Replied(Ok(replies[i])),
    )
}

/// The reply that the handshake needs to its request number `step`, counted
/// from zero: `PONG`, then `OK` twice.
pub open spec fn expected_reply_spec(step: int) -> ValueView {
    if step == 0 {
        ValueView::SimpleString("PONG"@)
    } else {
        ValueView::SimpleString("OK"@)
    }
}

/// The state of a handshake that has had the expected reply to each of its
/// first `steps` requests.
pub open spec fn state_after_spec(steps: int) -> HandshakeState {
    if steps <= 0 {
        HandshakeState::Connected
    } else if steps == 1 {
        HandshakeState::PongReceived
    } else if steps == 2 {
        HandshakeState::ListeningPortAcked
    } else {
        HandshakeState::HandshakeComplete
    }
}

/// While the master sends what is expected, the handshake goes on, state
/// by state.
pub proof fn lemma_handshake_progress(replies: Seq<ValueView>)
    requires
        replies.len() <= 3,
        forall|i: int| 0 <= i < replies.len() ==> replies[i] == expected_reply_spec(i),
    ensures
        run_spec(HandshakeState::Disconnected, replies_spec(replies)) == state_after_spec(
            replies.len() as int,
        ),
    decreases replies.len(),
{
    let events = replies_spec(replies);
    if replies.len() == 0 {
        assert(events.len() == 1);
        assert(events.last() == HandshakeEventView::Connected);
        assert(events.drop_last() =~= Seq::<HandshakeEventView>::empty());
        assert(run_spec(HandshakeState::Disconnected, events.drop_last())
            == HandshakeState::Disconnected);
    } else {
        let shorter = replies.drop_last();
        let n = replies.len() - 1;
        assert forall|i: int| 0 <= i < shorter.len() implies shorter[i] == expected_reply_spec(
            i,
        ) by {
            assert(shorter[i] == replies[i]);
        }
        lemma_handshake_progress(shorter);
        assert(events.drop_last() =~= replies_spec(shorter));
        assert(events.last() == HandshakeEventView::Replied(
            Ok::<ValueView, SessionError>(replies[n]),
        ));
        assert(replies[n] == expected_reply_spec(n));
        assert(run_spec(HandshakeState::Disconnected, events.drop_last()) == state_after_spec(n));
    }
}

/// A master that answers `PONG`, `OK`, `OK` completes the handshake.
pub proof fn lemma_handshake_completes()
    ensures
        run_spec(
            HandshakeState::Disconnected,
            replies_spec(
                seq![
                    ValueView::SimpleString("PONG"@),
                    ValueView::SimpleString("OK"@),
                    ValueView::SimpleString("OK"@),
                ],
            ),
        ) == HandshakeState::HandshakeComplete,
{
    lemma_handshake_progress(
        seq![
            ValueView::SimpleString("PONG"@),
            ValueView::SimpleString("OK"@),
            ValueView::SimpleString("OK"@),
        ],
    );
}

/// Nothing leads out of failure, and in failure nothing is sent.
pub proof fn lemma_failure_is_final(events: Seq<HandshakeEventView>, listening_port: u16)
    ensures
        run_spec(HandshakeState::Failed, events) == HandshakeState::Failed,
        request_spec(HandshakeState::Failed, listening_port) is None,
    decreases events.len(),
{
    if events.len() > 0 {
        lemma_failure_is_final(events.drop_last(), listening_port);
    }
}

/// A master that answers anything else than what is expected to the request
/// number `step` makes the handshake fail at exactly that step: it had not
/// failed before, it has failed then, and whatever the master sends after
/// that, the handshake stays failed and sends nothing more.
pub proof fn lemma_handshake_fails_at(replies: Seq<ValueView>, step: int)
    requires
        0 <= step < replies.len(),
        step < 3,
        forall|i: int| 0 <= i < step ==> replies[i] == expected_reply_spec(i),
        replies[step] != expected_reply_spec(step),
    ensures
        run_spec(HandshakeState::Disconnected, replies_spec(replies.take(step)))
            == state_after_spec(step),
        run_spec(HandshakeState::Disconnected, replies_spec(replies.take(step + 1)))
            == HandshakeState::Failed,
        run_spec(HandshakeState::Disconnected, replies_spec(replies)) == HandshakeState::Failed,
        forall|port: u16| request_spec(HandshakeState::Failed, port) is None,
{
    let good = replies.take(step);
    lemma_handshake_progress(good);
    let upto = replies.take(step + 1);
    let events = replies_spec(upto);
    assert(events.drop_last() =~= replies_spec(good));
    assert(events.last() == HandshakeEventView::Replied(
        Ok::<ValueView, SessionError>(replies[step]),
    ));
    assert(run_spec(HandshakeState::Disconnected, events) == HandshakeState::Failed);
    lemma_run_split(HandshakeState::Disconnected, replies_spec(replies), step + 2);
    assert(replies_spec(replies).take(step + 2) =~= events);
    lemma_failure_is_final(replies_spec(replies).skip(step + 2), 0);
}

/// Running events is running the first `k` of them and then the others.
pub proof fn lemma_run_split(state: HandshakeState, events: Seq<HandshakeEventView>, k: int)
    requires
        0 <= k <= events.len(),
    ensures
        run_spec(state, events) == run_spec(run_spec(state, events.take(k)), events.skip(k)),
    decreases events.len(),
{
    if k == events.len() {
        assert(events.take(k) =~= events);
        assert(events.skip(k).len() == 0);
    } else {
        lemma_run_split(state, events.drop_last(), k);
        assert(events.drop_last().take(k) =~= events.take(k));
        assert(events.drop_last().skip(k) =~= events.skip(k).drop_last());
        assert(events.skip(k).last() == events.last());
    }
}

/// A text of ASCII characters can be sent as a bulk string.
proof fn lemma_word_is_well_formed(text: Seq<char>)
    requires
        vstd::utf8::is_ascii_chars(text),
        text.len() <= i64::MAX,
    ensures
        well_formed(word(text)),
{
    broadcast use vstd::utf8::is_ascii_chars_encode_utf8;

}

/// Every request of the handshake can be sent.
proof fn lemma_requests_are_well_formed(state: HandshakeState, listening_port: u16)
    requires
        request_spec(state, listening_port) is Some,
    ensures
        well_formed(command_value_spec(request_spec(state, listening_port)->0)),
{
    reveal_strlit("PING");
    reveal_strlit("REPLCONF");
    reveal_strlit("listening-port");
    reveal_strlit("capa");
    reveal_strlit("psync2");
    lemma_word_is_well_formed("PING"@);
    lemma_word_is_well_formed("REPLCONF"@);
    lemma_word_is_well_formed("listening-port"@);
    lemma_word_is_well_formed("capa"@);
    lemma_word_is_well_formed("psync2"@);
    lemma_decimal_is_plain(listening_port as int);
    lemma_nat_to_digits_len(listening_port as nat);
    let value = command_value_spec(request_spec(state, listening_port)->0);
    match value {
        ValueView::Array(Some(values)) => {
            assert forall|i: int| 0 <= i < values.len() implies well_formed(
                #[trigger] values[i],
            ) by {}
        },
        _ => {},
    }
}

/// What the replica sends is what the master reads: the bytes of every
/// request of the handshake parse as the command that the request is for.
pub proof fn lemma_requests_are_read(state: HandshakeState, listening_port: u16)
    requires
        request_spec(state, listening_port) is Some,
    ensures
        parse_spec(encode_spec(command_value_spec(request_spec(state, listening_port)->0)))
            == Ok::<CommandView, ParseCommandErrorView>(request_spec(state, listening_port)->0),
{
    let command = request_spec(state, listening_port)->0;
    lemma_requests_are_well_formed(state, listening_port);
    lemma_decode_encode(command_value_spec(command));
    lemma_parse_command_value(command);
}

/// A master that carries out the requests with this library's engine
/// completes the handshake: its replies to the three requests, whatever its
/// store holds and whatever time it is, lead from the open connection to
/// completion.
pub proof fn lemma_engine_completes_handshake(
    master: EngineView,
    listening_port: u16,
    first_time: u64,
    second_time: u64,
    third_time: u64,
)
    ensures
        ({
            let ping = request_spec(HandshakeState::Connected, listening_port)->0;
            let port = request_spec(HandshakeState::PongReceived, listening_port)->0;
            let capa = request_spec(HandshakeState::ListeningPortAcked, listening_port)->0;
            let (after_ping, first) = execute_spec(master, ping, first_time);
            let (after_port, second) = execute_spec(after_ping, port, second_time);
            let (after_capa, third) = execute_spec(after_port, capa, third_time);
            &&& after_capa == master
            &&& run_spec(HandshakeState::Disconnected, replies_spec(seq![first, second, third]))
                == HandshakeState::HandshakeComplete
        }),
{
    lemma_handshake_completes();
}

} // verus!
