use resp_kv::redis::client::ClientError;
use resp_kv::redis::cmd::{
    Command, Echo, EchoArg, GetArg, Ping, PingArg, ReplConf, ReplConfArg, ReplConfArgConfig,
    ParseCommandError,
};
use resp_kv::redis::handler::{CommandHandler, CommandHandlerConfig};
use resp_kv::redis::resp::{Array, BulkString, DecodeError, Value};
use resp_kv::redis::session::{
    CloseReason, Request, Response, Session, SessionAction, SessionError, SessionEvent,
    SessionState,
};
use resp_kv::redis::store::Store;

fn engine() -> CommandHandler {
    CommandHandler::new(
        Store::new(),
        CommandHandlerConfig { is_replica: false, master_repl_id_and_offset: None },
    )
}

/// Drives one request through a connection and the engine, as a server
/// does, and gives the bytes written back.
fn serve(session: &mut Session, engine: &mut CommandHandler, input: &[u8]) -> Vec<u8> {
    assert_eq!(session.state(), SessionState::Reading);
    let command = match session.step(SessionEvent::Read(input.to_vec())) {
        SessionAction::Queue(command) => command,
        other => panic!("expected a command, got {:?}", other),
    };
    assert_eq!(session.state(), SessionState::Decoded);
    assert_eq!(session.step(SessionEvent::Queued), SessionAction::Await);
    assert_eq!(session.state(), SessionState::AwaitingReply);
    let reply = engine.handle(command).unwrap();
    let bytes = match session.step(SessionEvent::Replied(reply)) {
        SessionAction::Write(bytes) => bytes,
        other => panic!("expected a write, got {:?}", other),
    };
    assert_eq!(session.state(), SessionState::Writing);
    assert_eq!(session.step(SessionEvent::Written), SessionAction::Read);
    bytes
}

#[test]
fn end_to_end_ping() {
    let mut session = Session::new();
    let mut engine = engine();
    assert_eq!(serve(&mut session, &mut engine, b"*1\r\n$4\r\nPING\r\n"), b"+PONG\r\n".to_vec());
}

#[test]
fn end_to_end_set_then_get() {
    let mut session = Session::new();
    let mut engine = engine();
    assert_eq!(
        serve(&mut session, &mut engine, b"*3\r\n$3\r\nSET\r\n$3\r\nfoo\r\n$3\r\nbar\r\n"),
        b"+OK\r\n".to_vec()
    );
    assert_eq!(
        serve(&mut session, &mut engine, b"*2\r\n$3\r\nGET\r\n$3\r\nfoo\r\n"),
        b"$3\r\nbar\r\n".to_vec()
    );
    assert_eq!(
        serve(&mut session, &mut engine, b"*2\r\n$3\r\nGET\r\n$3\r\nzzz\r\n"),
        b"$-1\r\n".to_vec()
    );
}

#[test]
fn end_to_end_ping_with_message_and_echo() {
    let mut session = Session::new();
    let mut engine = engine();
    assert_eq!(
        serve(&mut session, &mut engine, b"*2\r\n$4\r\nPING\r\n$5\r\nhello\r\n"),
        b"*2\r\n$4\r\nPONG\r\n$5\r\nhello\r\n".to_vec()
    );
    assert_eq!(
        serve(&mut session, &mut engine, b"*2\r\n$4\r\nECHO\r\n$4\r\nYEET\r\n"),
        b"$4\r\nYEET\r\n".to_vec()
    );
}

#[test]
fn what_one_connection_sets_another_gets() {
    let mut first = Session::new();
    let mut second = Session::new();
    let mut engine = engine();
    serve(&mut first, &mut engine, b"*3\r\n$3\r\nSET\r\n$1\r\nk\r\n$1\r\nv\r\n");
    assert_eq!(
        serve(&mut second, &mut engine, b"*2\r\n$3\r\nGET\r\n$1\r\nk\r\n"),
        b"$1\r\nv\r\n".to_vec()
    );
}

#[test]
fn an_empty_read_closes_the_connection() {
    let mut session = Session::new();
    assert_eq!(
        session.step(SessionEvent::Read(Vec::new())),
        SessionAction::Close(CloseReason::PeerClosed)
    );
    assert_eq!(session.state(), SessionState::Closed);
}

#[test]
fn bytes_that_are_no_command_close_the_connection_without_a_reply() {
    let mut session = Session::new();
    assert_eq!(
        session.step(SessionEvent::Read(b"*1\r\n$4\r\nNOPE\r\n".to_vec())),
        SessionAction::Close(CloseReason::Rejected(ParseCommandError::InvalidCommand))
    );
    assert_eq!(session.state(), SessionState::Closed);
    let mut session = Session::new();
    assert_eq!(
        session.step(SessionEvent::Read(b"hello".to_vec())),
        SessionAction::Close(CloseReason::Rejected(ParseCommandError::Decode(
            DecodeError::UnknownType { first_byte: b'h' }
        )))
    );
}

#[test]
fn a_failure_closes_the_connection_in_every_state() {
    let mut session = Session::new();
    assert_eq!(session.step(SessionEvent::Failed), SessionAction::Close(CloseReason::Failed));
    let mut session = Session::new();
    session.step(SessionEvent::Read(b"*1\r\n$4\r\nPING\r\n".to_vec()));
    session.step(SessionEvent::Queued);
    assert_eq!(session.step(SessionEvent::Failed), SessionAction::Close(CloseReason::Failed));
    assert_eq!(session.state(), SessionState::Closed);
}

#[test]
fn an_event_out_of_turn_closes_the_connection() {
    let mut session = Session::new();
    assert_eq!(
        session.step(SessionEvent::Written),
        SessionAction::Close(CloseReason::OutOfTurn)
    );
    let mut session = Session::new();
    session.step(SessionEvent::Read(b"*1\r\n$4\r\nPING\r\n".to_vec()));
    assert_eq!(
        session.step(SessionEvent::Read(b"*1\r\n$4\r\nPING\r\n".to_vec())),
        SessionAction::Close(CloseReason::OutOfTurn)
    );
}

#[test]
fn a_closed_connection_stays_closed() {
    let mut session = Session::new();
    session.step(SessionEvent::Read(Vec::new()));
    for event in [
        SessionEvent::Read(b"*1\r\n$4\r\nPING\r\n".to_vec()),
        SessionEvent::Queued,
        SessionEvent::Written,
        SessionEvent::Failed,
    ] {
        assert_eq!(session.step(event), SessionAction::Close(CloseReason::OutOfTurn));
        assert_eq!(session.state(), SessionState::Closed);
    }
}

#[test]
fn requests_and_responses_are_framed_values() {
    let request = Request::new(Ping::command_value(PingArg { msg: None }));
    assert_eq!(request.encode(), b"*1\r\n$4\r\nPING\r\n".to_vec());
    assert_eq!(Request::decode(&request.encode()), Ok(request.clone()));
    assert_eq!(request.as_command(), Ok(Command::Ping(PingArg { msg: None })));
    assert_eq!(
        Request::from(Value::BulkString("x".into())).into_value(),
        Value::BulkString("x".into())
    );
    let response = Response::new(Value::SimpleString("PONG".into()));
    assert_eq!(response.encode(), b"+PONG\r\n".to_vec());
    assert_eq!(Response::decode(b"+PONG\r\n"), Ok(response.clone()));
    assert_eq!(Response::decode(b""), Err(DecodeError::EmptyBytes));
    assert_eq!(
        Request::new(Value::SimpleString("PING".into())).as_command(),
        Err(ParseCommandError::InvalidCommand)
    );
    assert_eq!(
        Response::from(Value::BulkString("x".into())).into_value(),
        Value::BulkString("x".into())
    );
}

#[test]
fn responses_are_compared_by_value() {
    let pong = Response::new(Value::SimpleString("PONG".into()));
    assert!(pong.is(Value::SimpleString("PONG".into())));
    assert!(!pong.is(Value::BulkString("PONG".into())));
    assert!(pong.is_simple_string("PONG"));
    assert!(!pong.is_simple_string("pong"));
    assert!(!pong.is_bulk_string(b"PONG"));
    let bulk = Response::new(Value::BulkString("hi".into()));
    assert!(bulk.is_bulk_string(b"hi"));
    assert!(!bulk.is_bulk_string(b"ho"));
    assert!(!Response::new(Value::BulkString(BulkString::null())).is_bulk_string(b""));
    let array = Response::new(Value::Array(Array::new(vec![
        Value::BulkString("PONG".into()),
        Value::BulkString("hi".into()),
    ])));
    assert!(array.is_bulk_string_array(vec!["PONG".into(), "hi".into()]));
    assert!(!array.is_bulk_string_array(vec!["PONG".into()]));
    assert!(!array.is_bulk_string_array(vec!["hi".into(), "PONG".into()]));
    assert!(Response::new(Value::Array(Array::new(Vec::new()))).is_bulk_string_array(Vec::new()));
    assert!(!Response::new(Value::Array(Array::null())).is_bulk_string_array(Vec::new()));
}

#[test]
fn what_a_read_means_to_a_server_and_to_a_client() {
    assert_eq!(Session::receive_request(b""), Ok(None));
    assert_eq!(
        Session::receive_request(b"*1\r\n$4\r\nPING\r\n"),
        Ok(Some(Request::new(Ping::command_value(PingArg { msg: None }))))
    );
    assert_eq!(
        Session::receive_request(b"*1\r\n"),
        Err(SessionError::Decode(DecodeError::EmptyBytes))
    );
    assert_eq!(Session::receive_response(b""), Err(SessionError::NoResponse));
    assert_eq!(
        Session::receive_response(b"+OK\r\n"),
        Ok(Response::new(Value::SimpleString("OK".into())))
    );
    assert_eq!(
        Session::receive_response(b"+OK"),
        Err(SessionError::Decode(DecodeError::InvalidFormat))
    );
}

#[test]
fn ping_client_accepts_pong() {
    let client = Ping::client();
    let arg = PingArg { msg: None };
    assert_eq!(client.request(&arg).encode(), b"*1\r\n$4\r\nPING\r\n".to_vec());
    let pong = Response::new(Value::SimpleString("PONG".into()));
    assert_eq!(client.accept(&arg, Ok(pong.clone())), Ok(pong));
}

#[test]
fn ping_client_with_message_accepts_pong_and_the_message() {
    let client = Ping::client();
    let msg: BulkString = "Hello".into();
    let arg = PingArg { msg: Some(msg.clone()) };
    let reply = Response::new(Value::Array(
        vec![Value::BulkString("PONG".into()), Value::BulkString(msg.clone())].into(),
    ));
    assert_eq!(client.accept(&arg, Ok(reply.clone())), Ok(reply));
    let pong = Response::new(Value::SimpleString("PONG".into()));
    assert_eq!(client.accept(&arg, Ok(pong)), Err(ClientError::InvalidResponse));
}

#[test]
fn ping_client_refuses_another_reply() {
    let client = Ping::client();
    let hello = Response::new(Value::SimpleString("Hello".into()));
    assert!(matches!(
        client.accept(&PingArg { msg: None }, Ok(hello)),
        Err(ClientError::InvalidResponse)
    ));
    assert_eq!(
        client.accept(&PingArg { msg: None }, Err(SessionError::NoResponse)),
        Err(ClientError::Session(SessionError::NoResponse))
    );
}

#[test]
fn echo_client_accepts_the_message() {
    let client = Echo::client();
    let msg: BulkString = "Hello".into();
    let arg = EchoArg { msg: msg.clone() };
    assert_eq!(
        client.request(&arg).unwrap().encode(),
        b"*2\r\n$4\r\nECHO\r\n$5\r\nHello\r\n".to_vec()
    );
    let reply = Response::new(Value::BulkString(msg));
    assert_eq!(client.accept(&arg, Ok(reply.clone())), Ok(reply));
}

#[test]
fn echo_client_refuses_another_reply() {
    let client = Echo::client();
    let arg = EchoArg { msg: "Hello".into() };
    let wrong = Response::new(Value::BulkString("Wrong".into()));
    assert!(matches!(client.accept(&arg, Ok(wrong)), Err(ClientError::InvalidResponse)));
    assert_eq!(
        client.accept(&arg, Err(SessionError::Decode(DecodeError::EmptyBytes))),
        Err(ClientError::Session(SessionError::Decode(DecodeError::EmptyBytes)))
    );
}

#[test]
fn echo_client_cannot_send_the_null_string() {
    let client = Echo::client();
    let arg = EchoArg { msg: BulkString::null() };
    assert_eq!(client.request(&arg), Err(ClientError::InvalidArg));
    let reply = Response::new(Value::BulkString(BulkString::null()));
    assert_eq!(client.accept(&arg, Ok(reply)), Err(ClientError::InvalidArg));
}

#[test]
fn replconf_client_accepts_ok() {
    let client = ReplConf::client();
    let arg = ReplConfArg { config: ReplConfArgConfig::Capabilities("psync2".to_string()) };
    assert_eq!(
        client.request(&arg).encode(),
        b"*3\r\n$8\r\nREPLCONF\r\n$4\r\ncapa\r\n$6\r\npsync2\r\n".to_vec()
    );
    let ok = Response::new(Value::SimpleString("OK".into()));
    assert_eq!(client.accept(Ok(ok.clone())), Ok(ok));
    let no = Response::new(Value::SimpleError("ERR".into()));
    assert_eq!(client.accept(Ok(no)), Err(ClientError::InvalidResponse));
    assert_eq!(
        client.accept(Err(SessionError::NoResponse)),
        Err(ClientError::Session(SessionError::NoResponse))
    );
}

#[test]
fn a_get_request_is_a_command() {
    let request = Request::decode(b"*2\r\n$3\r\nGET\r\n$3\r\nfoo\r\n").unwrap();
    assert_eq!(request.as_command(), Ok(Command::Get(GetArg { key: "foo".into() })));
}

#[test]
fn a_frame_split_over_two_reads_is_put_together() {
    let frame = b"*3\r\n$3\r\nSET\r\n$3\r\nfoo\r\n$3\r\nbar\r\n";
    for cut in 1..frame.len() {
        let mut session = Session::new();
        let mut engine = engine();
        assert_eq!(
            session.step(SessionEvent::Read(frame[..cut].to_vec())),
            SessionAction::Read,
            "cut at {cut}"
        );
        assert_eq!(session.state(), SessionState::Reading);
        assert_eq!(session.pending(), &frame[..cut]);
        assert_eq!(serve(&mut session, &mut engine, &frame[cut..]), b"+OK\r\n".to_vec());
        assert_eq!(session.pending(), b"");
        assert_eq!(
            serve(&mut session, &mut engine, b"*2\r\n$3\r\nGET\r\n$3\r\nfoo\r\n"),
            b"$3\r\nbar\r\n".to_vec()
        );
    }
}

#[test]
fn a_frame_that_comes_byte_by_byte_is_put_together() {
    let frame = b"*2\r\n$4\r\nECHO\r\n$4\r\na\r\nb\r\n";
    let mut session = Session::new();
    for byte in &frame[..frame.len() - 1] {
        assert_eq!(session.step(SessionEvent::Read(vec![*byte])), SessionAction::Read);
    }
    assert_eq!(
        session.step(SessionEvent::Read(vec![frame[frame.len() - 1]])),
        SessionAction::Queue(Command::Echo(EchoArg { msg: "a\r\nb".into() }))
    );
}

#[test]
fn frames_that_come_in_one_read_are_served_one_after_the_other() {
    let mut session = Session::new();
    let mut engine = engine();
    let mut input = b"*3\r\n$3\r\nSET\r\n$1\r\nk\r\n$1\r\nv\r\n".to_vec();
    input.extend_from_slice(b"*2\r\n$3\r\nGET\r\n$1\r\nk\r\n");
    input.extend_from_slice(b"*1\r\n$4\r\nPI");
    let mut written = Vec::new();
    let mut action = session.step(SessionEvent::Read(input));
    loop {
        let event = match action {
            SessionAction::Queue(command) => {
                assert_eq!(session.step(SessionEvent::Queued), SessionAction::Await);
                SessionEvent::Replied(engine.handle(command).unwrap())
            }
            SessionAction::Write(bytes) => {
                written.push(bytes);
                SessionEvent::Written
            }
            SessionAction::Read => break,
            other => panic!("unexpected {:?}", other),
        };
        action = session.step(event);
    }
    assert_eq!(written, vec![b"+OK\r\n".to_vec(), b"$1\r\nv\r\n".to_vec()]);
    assert_eq!(session.pending(), b"*1\r\n$4\r\nPI");
    assert_eq!(serve(&mut session, &mut engine, b"NG\r\n"), b"+PONG\r\n".to_vec());
}

#[test]
fn a_wrong_frame_is_refused_as_soon_as_it_shows() {
    let mut session = Session::new();
    assert_eq!(session.step(SessionEvent::Read(b"*1\r\n".to_vec())), SessionAction::Read);
    assert_eq!(
        session.step(SessionEvent::Read(b"?".to_vec())),
        SessionAction::Close(CloseReason::Rejected(ParseCommandError::Decode(
            DecodeError::UnknownType { first_byte: b'?' }
        )))
    );
    let mut session = Session::new();
    assert_eq!(
        session.step(SessionEvent::Read(b"*1\r\n$4\r\nPINGxx".to_vec())),
        SessionAction::Close(CloseReason::Rejected(ParseCommandError::Decode(
            DecodeError::InvalidFormat
        )))
    );
    let mut session = Session::new();
    assert_eq!(
        session.step(SessionEvent::Read(b"*x".to_vec())),
        SessionAction::Read
    );
    assert_eq!(
        session.step(SessionEvent::Read(b"\r\n".to_vec())),
        SessionAction::Close(CloseReason::Rejected(ParseCommandError::Decode(
            DecodeError::ParseInt(resp_kv::decimal::IntErrorKind::InvalidDigit)
        )))
    );
}

#[test]
fn beginnings_of_frames() {
    for part in [
        &b""[..],
        b"+",
        b"+OK",
        b"+OK\r",
        b":12",
        b"$",
        b"$5\r",
        b"$5\r\n",
        b"$5\r\nab\r\n",
        b"$5\r\nabcde",
        b"$5\r\nabcde\r",
        b"*2\r\n",
        b"*2\r\n:1\r\n",
        b"*2\r\n:1\r\n*1\r\n$3\r\nab",
    ] {
        assert!(Value::is_incomplete(part), "{:?}", part);
    }
    for whole_or_wrong in [
        &b"+OK\r\n"[..],
        b"+OK\r\n+",
        b"$-1\r\n",
        b"$5\r\nabcde\r\n",
        b"$5\r\nabcdefg",
        b"$x\r\n",
        b"*0\r\n",
        b"*-1\r\n",
        b"*1\r\n:1\r\n",
        b"*2\r\n:1\r\n?",
        b"*2\r\n:x\r\n",
        b"?",
    ] {
        assert!(!Value::is_incomplete(whole_or_wrong), "{:?}", whole_or_wrong);
    }
}
