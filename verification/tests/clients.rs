use resp_kv::redis::client::ClientError;
use resp_kv::redis::clock::{Duration, Timestamp};
use resp_kv::redis::cmd::{Command, Echo, EchoArg, GetArg, Ping, PingArg, SetArg};
use resp_kv::redis::handler::{CommandHandler, CommandHandlerConfig};
use resp_kv::redis::resp::{Array, BulkString, SimpleString, Token, Value};
use resp_kv::redis::session::{Request, Response, SessionError};
use resp_kv::redis::store::Store;

/// A responder that expects one request and returns one response.
struct MockResponder {
    expected_req: Request,
    returned_resp: Response,
}

impl MockResponder {
    fn respond(&mut self, req: Request) -> Result<Response, SessionError> {
        assert_eq!(req, self.expected_req);
        Ok(self.returned_resp.clone())
    }
}

fn new_ping_responder(expected_msg: Option<BulkString>, returned_value: Value) -> MockResponder {
    let mut values = vec![Value::BulkString("PING".into())];
    if expected_msg.is_some() {
        values.push(Value::BulkString(expected_msg.unwrap()))
    }
    let expected_req = Request::new(Value::Array(Array::new(values)));

    MockResponder {
        expected_req,
        returned_resp: returned_value.into(),
    }
}

fn ping(responder: &mut MockResponder, arg: PingArg) -> Result<Response, ClientError> {
    let client = Ping::client();
    let outcome = responder.respond(client.request(&arg));
    client.accept(&arg, outcome)
}

#[test]
fn ping_ping() {
    let mut responder = new_ping_responder(None, Value::SimpleString("PONG".into()));

    ping(&mut responder, PingArg { msg: None }).expect("Unexpected ping error");
}

#[test]
fn ping_ping_with_msg() {
    let msg: BulkString = "Hello".into();

    let mut responder = new_ping_responder(
        Some(msg.clone()),
        Value::Array(
            vec![
                Value::BulkString("PONG".into()),
                Value::BulkString(msg.clone()),
            ]
            .into(),
        ),
    );

    ping(&mut responder, PingArg { msg: Some(msg) }).expect("Unexpected ping error");
}

#[test]
fn ping_wrong_response() {
    let mut responder = new_ping_responder(None, Value::SimpleString("Hello".into()));

    match ping(&mut responder, PingArg { msg: None }) {
        Ok(_) => panic!("Should have error"),
        Err(e) => assert!(matches!(e, ClientError::InvalidResponse)),
    }
}

fn new_echo_responder(expected_msg: BulkString, returned_bs: BulkString) -> MockResponder {
    let expected_req = Request::new(Value::Array(Array::new(vec![
        Value::BulkString("ECHO".into()),
        Value::BulkString(expected_msg),
    ])));

    MockResponder {
        expected_req,
        returned_resp: Value::BulkString(returned_bs).into(),
    }
}

fn echo(responder: &mut MockResponder, arg: EchoArg) -> Result<Response, ClientError> {
    let client = Echo::client();
    let outcome = responder.respond(client.request(&arg)?);
    client.accept(&arg, outcome)
}

#[test]
fn echo_echo() {
    let msg: BulkString = "Hello".into();
    let mut responder = new_echo_responder(msg.clone(), msg.clone());

    echo(&mut responder, EchoArg { msg }).expect("Unexpected echo error");
}

#[test]
fn echo_wrong_response() {
    let msg: BulkString = "Hello".into();
    let mut responder = new_echo_responder(msg.clone(), "Wrong".into());

    match echo(&mut responder, EchoArg { msg }) {
        Ok(_) => panic!("Should have error"),
        Err(e) => assert!(matches!(e, ClientError::InvalidResponse)),
    }
}

fn new_cmd_handler() -> CommandHandler {
    CommandHandler::new(
        Store::new(),
        CommandHandlerConfig {
            is_replica: false,
            master_repl_id_and_offset: None,
        },
    )
}

fn simple_set(
    handler: &mut CommandHandler,
    k: &str,
    v: &str,
    expiry: Option<Duration>,
    now: Timestamp,
) {
    let key = BulkString::from(k);
    let value = BulkString::from(v);

    let resp = handler.handle_at(Command::SetKey(SetArg::new(key, value, expiry.clone())), now);
    assert_eq!(resp, Value::SimpleString(SimpleString::from("OK")));
}

fn simple_get(handler: &mut CommandHandler, k: &str, now: Timestamp) -> Value {
    let key = BulkString::from(k);

    handler.handle_at(Command::Get(GetArg::new(key)), now)
}

#[test]
fn cmd_handler_set_expiry_and_get() {
    let mut handler = new_cmd_handler();
    let start = Timestamp::now();

    let key = "My Key";
    let value = "My Value";
    let expiry = Duration::from_millis(200);

    // Set entry with expiry
    simple_set(&mut handler, key, value, Some(expiry), start);

    // Entry still exists
    let later = start.checked_add(Duration::from_millis(100)).unwrap();
    let resp = simple_get(&mut handler, key, later);
    assert_eq!(
        resp.bulk_string().unwrap().as_str(),
        Some(value.to_string())
    );

    // Entry expired
    let later = later.checked_add(Duration::from_millis(200)).unwrap();
    let resp = simple_get(&mut handler, key, later);
    assert_eq!(resp.bulk_string().unwrap().as_str(), None);
}

#[test]
fn handler_set_expiry_and_get() {
    let mut handler = new_cmd_handler();

    let key = "My Key";
    let value = "My Value";
    let expiry = Duration::from_millis(200);

    // Set entry with expiry
    let resp = handler
        .handle(Command::SetKey(SetArg {
            key: BulkString::from(key),
            value: BulkString::from(value),
            expiry: Some(expiry),
        }))
        .expect("Handle set unexpected error");
    assert_eq!(resp, Value::SimpleString(SimpleString::from("OK")));
    let deadline = handler.store().get(&BulkString::from(key)).unwrap().deadline.unwrap();

    // Entry still exists
    let before = Timestamp::from_millis(deadline.as_millis() - 100);
    let resp = simple_get(&mut handler, key, before);
    assert_eq!(
        resp.bulk_string().unwrap().as_str(),
        Some(value.to_string())
    );

    // Entry expired
    let after = deadline.checked_add(Duration::from_millis(100)).unwrap();
    let resp = simple_get(&mut handler, key, after);
    assert_eq!(resp.bulk_string().unwrap().as_str(), None);
}

#[test]
fn a_queue_is_carried_out_in_order() {
    let mut handler = new_cmd_handler();
    let at = Timestamp::from_millis;
    let set = |v: &str, px: Option<u64>| {
        Command::SetKey(SetArg::new("k".into(), v.into(), px.map(Duration::from_millis)))
    };
    let get = || Command::Get(GetArg::new("k".into()));
    let queue = vec![
        (get(), at(0)),
        (set("v1", Some(100)), at(0)),
        (get(), at(100)),
        (get(), at(150)),
        (set("v2", None), at(150)),
        (get(), at(1_000)),
        (Command::Ping(PingArg::new(None)), at(1_000)),
    ];
    let null = Value::BulkString(BulkString::null());
    let ok = Value::SimpleString("OK".into());
    assert_eq!(
        handler.handle_all_at(&queue),
        vec![
            null.clone(),
            ok.clone(),
            Value::BulkString("v1".into()),
            null,
            ok,
            Value::BulkString("v2".into()),
            Value::SimpleString("PONG".into()),
        ]
    );
    assert!(handler.handle_all_at(&[]).is_empty());
}

#[test]
fn tokens_as_characters() {
    for t in [Token::Star, Token::Dollar, Token::Plus, Token::Minus, Token::Colon] {
        assert_eq!(Token::from(t.as_char()), Some(t));
        assert_eq!(t.as_char() as u32, t.as_byte() as u32);
    }
}
