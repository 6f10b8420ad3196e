use resp_kv::redis::clock::Duration;
use resp_kv::redis::cmd::{
    Command, Echo, EchoArg, EchoHandler, Get, GetArg, GetHandler, Ping, PingArg, PingHandler,
    SetArg, SetHandler, SetKey,
};
use resp_kv::redis::resp::{Array, BulkString, SimpleString, Value};
use resp_kv::redis::store::{Store, StoredData};

#[test]
fn parse_ping() {
    let cmd = Command::parse(b"*1\r\n$4\r\nPING\r\n").expect("Parse command unexpected error");
    match cmd {
        Command::Ping(arg) => assert_eq!(arg, PingArg { msg: None }),
        _ => panic!("Wrong command for ping"),
    }
}

#[test]
fn parse_ping_optional() {
    let cmd = Command::parse(b"*2\r\n$4\r\nPING\r\n$5\r\nhello\r\n")
        .expect("Parse command unexpected error");
    match cmd {
        Command::Ping(arg) => assert_eq!(
            arg,
            PingArg {
                msg: Some(BulkString::from("hello"))
            }
        ),
        _ => panic!("Wrong command for ping"),
    }
}

#[test]
fn parse_echo() {
    let cmd = Command::parse(b"*2\r\n$4\r\nECHO\r\n$4\r\nYEET\r\n")
        .expect("Parse command unexpected error");
    match cmd {
        Command::Echo(arg) => assert_eq!(
            arg,
            EchoArg {
                msg: BulkString::from("YEET")
            }
        ),
        _ => panic!("Wrong command for echo"),
    }
}

#[test]
fn echo_command() {
    let val = Echo::command_value(EchoArg {
        msg: "hello".into(),
    });

    assert_eq!(
        val.array().unwrap().values().unwrap().to_vec(),
        vec![
            Value::BulkString("ECHO".into()),
            Value::BulkString("hello".into())
        ]
    )
}

fn new_echo_handler() -> EchoHandler {
    Echo::handler()
}

#[test]
fn handle_echo() {
    let handler = new_echo_handler();
    let resp = handler.handle(EchoArg {
        msg: "What's up".into(),
    });

    assert_eq!(resp, Value::BulkString("What's up".into()));
}

#[test]
fn get_command() {
    let val = Get::command_value(GetArg { key: "key".into() });

    assert_eq!(
        val.array().unwrap().values().unwrap().to_vec(),
        vec![
            Value::BulkString("GET".into()),
            Value::BulkString("key".into()),
        ]
    )
}

fn new_get_handler(store: &mut Store) -> GetHandler<'_> {
    Get::handler(store)
}

fn simple_get(handler: &mut GetHandler, k: &str) -> Value {
    let key = BulkString::from(k);

    handler.handle(GetArg { key })
}

#[test]
fn handle_get() {
    let key = "My Key";
    let value = "My Value";

    let mut map = Store::new();
    map.insert(
        BulkString::from(key),
        StoredData {
            value: BulkString::from(value),
            deadline: None,
        },
    );

    let mut handler = new_get_handler(&mut map);

    let get_value = simple_get(&mut handler, key);
    assert_eq!(get_value, Value::BulkString(value.into()));
}

fn new_ping_handler() -> PingHandler {
    Ping::handler()
}

#[test]
fn handle_ping() {
    let handler = new_ping_handler();
    let resp = handler.handle(PingArg { msg: None });

    assert_eq!(resp, Value::SimpleString("PONG".into()));
}

#[test]
fn handle_ping_with_msg() {
    let handler = new_ping_handler();
    let resp = handler.handle(PingArg {
        msg: Some(BulkString::from("WOOP")),
    });

    assert_eq!(
        resp,
        Value::Array(Array::new(vec![
            Value::BulkString("PONG".into()),
            Value::BulkString("WOOP".into())
        ]))
    );
}

#[test]
fn set_command() {
    let val = SetKey::command_value(SetArg {
        key: "key".into(),
        value: "value".into(),
        expiry: Some(Duration::from_millis(200)),
    });

    assert_eq!(
        val.array().unwrap().values().unwrap().to_vec(),
        vec![
            Value::BulkString("SET".into()),
            Value::BulkString("key".into()),
            Value::BulkString("value".into()),
            Value::BulkString("px".into()),
            Value::BulkString("200".into()),
        ]
    )
}

fn new_set_handler(store: &mut Store) -> SetHandler<'_> {
    SetKey::handler(store)
}

fn simple_set(handler: &mut SetHandler, key: &str, value: &str, expiry: Option<Duration>) {
    let key = BulkString::from(key);
    let value = BulkString::from(value);

    let resp = handler.handle(SetArg {
        key,
        value,
        expiry: expiry.clone(),
    });
    assert_eq!(resp, Value::SimpleString(SimpleString::from("OK")));
}

#[test]
fn handle_set() {
    let mut map = Store::new();
    {
        let mut handler = new_set_handler(&mut map);

        let key = "My Key";
        let value = "My Value";

        simple_set(&mut handler, key, value, None);
    }
    let key = "My Key";
    let value = "My Value";
    let data = map.get(&BulkString::from(key)).unwrap();

    assert_eq!(
        data,
        &StoredData {
            value: BulkString::from(value),
            deadline: None
        }
    )
}
