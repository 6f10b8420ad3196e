use resp_kv::redis::clock::{Duration, Timestamp};
use resp_kv::redis::cmd::{
    Command, Echo, EchoArg, Get, GetArg, Info, InfoArg, InfoSection, Ping, PingArg, ReplConf,
    ReplConfArg, ReplConfArgConfig, SetArg, SetKey,
};
use resp_kv::redis::handler::{CommandHandler, CommandHandlerConfig};
use resp_kv::redis::resp::{Array, BulkString, Value};
use resp_kv::redis::store::{Store, StoredData};
use resp_kv::redis::RedisConfig;
use resp_kv::util::generate_random_alphanumeric_string;

fn master() -> CommandHandler {
    CommandHandler::new(
        Store::new(),
        CommandHandlerConfig { is_replica: false, master_repl_id_and_offset: None },
    )
}

fn set(key: &str, value: &str, millis: Option<u64>) -> Command {
    Command::SetKey(SetArg::new(
        key.into(),
        value.into(),
        millis.map(Duration::from_millis),
    ))
}

fn get(key: &str) -> Command {
    Command::Get(GetArg::new(key.into()))
}

fn at(millis: u64) -> Timestamp {
    Timestamp::from_millis(millis)
}

fn ok() -> Value {
    Value::SimpleString("OK".into())
}

fn null() -> Value {
    Value::BulkString(BulkString::null())
}

#[test]
fn set_then_get_returns_the_value() {
    let mut engine = master();
    assert_eq!(engine.handle_at(set("k", "v", None), at(10)), ok());
    assert_eq!(engine.handle_at(get("k"), at(10)), Value::BulkString("v".into()));
    assert_eq!(engine.handle_at(get("k"), at(u64::MAX)), Value::BulkString("v".into()));
}

#[test]
fn get_of_a_key_that_was_never_set_is_null() {
    let mut engine = master();
    assert_eq!(engine.handle_at(get("zzz"), at(0)), null());
}

#[test]
fn get_before_and_after_the_expiry() {
    let mut engine = master();
    engine.handle_at(set("k", "v", Some(100)), at(1_000));
    assert_eq!(engine.handle_at(get("k"), at(1_000)), Value::BulkString("v".into()));
    assert_eq!(engine.handle_at(get("k"), at(1_100)), Value::BulkString("v".into()));
    assert!(engine.store().get(&"k".into()).is_some());
    assert_eq!(engine.handle_at(get("k"), at(1_101)), null());
    assert!(engine.store().get(&"k".into()).is_none());
    assert_eq!(engine.handle_at(get("k"), at(1_000)), null());
}

#[test]
fn set_discards_the_deadline_that_the_key_had() {
    let mut engine = master();
    engine.handle_at(set("k", "v1", Some(100)), at(0));
    engine.handle_at(set("k", "v2", None), at(150));
    assert_eq!(engine.handle_at(get("k"), at(150)), Value::BulkString("v2".into()));
    assert_eq!(engine.handle_at(get("k"), at(1_000_000)), Value::BulkString("v2".into()));
    assert_eq!(
        engine.store().get(&"k".into()),
        Some(&StoredData { value: "v2".into(), deadline: None })
    );
}

#[test]
fn set_over_an_expired_entry_brings_the_key_back() {
    let mut engine = master();
    engine.handle_at(set("k", "v1", Some(100)), at(0));
    engine.handle_at(set("k", "v2", Some(100)), at(500));
    assert_eq!(engine.handle_at(get("k"), at(600)), Value::BulkString("v2".into()));
    assert_eq!(
        engine.store().get(&"k".into()),
        Some(&StoredData { value: "v2".into(), deadline: Some(at(600)) })
    );
}

#[test]
fn a_deadline_beyond_the_end_of_time_is_no_deadline() {
    let mut engine = master();
    engine.handle_at(set("k", "v", Some(u64::MAX)), at(1));
    assert_eq!(
        engine.store().get(&"k".into()),
        Some(&StoredData { value: "v".into(), deadline: None })
    );
    assert_eq!(engine.handle_at(get("k"), at(u64::MAX)), Value::BulkString("v".into()));
}

#[test]
fn expiry_is_passive() {
    let mut engine = master();
    engine.handle_at(set("a", "1", Some(1)), at(0));
    engine.handle_at(set("b", "2", None), at(0));
    assert_eq!(engine.handle_at(get("b"), at(1_000)), Value::BulkString("2".into()));
    assert!(engine.store().get(&"a".into()).is_some());
    assert_eq!(engine.handle_at(get("a"), at(1_000)), null());
    assert!(engine.store().get(&"a".into()).is_none());
}

#[test]
fn ping_replies() {
    let mut engine = master();
    assert_eq!(
        engine.handle_at(Command::Ping(PingArg::new(None)), at(0)),
        Value::SimpleString("PONG".into())
    );
    assert_eq!(
        engine.handle_at(Command::Ping(PingArg::new(Some("hello".into()))), at(0)),
        Value::Array(Array::new(vec![
            Value::BulkString("PONG".into()),
            Value::BulkString("hello".into())
        ]))
    );
    assert_eq!(
        Ping::handler().handle(PingArg::new(Some(BulkString::null()))),
        Value::Array(Array::new(vec![
            Value::BulkString("PONG".into()),
            Value::BulkString(BulkString::null())
        ]))
    );
}

#[test]
fn echo_replies_with_the_message() {
    assert_eq!(
        Echo::handler().handle(EchoArg::new(BulkString::new(vec![0, 1, 2]))),
        Value::BulkString(BulkString::new(vec![0, 1, 2]))
    );
}

#[test]
fn replconf_is_acknowledged() {
    let mut engine = master();
    let arg = ReplConfArg { config: ReplConfArgConfig::ListeningPort(6380) };
    assert_eq!(ReplConf::handler().handle(arg.clone()), ok());
    assert_eq!(engine.handle(Command::ReplConf(arg)), Ok(ok()));
    assert_eq!(engine.store().get(&"listening-port".into()), None);
}

#[test]
fn info_replication_of_a_replica() {
    let handler = Info::handler(true, None);
    assert_eq!(
        handler.handle(InfoArg { section: InfoSection::Replication }),
        Value::BulkString("role:slave".into())
    );
}

#[test]
fn info_replication_of_a_master() {
    let handler = Info::handler(false, None);
    assert_eq!(handler.handle_replication(), Value::BulkString("role:master".into()));
    let id = "8371b4fb1155b71f4a04d3e1bc3e18c4a990aeeb".to_string();
    let handler = Info::handler(false, Some((id, 42)));
    assert_eq!(
        handler.handle(InfoArg { section: InfoSection::Replication }),
        Value::BulkString(
            "role:master\nmaster_replid:8371b4fb1155b71f4a04d3e1bc3e18c4a990aeeb\nmaster_repl_offset:42"
                .into()
        )
    );
}

#[test]
fn info_through_the_engine_uses_its_configuration() {
    let mut engine = CommandHandler::new(
        Store::new(),
        CommandHandlerConfig {
            is_replica: false,
            master_repl_id_and_offset: Some(("abc".to_string(), 0)),
        },
    );
    assert_eq!(
        engine.handle(Command::Info(InfoArg { section: InfoSection::Replication })),
        Ok(Value::BulkString("role:master\nmaster_replid:abc\nmaster_repl_offset:0".into()))
    );
    let mut replica = CommandHandler::new(Store::new(), CommandHandlerConfig::replica());
    assert_eq!(
        replica.handle(Command::Info(InfoArg { section: InfoSection::Replication })),
        Ok(Value::BulkString("role:slave".into()))
    );
}

#[test]
fn info_default_section_is_answered_with_an_error() {
    let handler = Info::handler(false, None);
    assert_eq!(
        handler.handle(InfoArg { section: InfoSection::Default }),
        Value::SimpleError("ERR unsupported INFO section".into())
    );
}

#[test]
fn a_master_has_a_replication_id_of_forty_letters_and_digits() {
    let config = CommandHandlerConfig::master();
    assert!(!config.is_replica);
    let (id, offset) = config.master_repl_id_and_offset.unwrap();
    assert_eq!(id.chars().count(), 40);
    assert!(id.chars().all(|c| c.is_ascii_alphanumeric()));
    assert_eq!(offset, 0);
}

#[test]
fn random_strings_have_the_length_asked_for() {
    for len in [0usize, 1, 40, 257] {
        let s = generate_random_alphanumeric_string(len);
        assert_eq!(s.len(), len);
        assert!(s.bytes().all(|b| b.is_ascii_alphanumeric()));
    }
    assert_ne!(
        generate_random_alphanumeric_string(40),
        generate_random_alphanumeric_string(40)
    );
}

#[test]
fn a_server_with_a_master_address_is_a_replica() {
    let config = RedisConfig { replica_addr: Some("127.0.0.1:6379".to_string()) };
    let handler_config = config.handler_config();
    assert!(handler_config.is_replica);
    assert_eq!(handler_config.master_repl_id_and_offset, None);
    let handler_config = RedisConfig { replica_addr: None }.handler_config();
    assert!(!handler_config.is_replica);
    assert_eq!(handler_config.master_repl_id_and_offset.unwrap().0.len(), 40);
}

#[test]
fn requests_take_effect_in_the_order_of_the_queue() {
    let mut engine = master();
    let queue = vec![
        (get("k"), null()),
        (set("k", "from connection 1", None), ok()),
        (get("k"), Value::BulkString("from connection 1".into())),
        (set("k", "from connection 2", None), ok()),
        (get("k"), Value::BulkString("from connection 2".into())),
    ];
    for (command, reply) in queue {
        assert_eq!(engine.handle(command), Ok(reply));
    }
}

#[test]
fn the_clock_is_read_in_milliseconds_since_the_epoch() {
    let now = Timestamp::now().as_millis();
    assert!(now > 1_600_000_000_000);
    assert!(now < 100_000_000_000_000);
}

#[test]
fn entries_expire_by_the_system_clock() {
    let mut store = Store::new();
    let past = StoredData { value: "old".into(), deadline: Some(at(1)) };
    let open = StoredData { value: "new".into(), deadline: None };
    let future = StoredData { value: "new".into(), deadline: Some(at(u64::MAX)) };
    assert!(past.has_expired());
    assert!(!open.has_expired());
    assert!(!future.has_expired());
    assert!(past.has_expired_at(at(2)) && !past.has_expired_at(at(1)));
    store.insert("past".into(), past);
    store.insert("open".into(), open);
    {
        let mut handler = Get::handler(&mut store);
        assert_eq!(handler.handle(GetArg::new("past".into())), null());
        assert_eq!(
            handler.handle(GetArg::new("open".into())),
            Value::BulkString("new".into())
        );
    }
    assert_eq!(store.get(&"past".into()), None);
    {
        let mut handler = SetKey::handler(&mut store);
        handler.handle(SetArg::new("soon".into(), "x".into(), Some(Duration::from_millis(60_000))));
    }
    let deadline = store.get(&"soon".into()).unwrap().deadline.unwrap();
    assert!(deadline.as_millis() > Timestamp::now().as_millis());
}

#[test]
fn store_keeps_one_entry_for_each_key() {
    let mut store = Store::new();
    let entry = |v: &str| StoredData { value: v.into(), deadline: None };
    store.insert("a".into(), entry("1"));
    store.insert("b".into(), entry("2"));
    store.insert("a".into(), entry("3"));
    store.insert(BulkString::null(), entry("null key"));
    store.insert(BulkString::new(Vec::new()), entry("empty key"));
    assert_eq!(store.get(&"a".into()), Some(&entry("3")));
    assert_eq!(store.get(&"b".into()), Some(&entry("2")));
    assert_eq!(store.get(&BulkString::null()), Some(&entry("null key")));
    assert_eq!(store.get(&BulkString::new(Vec::new())), Some(&entry("empty key")));
    store.remove(&"a".into());
    store.remove(&"never there".into());
    assert_eq!(store.get(&"a".into()), None);
    assert_eq!(store.get(&"b".into()), Some(&entry("2")));
}

#[test]
fn spans_and_points_in_time() {
    assert_eq!(Duration::from_millis(200).as_millis(), 200);
    assert_eq!(at(5).checked_add(Duration::from_millis(7)), Some(at(12)));
    assert_eq!(at(u64::MAX).checked_add(Duration::from_millis(1)), None);
    assert!(at(2).gt(&at(1)) && !at(1).gt(&at(1)));
}
