use resp_kv::decimal::IntErrorKind;
use resp_kv::resp::{Array, BulkString, DecodeError, Decoder, Encoder, Integer, SimpleString, Value};

fn round_trip(v: Value) -> Value {
    let bytes = Encoder::encode(v);
    let (back, used) = Decoder::decode_with_len(&bytes).expect("a frame that was encoded");
    assert_eq!(used, bytes.len());
    assert_eq!(Encoder::encode(back.clone()), bytes);
    back
}

#[test]
fn encoder_writes_each_kind() {
    assert_eq!(Encoder::encode_simple_string("OK".to_string()), b"+OK\r\n".to_vec());
    assert_eq!(Encoder::encode_simple_error("ERR x".to_string()), b"-ERR x\r\n".to_vec());
    assert_eq!(Encoder::encode_integer(-12), b":-12\r\n".to_vec());
    assert_eq!(Encoder::encode_bulk_string(b"Hell"), b"$4\r\nHell\r\n".to_vec());
    assert_eq!(Encoder::encode_bulk_string(b""), b"$0\r\n\r\n".to_vec());
    assert_eq!(
        Encoder::encode_array(vec![
            Value::Integer(Integer::from(12)),
            Value::SimpleString(SimpleString::from("Yea".to_string())),
        ]),
        b"*2\r\n:12\r\n+Yea\r\n".to_vec()
    );
    assert_eq!(Encoder::encode_array(Vec::new()), b"*0\r\n".to_vec());
}

#[test]
fn encoder_writes_null_forms() {
    assert_eq!(Encoder::encode(Value::BulkString(BulkString::null())), b"$-1\r\n".to_vec());
    assert_eq!(Encoder::encode(Value::Array(Array::null())), b"*-1\r\n".to_vec());
}

#[test]
fn decoder_reads_back_what_the_encoder_wrote() {
    let back = round_trip(Value::Array(Array::from(vec![
        Value::BulkString(BulkString::from(b"Hello".to_vec())),
        Value::BulkString(BulkString::null()),
        Value::Array(Array::null()),
        Value::Array(Array::from(vec![Value::Integer(Integer::from(i64::MIN))])),
    ])));
    let values = back.array().unwrap().values();
    assert_eq!(values.len(), 4);
    assert_eq!(values[0].bulk_string().unwrap().bytes(), b"Hello");
    assert!(!values[0].bulk_string().unwrap().is_null());
    assert!(values[1].bulk_string().unwrap().is_null());
    assert!(values[2].array().unwrap().is_null());
    assert!(!values[3].array().unwrap().is_null());
    assert_eq!(values[3].array().unwrap().values()[0].integer().unwrap().i(), i64::MIN);
}

#[test]
fn null_values_hold_nothing() {
    assert_eq!(BulkString::null().bytes(), b"");
    assert!(Array::null().values().is_empty());
    let empty = round_trip(Value::BulkString(BulkString::from(Vec::new())));
    assert!(!empty.bulk_string().unwrap().is_null());
}

#[test]
fn decoder_errors_name_the_kind_of_frame() {
    assert_eq!(Decoder::decode(b"").unwrap_err(), DecodeError::EmptyBytes);
    assert_eq!(Decoder::decode(b"+OK").unwrap_err(), DecodeError::InvalidSimpleFormat);
    assert_eq!(Decoder::decode(b"-\xff\r\n").unwrap_err(), DecodeError::InvalidSimpleFormat);
    assert_eq!(Decoder::decode(b":12").unwrap_err(), DecodeError::InvalidIntegerFormat);
    assert_eq!(Decoder::decode(b":\xff\r\n").unwrap_err(), DecodeError::InvalidIntegerFormat);
    assert_eq!(
        Decoder::decode(b":1x\r\n").unwrap_err(),
        DecodeError::ParseInt(IntErrorKind::InvalidDigit)
    );
    assert_eq!(Decoder::decode(b"$4").unwrap_err(), DecodeError::InvalidBulkFormat);
    assert_eq!(Decoder::decode(b"$4\r\nHell").unwrap_err(), DecodeError::InvalidBulkFormat);
    assert_eq!(
        Decoder::decode(b"$3\r\nHell\r\n").unwrap_err(),
        DecodeError::BulkLenMismatch { given_len: 3, data_len: 4 }
    );
    assert_eq!(Decoder::decode(b"*x\r\n").unwrap_err(), DecodeError::InvalidArrayFormat);
    assert_eq!(Decoder::decode(b"*1\r\n").unwrap_err(), DecodeError::EmptyBytes);
    assert_eq!(
        Decoder::decode(b"*1\r\n$x\r\n").unwrap_err(),
        DecodeError::InvalidBulkFormat
    );
    assert_eq!(
        Decoder::decode(b"!\r\n").unwrap_err(),
        DecodeError::UnknownType { first_byte: b'!' }
    );
}

#[test]
fn decoder_takes_the_data_of_a_bulk_string_by_its_length() {
    let back = round_trip(Value::BulkString(BulkString::from(b"a\r\nb".to_vec())));
    assert_eq!(back.bulk_string().unwrap().bytes(), b"a\r\nb");
    let value = Decoder::decode(b"$2\r\n\r\n\r\n").unwrap();
    assert_eq!(value.bulk_string().unwrap().bytes(), b"\r\n");
    assert_eq!(
        Decoder::decode(b"$5\r\na\r\nb\r\n").unwrap_err(),
        DecodeError::BulkLenMismatch { given_len: 5, data_len: 1 }
    );
}

#[test]
fn both_decoders_read_the_same_values() {
    for frame in [
        &b"+OK\r\n"[..],
        b"-ERR\r\n",
        b":-5\r\n",
        b"$-1\r\n",
        b"$0\r\n\r\n",
        b"*-1\r\n",
        b"*2\r\n*0\r\n$2\r\nhi\r\n",
        b"$4\r\na\r\nb\r\n",
    ] {
        let value = Decoder::decode(frame).unwrap();
        let other = resp_kv::redis::resp::Value::decode(frame).unwrap();
        let mut bytes = Vec::new();
        other.encode(&mut bytes);
        assert_eq!(Encoder::encode(value), bytes);
        assert_eq!(bytes, frame.to_vec());
    }
}
