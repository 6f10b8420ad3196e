use resp_kv::decimal::{parse_i64, parse_u16, parse_u64, push_decimal, push_digits, IntErrorKind};
use resp_kv::redis::resp::{
    Array, BulkString, DecodeError, Integer, SimpleError, SimpleString, Token, Value,
};
use resp_kv::util::encode_value;

fn encoded(v: &Value) -> Vec<u8> {
    let mut buf = Vec::new();
    v.encode(&mut buf);
    buf
}

fn round_trip(v: Value) {
    let bytes = encoded(&v);
    let (back, used) = Value::decode_with_len(&bytes).expect("a frame that was encoded");
    assert_eq!(back, v);
    assert_eq!(used, bytes.len());
}

#[test]
fn encode_simple_string_bytes() {
    assert_eq!(encoded(&Value::SimpleString("OK".into())), b"+OK\r\n".to_vec());
}

#[test]
fn encode_simple_error_bytes() {
    assert_eq!(
        encoded(&Value::SimpleError("ERR something".into())),
        b"-ERR something\r\n".to_vec()
    );
}

#[test]
fn encode_integer_bytes() {
    assert_eq!(encoded(&Value::Integer(Integer::new(123))), b":123\r\n".to_vec());
    assert_eq!(encoded(&Value::Integer(Integer::new(-7))), b":-7\r\n".to_vec());
    assert_eq!(encoded(&Value::Integer(Integer::new(0))), b":0\r\n".to_vec());
    assert_eq!(
        encoded(&Value::Integer(Integer::new(i64::MIN))),
        b":-9223372036854775808\r\n".to_vec()
    );
}

#[test]
fn encode_bulk_string_bytes() {
    assert_eq!(
        encoded(&Value::BulkString("Hell".into())),
        b"$4\r\nHell\r\n".to_vec()
    );
}

#[test]
fn encode_null_and_empty_bulk_string_differ() {
    assert_eq!(encoded(&Value::BulkString(BulkString::null())), b"$-1\r\n".to_vec());
    assert_eq!(
        encoded(&Value::BulkString(BulkString::new(Vec::new()))),
        b"$0\r\n\r\n".to_vec()
    );
}

#[test]
fn encode_null_and_empty_array_differ() {
    assert_eq!(encoded(&Value::Array(Array::null())), b"*-1\r\n".to_vec());
    assert_eq!(encoded(&Value::Array(Array::new(Vec::new()))), b"*0\r\n".to_vec());
}

#[test]
fn encode_nested_array_bytes() {
    let v = Value::Array(Array::new(vec![
        Value::Array(Array::new(vec![
            Value::Integer(Integer::new(12)),
            Value::SimpleString("Yea".into()),
            Value::SimpleError("Oopsie".into()),
        ])),
        Value::Array(Array::new(vec![
            Value::BulkString("Hello".into()),
            Value::BulkString("GGWP".into()),
        ])),
    ]));
    assert_eq!(
        encoded(&v),
        b"*2\r\n*3\r\n:12\r\n+Yea\r\n-Oopsie\r\n*2\r\n$5\r\nHello\r\n$4\r\nGGWP\r\n".to_vec()
    );
}

#[test]
fn encode_value_is_the_frame() {
    let v = Value::BulkString("bar".into());
    assert_eq!(encode_value(&v), b"$3\r\nbar\r\n".to_vec());
}

#[test]
fn round_trip_of_every_kind() {
    round_trip(Value::SimpleString("OK".into()));
    round_trip(Value::SimpleString("".into()));
    round_trip(Value::SimpleError("ERR no".into()));
    round_trip(Value::Integer(Integer::new(i64::MAX)));
    round_trip(Value::Integer(Integer::new(i64::MIN)));
    round_trip(Value::BulkString("hello".into()));
    round_trip(Value::BulkString(BulkString::new(vec![0, 255, 13, 7, 10])));
    round_trip(Value::BulkString(BulkString::new(Vec::new())));
    round_trip(Value::BulkString(BulkString::null()));
    round_trip(Value::Array(Array::null()));
    round_trip(Value::Array(Array::new(Vec::new())));
}

#[test]
fn round_trip_of_nested_arrays_of_mixed_kinds() {
    round_trip(Value::Array(Array::new(vec![
        Value::Integer(Integer::new(-1)),
        Value::Array(Array::new(vec![
            Value::BulkString(BulkString::null()),
            Value::Array(Array::null()),
            Value::Array(Array::new(vec![Value::SimpleString("deep".into())])),
        ])),
        Value::SimpleError("ERR x".into()),
        Value::BulkString("tail".into()),
    ])));
}

#[test]
fn round_trip_keeps_text_that_ends_in_cr() {
    round_trip(Value::SimpleString("a\r".into()));
    round_trip(Value::BulkString("a\r".into()));
}

#[test]
fn bulk_string_of_cr_lf_is_read_back() {
    let v = Value::BulkString(BulkString::new(vec![13u8, 10u8]));
    assert_eq!(encoded(&v), b"$2\r\n\r\n\r\n".to_vec());
    assert_eq!(Value::decode(b"$2\r\n\r\n\r\n"), Ok(v));
}

#[test]
fn round_trip_of_bulk_strings_with_crlf_inside() {
    round_trip(Value::BulkString("a\r\nb".into()));
    round_trip(Value::BulkString("\r\n".into()));
    round_trip(Value::BulkString("\r\n\r\n$5\r\n".into()));
    round_trip(Value::Array(Array::new(vec![
        Value::BulkString("one\r\ntwo".into()),
        Value::BulkString("\r\n+OK\r\n".into()),
        Value::Integer(Integer::new(7)),
    ])));
    let (v, used) = Value::decode_with_len(b"$4\r\na\r\nb\r\n+next\r\n").unwrap();
    assert_eq!(v, Value::BulkString("a\r\nb".into()));
    assert_eq!(used, 10);
}

#[test]
fn bulk_string_that_is_not_as_long_as_announced() {
    assert_eq!(
        Value::decode(b"$5\r\na\r\nb\r\n"),
        Err(DecodeError::LenMismatch { given_len: 5, actual_len: 1 })
    );
    assert_eq!(
        Value::decode(b"$1\r\nab\r\n"),
        Err(DecodeError::LenMismatch { given_len: 1, actual_len: 2 })
    );
    assert_eq!(
        Value::decode(b"$0\r\nx\r\n"),
        Err(DecodeError::LenMismatch { given_len: 0, actual_len: 1 })
    );
    assert_eq!(Value::decode(b"$2\r\nab\r"), Err(DecodeError::InvalidFormat));
    assert_eq!(Value::decode(b"$2\r\n"), Err(DecodeError::InvalidFormat));
    assert_eq!(
        Value::decode(b"$9223372036854775807\r\nab\r\n"),
        Err(DecodeError::LenMismatch { given_len: usize::MAX.min(9223372036854775807), actual_len: 2 })
    );
}

#[test]
fn decode_reports_the_bytes_of_the_frame_only() {
    let (v, used) = Value::decode_with_len(b":5\r\n+next\r\n").unwrap();
    assert_eq!(v, Value::Integer(Integer::new(5)));
    assert_eq!(used, 4);
    let (v, used) = Value::decode_with_len(b"*2\r\n:1\r\n$2\r\nab\r\nrest").unwrap();
    assert_eq!(
        v,
        Value::Array(Array::new(vec![
            Value::Integer(Integer::new(1)),
            Value::BulkString("ab".into())
        ]))
    );
    assert_eq!(used, 16);
}

#[test]
fn decode_null_forms() {
    assert_eq!(Value::decode(b"$-1\r\n"), Ok(Value::BulkString(BulkString::null())));
    assert_eq!(Value::decode(b"*-1\r\n"), Ok(Value::Array(Array::null())));
    assert_ne!(
        Value::decode(b"$0\r\n\r\n"),
        Ok(Value::BulkString(BulkString::null()))
    );
    assert_ne!(Value::decode(b"*0\r\n"), Ok(Value::Array(Array::null())));
}

#[test]
fn decode_empty_bytes() {
    assert_eq!(Value::decode(b""), Err(DecodeError::EmptyBytes));
}

#[test]
fn decode_unknown_type_carries_the_byte() {
    assert_eq!(
        Value::decode(b"?what\r\n"),
        Err(DecodeError::UnknownType { first_byte: b'?' })
    );
}

#[test]
fn decode_line_without_terminator() {
    assert_eq!(Value::decode(b"+OK"), Err(DecodeError::InvalidFormat));
    assert_eq!(Value::decode(b":12\n"), Err(DecodeError::InvalidFormat));
    assert_eq!(Value::decode(b"$2\r\nab"), Err(DecodeError::InvalidFormat));
}

#[test]
fn decode_text_that_is_not_utf8() {
    assert_eq!(Value::decode(b"+\xff\xfe\r\n"), Err(DecodeError::FromUtf8));
    assert_eq!(Value::decode(b":\xff\r\n"), Err(DecodeError::FromUtf8));
}

#[test]
fn decode_integer_errors() {
    assert_eq!(
        Value::decode(b":\r\n"),
        Err(DecodeError::ParseInt(IntErrorKind::Empty))
    );
    assert_eq!(
        Value::decode(b":12a\r\n"),
        Err(DecodeError::ParseInt(IntErrorKind::InvalidDigit))
    );
    assert_eq!(
        Value::decode(b":-\r\n"),
        Err(DecodeError::ParseInt(IntErrorKind::InvalidDigit))
    );
    assert_eq!(
        Value::decode(b":9223372036854775808\r\n"),
        Err(DecodeError::ParseInt(IntErrorKind::PosOverflow))
    );
    assert_eq!(
        Value::decode(b":-9223372036854775809\r\n"),
        Err(DecodeError::ParseInt(IntErrorKind::NegOverflow))
    );
}

#[test]
fn decode_length_mismatch_carries_both_lengths() {
    assert_eq!(
        Value::decode(b"$3\r\nHell\r\n"),
        Err(DecodeError::LenMismatch { given_len: 3, actual_len: 4 })
    );
}

#[test]
fn decode_array_with_a_missing_element() {
    assert_eq!(Value::decode(b"*2\r\n:1\r\n"), Err(DecodeError::EmptyBytes));
}

#[test]
fn decode_array_passes_on_the_error_of_an_element() {
    assert_eq!(
        Value::decode(b"*2\r\n:1\r\n$x\r\n"),
        Err(DecodeError::ParseInt(IntErrorKind::InvalidDigit))
    );
}

#[test]
fn numerals_as_the_standard_library_reads_them() {
    for s in [
        "0", "-0", "+0", "007", "+5", "-5", "", "+", "-", "1a", " 1", "1 ", "--1", "+-1",
        "9223372036854775807", "9223372036854775808", "-9223372036854775808",
        "-9223372036854775809", "18446744073709551615", "18446744073709551616", "65535", "65536",
        "99999999999999999999999999", "-99999999999999999999999999", "1_000",
    ] {
        assert_eq!(parse_i64(s.as_bytes()).ok(), s.parse::<i64>().ok(), "i64 {s:?}");
        assert_eq!(parse_u64(s.as_bytes()).ok(), s.parse::<u64>().ok(), "u64 {s:?}");
        assert_eq!(parse_u16(s.as_bytes()).ok(), s.parse::<u16>().ok(), "u16 {s:?}");
    }
}

#[test]
fn numeral_errors_by_kind() {
    assert_eq!(parse_i64(b""), Err(IntErrorKind::Empty));
    assert_eq!(parse_i64(b"+"), Err(IntErrorKind::InvalidDigit));
    assert_eq!(parse_u64(b"-1"), Err(IntErrorKind::InvalidDigit));
    assert_eq!(parse_u16(b"65536"), Err(IntErrorKind::PosOverflow));
    assert_eq!(parse_i64(b"-9223372036854775809"), Err(IntErrorKind::NegOverflow));
    assert_eq!(parse_i64(b"99999999999999999999x"), Err(IntErrorKind::PosOverflow));
    assert_eq!(parse_i64(b"9x9999999999999999999"), Err(IntErrorKind::InvalidDigit));
}

#[test]
fn numerals_are_written_in_canonical_form() {
    let mut out = b"n=".to_vec();
    push_digits(&mut out, 0);
    push_digits(&mut out, 340282366920938463463374607431768211455);
    assert_eq!(out, b"n=0340282366920938463463374607431768211455".to_vec());
    let mut out = Vec::new();
    push_decimal(&mut out, -42);
    assert_eq!(out, b"-42".to_vec());
}

#[test]
fn token_of_each_first_byte() {
    assert_eq!(Token::from('*'), Some(Token::Star));
    assert_eq!(Token::from('$'), Some(Token::Dollar));
    assert_eq!(Token::from('+'), Some(Token::Plus));
    assert_eq!(Token::from('-'), Some(Token::Minus));
    assert_eq!(Token::from(':'), Some(Token::Colon));
    assert_eq!(Token::from('x'), None);
    for t in [Token::Star, Token::Dollar, Token::Plus, Token::Minus, Token::Colon] {
        assert_eq!(Token::from_byte(t.as_byte()), Some(t));
        assert_eq!(Token::from(t.as_byte() as char), Some(t));
    }
}

#[test]
fn bulk_string_as_text() {
    assert_eq!(BulkString::from("héllo").as_str(), Some("héllo".to_string()));
    assert_eq!(BulkString::new(vec![0xff]).as_str(), None);
    assert_eq!(BulkString::null().as_str(), None);
    assert_eq!(BulkString::null().as_bytes(), None);
    assert_eq!(BulkString::new(Vec::new()).as_bytes(), Some(&b""[..]));
}

#[test]
fn value_accessors_tell_the_kinds_apart() {
    let s = Value::SimpleString(SimpleString::new("a".to_string()));
    assert!(s.simple_string().is_some());
    assert!(s.simple_error().is_none() && s.integer().is_none());
    assert!(s.bulk_string().is_none() && s.array().is_none());
    let e = Value::SimpleError(SimpleError::new("a".to_string()));
    assert_eq!(e.simple_error().unwrap().as_str(), "a");
    assert_ne!(s, e);
    assert!(Value::Array(Array::null()).array().unwrap().values().is_none());
}
