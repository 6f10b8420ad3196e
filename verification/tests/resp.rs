use resp_kv::redis::resp::{read_until_crlf, DecodeError, Value};

#[test]
fn read_until_crlf_ok() {
    match read_until_crlf(b"$4\r\nOK22\r\n") {
        Some((bytes, len)) => {
            assert_eq!(bytes, b"$4");
            assert_eq!(len, 4);
        }
        None => panic!("Unexpected read until crlf error"),
    }
}

#[test]
fn decode_simple_string() {
    let resp = Value::decode(b"+OK\r\n").expect("Decode simple string unexpected error");
    match resp {
        Value::SimpleString(s) => assert_eq!(s.as_str(), "OK"),
        any => panic!("Wrong type for decode simple string: {:?}", any),
    }
}

#[test]
fn decode_simple_error() {
    let resp =
        Value::decode(b"-ERR something\r\n").expect("Decode simple error unexpected error");
    match resp {
        Value::SimpleError(s) => assert_eq!(s.as_str(), "ERR something"),
        any => panic!("Wrong type for decode simple error: {:?}", any),
    }
}

#[test]
fn decode_integer() {
    let resp = Value::decode(b":123\r\n").expect("Decode integer unexpected error");
    match resp {
        Value::Integer(i) => assert_eq!(i.as_int(), 123),
        any => panic!("Wrong type for decode integer: {:?}", any),
    }
}

#[test]
fn decode_bulk_string() {
    let resp = Value::decode(b"$4\r\nHell\r\n").expect("Decode bulk string unexpected error");
    match resp {
        Value::BulkString(bs) => assert_eq!(bs.as_bytes(), Some("Hell".as_bytes())),
        any => panic!("Wrong type for decode bulk string: {:?}", any),
    }
}

#[test]
fn decode_bulk_string_mismatch_len() {
    let err = Value::decode(b"$3\r\nHell\r\n").expect_err("Decode bulk string no error");
    match err {
        DecodeError::LenMismatch { .. } => (),
        any => panic!("Wrong error for decode bulk string: {:?}", any),
    }
}

#[test]
fn decode_bulk_string_parse_len_error() {
    let err = Value::decode(b"$Liberty\r\n").expect_err("Decode bulk string no error");
    match err {
        DecodeError::ParseInt(_) => (),
        any => panic!("Wrong error for decode bulk string: {:?}", any),
    }
}

#[test]
fn decode_array() {
    let resp = Value::decode(b"*2\r\n:12\r\n+Yea\r\n").expect("Decode array unexpected error");
    match resp {
        Value::Array(arr) => {
            let mut iter = arr.values().unwrap().iter();
            assert_eq!(iter.next().unwrap().integer().unwrap().as_int(), 12);
            assert_eq!(
                iter.next().unwrap().simple_string().unwrap().as_str(),
                "Yea"
            );
        }
        _ => panic!("Wrong type for decode array"),
    }
}

#[test]
fn decode_array_nested() {
    let resp = Value::decode(
        b"*2\r\n*3\r\n:12\r\n+Yea\r\n-Oopsie\r\n*2\r\n$5\r\nHello\r\n$4\r\nGGWP\r\n",
    )
    .expect("Decode array unexpected error");
    match resp {
        Value::Array(arr) => {
            let first_values = arr
                .values()
                .unwrap()
                .get(0)
                .unwrap()
                .array()
                .unwrap()
                .values()
                .unwrap();
            assert_eq!(first_values.get(0).unwrap().integer().unwrap().as_int(), 12);
            assert_eq!(
                first_values
                    .get(1)
                    .unwrap()
                    .simple_string()
                    .unwrap()
                    .as_str(),
                "Yea"
            );
            assert_eq!(
                first_values
                    .get(2)
                    .unwrap()
                    .simple_error()
                    .unwrap()
                    .as_str(),
                "Oopsie"
            );

            let second_values = arr
                .values()
                .unwrap()
                .get(1)
                .unwrap()
                .array()
                .unwrap()
                .values()
                .unwrap();
            assert_eq!(
                second_values
                    .get(0)
                    .unwrap()
                    .bulk_string()
                    .unwrap()
                    .as_bytes(),
                Some("Hello".as_bytes())
            );
            assert_eq!(
                second_values
                    .get(1)
                    .unwrap()
                    .bulk_string()
                    .unwrap()
                    .as_bytes(),
                Some("GGWP".as_bytes())
            );
        }
        _ => panic!("Wrong type for decode array"),
    }
}
