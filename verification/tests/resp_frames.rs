use resp_kv::resp::{DecodeError, Decoder, Value};

#[test]
fn resp_decode_simple_string() {
    let resp = Decoder::decode(b"+OK\r\n").expect("Decode simple string unexpected error");
    match resp {
        Value::SimpleString(s) => assert_eq!(s.to_string(), "OK"),
        any => panic!("Wrong type for decode simple string: {:?}", any),
    }
}

#[test]
fn resp_decode_simple_error() {
    let resp =
        Decoder::decode(b"-ERR something\r\n").expect("Decode simple error unexpected error");
    match resp {
        Value::SimpleError(s) => assert_eq!(s.to_string(), "ERR something"),
        any => panic!("Wrong type for decode simple error: {:?}", any),
    }
}

#[test]
fn resp_decode_integer() {
    let resp = Decoder::decode(b":123\r\n").expect("Decode integer unexpected error");
    match resp {
        Value::Integer(i) => assert_eq!(i.i(), 123),
        any => panic!("Wrong type for decode integer: {:?}", any),
    }
}

#[test]
fn resp_decode_bulk_string() {
    let resp = Decoder::decode(b"$4\r\nHell\r\n").expect("Decode bulk string unexpected error");
    match resp {
        Value::BulkString(bs) => assert_eq!(bs.bytes(), b"Hell"),
        any => panic!("Wrong type for decode bulk string: {:?}", any),
    }
}

#[test]
fn resp_decode_bulk_string_mismatch_len() {
    let err = Decoder::decode(b"$3\r\nHell\r\n").expect_err("Decode bulk string no error");
    match err {
        DecodeError::BulkLenMismatch { .. } => (),
        any => panic!("Wrong error for decode bulk string: {:?}", any),
    }
}

#[test]
fn decode_bulk_string_invalid_format() {
    let err = Decoder::decode(b"$Liberty\r\n").expect_err("Decode bulk string no error");
    match err {
        DecodeError::InvalidBulkFormat => (),
        any => panic!("Wrong error for decode bulk string: {:?}", any),
    }
}

#[test]
fn resp_decode_array() {
    let resp =
        Decoder::decode(b"*2\r\n:12\r\n+Yea\r\n").expect("Decode array unexpected error");
    match resp {
        Value::Array(arr) => {
            let mut iter = arr.values().iter();
            assert_eq!(iter.next().unwrap().integer().unwrap().i(), 12);
            assert_eq!(iter.next().unwrap().simple_string().unwrap().s(), "Yea");
        }
        _ => panic!("Wrong type for decode array"),
    }
}

#[test]
fn resp_decode_array_nested() {
    let resp = Decoder::decode(
        b"*2\r\n*3\r\n:12\r\n+Yea\r\n-Oopsie\r\n*2\r\n$5\r\nHello\r\n$4\r\nGGWP\r\n",
    )
    .expect("Decode array unexpected error");
    match resp {
        Value::Array(arr) => {
            let first_values = arr.values().get(0).unwrap().array().unwrap().values();
            assert_eq!(first_values.get(0).unwrap().integer().unwrap().i(), 12);
            assert_eq!(
                first_values.get(1).unwrap().simple_string().unwrap().s(),
                "Yea"
            );
            assert_eq!(
                first_values.get(2).unwrap().simple_error().unwrap().s(),
                "Oopsie"
            );

            let second_values = arr.values().get(1).unwrap().array().unwrap().values();
            assert_eq!(
                second_values.get(0).unwrap().bulk_string().unwrap().bytes(),
                "Hello".as_bytes()
            );
            assert_eq!(
                second_values.get(1).unwrap().bulk_string().unwrap().bytes(),
                "GGWP".as_bytes()
            );
        }
        _ => panic!("Wrong type for decode array"),
    }
}
