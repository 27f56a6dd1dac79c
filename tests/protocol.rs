use resp_server::decode::{parse_array, parse_redis_protocol, LineCursor};
use resp_server::encode::{encode, encode_command};
use resp_server::number::parse_length;
use resp_server::value::{ParseError, RespValue};

fn bulk(s: &str) -> RespValue {
    RespValue::BulkString(s.as_bytes().to_vec())
}

fn payloads(v: &RespValue) -> Vec<Vec<u8>> {
    match v {
        RespValue::Array(items) => items
            .iter()
            .map(|i| match i {
                RespValue::BulkString(b) => b.clone(),
                other => panic!("not a bulk string: {:?}", other),
            })
            .collect(),
        other => panic!("not an array: {:?}", other),
    }
}

#[test]
fn round_trip_of_bulk_arguments() {
    let args: Vec<Vec<u8>> = vec![b"SET".to_vec(), b"".to_vec(), b"a longer value!".to_vec()];
    let wire = encode_command(&args);
    assert_eq!(wire, b"*3\r\n$3\r\nSET\r\n$0\r\n\r\n$15\r\na longer value!\r\n".to_vec());
    let decoded = parse_redis_protocol(&wire).unwrap();
    assert_eq!(payloads(&decoded), args);
}

#[test]
fn round_trip_of_empty_array() {
    let wire = encode_command(&Vec::new());
    assert_eq!(wire, b"*0\r\n".to_vec());
    assert!(payloads(&parse_redis_protocol(&wire).unwrap()).is_empty());
}

#[test]
fn decodes_simple_and_error_strings() {
    match parse_redis_protocol(b"+hello world\r\n").unwrap() {
        RespValue::SimpleString(s) => assert_eq!(s, b"hello world".to_vec()),
        other => panic!("{:?}", other),
    }
    match parse_redis_protocol(b"-ERR bad\r\n").unwrap() {
        RespValue::Error(s) => assert_eq!(s, b"ERR bad".to_vec()),
        other => panic!("{:?}", other),
    }
}

#[test]
fn decodes_bulk_string_and_ignores_trailing_bytes() {
    match parse_redis_protocol(b"$5\r\nhello\r\n+ignored\r\n").unwrap() {
        RespValue::BulkString(s) => assert_eq!(s, b"hello".to_vec()),
        other => panic!("{:?}", other),
    }
}

#[test]
fn malformed_length_is_invalid_length() {
    assert_eq!(parse_redis_protocol(b"$abc\r\nxyz\r\n").unwrap_err(), ParseError::InvalidLength);
    assert_eq!(parse_redis_protocol(b"*x\r\n").unwrap_err(), ParseError::InvalidLength);
}

#[test]
fn negative_length_is_invalid_length() {
    assert_eq!(parse_redis_protocol(b"*-1\r\n").unwrap_err(), ParseError::InvalidLength);
    assert_eq!(parse_redis_protocol(b"$-1\r\n").unwrap_err(), ParseError::InvalidLength);
}

#[test]
fn unknown_marker_is_invalid_format() {
    assert_eq!(parse_redis_protocol(b"hello\r\n").unwrap_err(), ParseError::InvalidFormat);
    assert_eq!(parse_redis_protocol(b"").unwrap_err(), ParseError::InvalidFormat);
    assert_eq!(parse_redis_protocol(b"\r\n+x\r\n").unwrap_err(), ParseError::InvalidFormat);
}

#[test]
fn array_element_that_is_not_bulk_is_invalid_format() {
    assert_eq!(parse_redis_protocol(b"*1\r\n+PING\r\n").unwrap_err(), ParseError::InvalidFormat);
}

#[test]
fn payload_of_wrong_length_is_malformed() {
    assert_eq!(parse_redis_protocol(b"$3\r\nab\r\n").unwrap_err(), ParseError::MalformedInput);
    assert_eq!(parse_redis_protocol(b"$3\r\nabcd\r\n").unwrap_err(), ParseError::MalformedInput);
}

#[test]
fn missing_lines_are_unexpected_end() {
    assert_eq!(
        parse_redis_protocol(b"*2\r\n$3\r\nGET").unwrap_err(),
        ParseError::UnexpectedEnd
    );
    assert_eq!(parse_redis_protocol(b"$3").unwrap_err(), ParseError::UnexpectedEnd);
}

#[test]
fn parse_array_moves_past_its_elements() {
    let mut cursor = LineCursor::new(b"*1\r\n$4\r\nPING\r\n+next\r\n");
    let v = parse_array(&mut cursor).unwrap();
    assert_eq!(payloads(&v), vec![b"PING".to_vec()]);
    assert_eq!(cursor.pos, 3);
}

#[test]
fn length_header_forms() {
    assert_eq!(parse_length(b"$12", 1), Some(12));
    assert_eq!(parse_length(b"$+5", 1), Some(5));
    assert_eq!(parse_length(b"$-0", 1), Some(0));
    assert_eq!(parse_length(b"$2147483647", 1), Some(2147483647));
    assert_eq!(parse_length(b"$2147483648", 1), None);
    assert_eq!(parse_length(b"$", 1), None);
    assert_eq!(parse_length(b"$+", 1), None);
    assert_eq!(parse_length(b"$-3", 1), None);
    assert_eq!(parse_length(b"$1 ", 1), None);
}

#[test]
fn encodes_each_reply_shape() {
    assert_eq!(encode(&RespValue::SimpleString(b"OK".to_vec())), b"+OK\r\n".to_vec());
    assert_eq!(encode(&bulk("bar")), b"$3\r\nbar\r\n".to_vec());
    assert_eq!(encode(&bulk("")), b"$0\r\n\r\n".to_vec());
    assert_eq!(encode(&RespValue::NullBulkString), b"$-1\r\n".to_vec());
    assert_eq!(encode(&RespValue::Error(b"ERR x".to_vec())), b"-ERR x\r\n".to_vec());
    assert_eq!(
        encode(&RespValue::Array(vec![bulk("a"), bulk("bc")])),
        b"*2\r\n$1\r\na\r\n$2\r\nbc\r\n".to_vec()
    );
}
