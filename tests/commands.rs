use resp_server::command::handle_redis_command;
use resp_server::server::{dispatch, on_read, respond};
use resp_server::store::Store;
use resp_server::value::RespValue;

fn bulk(s: &str) -> RespValue {
    RespValue::BulkString(s.as_bytes().to_vec())
}

fn send(store: &mut Store, input: &[u8]) -> Vec<u8> {
    respond(store, input)
}

fn error_text(v: &RespValue) -> Vec<u8> {
    match v {
        RespValue::Error(t) => t.clone(),
        other => panic!("not an error: {:?}", other),
    }
}

#[test]
fn end_to_end_set_then_get() {
    let mut store = Store::new();
    assert_eq!(send(&mut store, b"*3\r\n$3\r\nSET\r\n$3\r\nfoo\r\n$3\r\nbar\r\n"), b"+OK\r\n".to_vec());
    assert_eq!(send(&mut store, b"*2\r\n$3\r\nGET\r\n$3\r\nfoo\r\n"), b"$3\r\nbar\r\n".to_vec());
}

#[test]
fn unknown_command_reply() {
    let mut store = Store::new();
    assert_eq!(send(&mut store, b"*1\r\n$4\r\nFOOO\r\n"), b"-ERR unknown command\r\n".to_vec());
}

#[test]
fn ping_is_case_insensitive() {
    let mut store = Store::new();
    for verb in ["ping", "PiNg", "PING"] {
        let input = format!("*1\r\n$4\r\n{}\r\n", verb);
        assert_eq!(send(&mut store, input.as_bytes()), b"+PONG\r\n".to_vec());
    }
}

#[test]
fn malformed_length_gets_protocol_error() {
    let mut store = Store::new();
    assert_eq!(send(&mut store, b"$abc\r\nxyz\r\n"), b"-ERR protocol error\r\n".to_vec());
}

#[test]
fn echo_replies_with_its_argument() {
    let mut store = Store::new();
    assert_eq!(send(&mut store, b"*2\r\n$4\r\necho\r\n$5\r\nhello\r\n"), b"$5\r\nhello\r\n".to_vec());
    assert_eq!(send(&mut store, b"*2\r\n$4\r\nECHO\r\n$0\r\n\r\n"), b"$0\r\n\r\n".to_vec());
}

#[test]
fn echo_with_wrong_arity() {
    let mut store = Store::new();
    let msg = b"-ERR wrong number of arguments for 'echo' command\r\n".to_vec();
    assert_eq!(send(&mut store, b"*1\r\n$4\r\nECHO\r\n"), msg);
    assert_eq!(send(&mut store, b"*3\r\n$4\r\nECHO\r\n$1\r\na\r\n$1\r\nb\r\n"), msg);
}

#[test]
fn set_and_get_with_wrong_arity() {
    let mut store = Store::new();
    assert_eq!(
        send(&mut store, b"*2\r\n$3\r\nSET\r\n$1\r\nk\r\n"),
        b"-ERR wrong number of arguments for 'set' command\r\n".to_vec()
    );
    assert_eq!(
        send(&mut store, b"*1\r\n$3\r\nget\r\n"),
        b"-ERR wrong number of arguments for 'get' command\r\n".to_vec()
    );
    assert_eq!(store.get(b"k"), None);
}

#[test]
fn last_write_wins() {
    let mut store = Store::new();
    send(&mut store, b"*3\r\n$3\r\nSET\r\n$1\r\nk\r\n$2\r\nv1\r\n");
    send(&mut store, b"*3\r\n$3\r\nset\r\n$1\r\nk\r\n$2\r\nv2\r\n");
    assert_eq!(send(&mut store, b"*2\r\n$3\r\nGET\r\n$1\r\nk\r\n"), b"$2\r\nv2\r\n".to_vec());
}

#[test]
fn absent_key_versus_empty_value() {
    let mut store = Store::new();
    assert_eq!(send(&mut store, b"*2\r\n$3\r\nGET\r\n$1\r\nk\r\n"), b"$-1\r\n".to_vec());
    assert_eq!(send(&mut store, b"*3\r\n$3\r\nSET\r\n$1\r\nk\r\n$0\r\n\r\n"), b"+OK\r\n".to_vec());
    assert_eq!(send(&mut store, b"*2\r\n$3\r\nGET\r\n$1\r\nk\r\n"), b"$0\r\n\r\n".to_vec());
}

#[test]
fn request_that_is_not_an_array() {
    let mut store = Store::new();
    assert_eq!(send(&mut store, b"+PING\r\n"), b"-ERR unexpected command format\r\n".to_vec());
    let reply = dispatch(&mut store, &bulk("PING"));
    assert_eq!(error_text(&reply), b"ERR unexpected command format".to_vec());
}

#[test]
fn empty_command_is_unknown() {
    let mut store = Store::new();
    assert_eq!(send(&mut store, b"*0\r\n"), b"-ERR unknown command\r\n".to_vec());
}

#[test]
fn verb_that_is_not_bulk() {
    let mut store = Store::new();
    let reply = handle_redis_command(&mut store, &[RespValue::SimpleString(b"PING".to_vec())]);
    assert_eq!(error_text(&reply), b"ERR invalid command format".to_vec());
}

#[test]
fn argument_that_is_not_bulk() {
    let mut store = Store::new();
    let reply = handle_redis_command(&mut store, &[bulk("ECHO"), RespValue::NullBulkString]);
    assert_eq!(error_text(&reply), b"ERR invalid argument type".to_vec());
    let reply = handle_redis_command(&mut store, &[bulk("SET"), bulk("k"), RespValue::Error(b"e".to_vec())]);
    assert_eq!(error_text(&reply), b"ERR invalid argument type".to_vec());
    let reply = handle_redis_command(&mut store, &[bulk("GET"), RespValue::Array(Vec::new())]);
    assert_eq!(error_text(&reply), b"ERR invalid argument type".to_vec());
    assert_eq!(store.get(b"k"), None);
}

#[test]
fn ping_ignores_extra_arguments() {
    let mut store = Store::new();
    assert_eq!(send(&mut store, b"*2\r\n$4\r\nPING\r\n$1\r\nx\r\n"), b"+PONG\r\n".to_vec());
}

#[test]
fn store_set_returns_previous_value() {
    let mut store = Store::new();
    assert_eq!(store.set(b"a".to_vec(), b"1".to_vec()), None);
    assert_eq!(store.set(b"b".to_vec(), b"2".to_vec()), None);
    assert_eq!(store.set(b"a".to_vec(), b"3".to_vec()), Some(b"1".to_vec()));
    assert_eq!(store.get(b"a"), Some(b"3".to_vec()));
    assert_eq!(store.get(b"b"), Some(b"2".to_vec()));
    assert_eq!(store.get(b"c"), None);
}

#[test]
fn empty_read_closes_the_connection() {
    let mut store = Store::new();
    assert_eq!(on_read(&mut store, b""), None);
    assert_eq!(on_read(&mut store, b"*1\r\n$4\r\nPING\r\n"), Some(b"+PONG\r\n".to_vec()));
}
