use protohackers::server::Metrics;
use protohackers::unusual_database::db::{is_version_key, KVStore, StoreError};
use protohackers::unusual_database::handler::{handle, Handled};
use protohackers::unusual_database::protocol::{
    format_response, parse_request, ProtocolError, Request, EQUALS, MAX_PACKET_SIZE,
};

#[test]
fn packet_with_equals_sign_is_an_insert() {
    assert_eq!(
        parse_request(b"foo=bar"),
        Ok(Request::Insert { key: b"foo".to_vec(), value: b"bar".to_vec() })
    );
    assert_eq!(
        parse_request(b"foo=bar=baz"),
        Ok(Request::Insert { key: b"foo".to_vec(), value: b"bar=baz".to_vec() })
    );
    assert_eq!(
        parse_request(b"foo="),
        Ok(Request::Insert { key: b"foo".to_vec(), value: Vec::new() })
    );
    assert_eq!(
        parse_request(b"foo==="),
        Ok(Request::Insert { key: b"foo".to_vec(), value: b"==".to_vec() })
    );
    assert_eq!(
        parse_request(b"=foo"),
        Ok(Request::Insert { key: Vec::new(), value: b"foo".to_vec() })
    );
}

#[test]
fn packet_without_equals_sign_is_a_retrieve() {
    assert_eq!(parse_request(b"foo"), Ok(Request::Retrieve { key: b"foo".to_vec() }));
    assert_eq!(parse_request(b""), Ok(Request::Retrieve { key: Vec::new() }));
}

#[test]
fn packet_of_more_than_1000_bytes_is_too_long() {
    assert_eq!(MAX_PACKET_SIZE, 1000);
    assert_eq!(EQUALS, b'=');
    assert_eq!(parse_request(&[b'a'; 1001]), Err(ProtocolError::TooLong));
    assert_eq!(parse_request(&[b'='; 1001]), Err(ProtocolError::TooLong));
    assert_eq!(parse_request(&[b'a'; 1000]), Ok(Request::Retrieve { key: vec![b'a'; 1000] }));
}

#[test]
fn response_is_key_equals_value() {
    assert_eq!(format_response(b"foo", b"bar"), b"foo=bar".to_vec());
    assert_eq!(format_response(b"foo", b""), b"foo=".to_vec());
    assert_eq!(format_response(b"", b"x=y"), b"=x=y".to_vec());
}

#[test]
fn store_starts_with_its_version() {
    let store = KVStore::new();
    assert_eq!(store.get(b"version"), Some(b"KVStore 2.0".to_vec()));
    assert_eq!(store.get(b"other"), None);
    assert!(is_version_key(b"version"));
    assert!(!is_version_key(b"Version"));
    assert!(!is_version_key(b"version "));
    assert!(!is_version_key(b""));
}

#[test]
fn store_keeps_the_last_value_of_a_key() {
    let mut store = KVStore::new();
    assert_eq!(store.insert(b"foo", b"bar"), Ok(()));
    assert_eq!(store.insert(b"baz", b""), Ok(()));
    assert_eq!(store.get(b"foo"), Some(b"bar".to_vec()));
    assert_eq!(store.get(b"baz"), Some(Vec::new()));
    assert_eq!(store.insert(b"foo", b"qux"), Ok(()));
    assert_eq!(store.get(b"foo"), Some(b"qux".to_vec()));
    assert_eq!(store.get(b"baz"), Some(Vec::new()));
    assert_eq!(store.insert(b"", b"empty key"), Ok(()));
    assert_eq!(store.get(b""), Some(b"empty key".to_vec()));
}

#[test]
fn store_refuses_to_write_its_version() {
    let mut store = KVStore::new();
    assert_eq!(store.insert(b"version", b"hacked"), Err(StoreError::ReservedKey));
    assert_eq!(store.get(b"version"), Some(b"KVStore 2.0".to_vec()));
    assert_eq!(StoreError::ReservedKey.message(), "Key cannot be 'version'");
}

#[test]
fn handler_answers_retrievals_only() {
    let mut store = KVStore::new();
    let mut metrics = Metrics::new();
    assert_eq!(handle(&mut store, &mut metrics, b"foo=bar"), Handled::Stored);
    assert_eq!(handle(&mut store, &mut metrics, b"foo"), Handled::Reply(b"foo=bar".to_vec()));
    assert_eq!(
        handle(&mut store, &mut metrics, b"missing"),
        Handled::Reply(b"missing=".to_vec())
    );
    assert_eq!(handle(&mut store, &mut metrics, b"version=1"), Handled::Ignored);
    assert_eq!(
        handle(&mut store, &mut metrics, b"version"),
        Handled::Reply(b"version=KVStore 2.0".to_vec())
    );
    assert_eq!(metrics.snapshot().errors_total, 0);
    assert_eq!(
        handle(&mut store, &mut metrics, &[b'x'; 1001]),
        Handled::Rejected(ProtocolError::TooLong)
    );
    assert_eq!(metrics.snapshot().errors_total, 1);
    assert_eq!(handle(&mut store, &mut metrics, b"foo=bar=baz"), Handled::Stored);
    assert_eq!(
        handle(&mut store, &mut metrics, b"foo"),
        Handled::Reply(b"foo=bar=baz".to_vec())
    );
    assert_eq!(metrics.snapshot().bytes_sent, 0);
    assert_eq!(metrics.snapshot().bytes_received, 0);
}
