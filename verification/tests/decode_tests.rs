use cgi_codec::body::read_body;
use cgi_codec::decoder::decode;
use cgi_codec::environment::{env_pairs_from_headers, headers_from_env, EnvironmentSnapshot};
use cgi_codec::error::Error;
use cgi_codec::request::Method;

fn snapshot(pairs: &[(&str, &str)]) -> EnvironmentSnapshot {
    let vars: Vec<(Vec<u8>, Vec<u8>)> = pairs
        .iter()
        .map(|(k, v)| (k.as_bytes().to_vec(), v.as_bytes().to_vec()))
        .collect();
    EnvironmentSnapshot::new(vars)
}

const MAX: usize = 1 << 20;

#[test]
fn scenario_get_hello_empty_body() {
    let env = snapshot(&[
        ("REQUEST_METHOD", "GET"),
        ("REQUEST_URI", "/hello"),
        ("CONTENT_LENGTH", "0"),
    ]);
    let req = decode(&env, &Vec::new(), MAX).unwrap();
    assert_eq!(req.method, Method::Get);
    assert_eq!(req.target, b"/hello".to_vec());
    assert_eq!(req.body, Vec::<u8>::new());
    assert_eq!(req.headers, Vec::<(Vec<u8>, Vec<u8>)>::new());
    assert_eq!(req.remote_address, b"unknown".to_vec());
    assert_eq!(req.protocol_version, b"unknown".to_vec());
}

#[test]
fn scenario_post_items_body_hello() {
    let env = snapshot(&[
        ("REQUEST_METHOD", "POST"),
        ("REQUEST_URI", "/items"),
        ("CONTENT_LENGTH", "5"),
    ]);
    let req = decode(&env, &b"hello".to_vec(), MAX).unwrap();
    assert_eq!(req.method, Method::Post);
    assert_eq!(req.target, b"/items".to_vec());
    assert_eq!(req.body, b"hello".to_vec());
}

#[test]
fn scenario_post_items_short_stream() {
    let env = snapshot(&[
        ("REQUEST_METHOD", "POST"),
        ("REQUEST_URI", "/items"),
        ("CONTENT_LENGTH", "5"),
    ]);
    let err = decode(&env, &b"hel".to_vec(), MAX).unwrap_err();
    assert_eq!(err, Error::IncompleteBody { expected: 5, actual: 3 });
}

#[test]
fn missing_method_fails() {
    let env = snapshot(&[("REQUEST_URI", "/x")]);
    let err = decode(&env, &Vec::new(), MAX).unwrap_err();
    assert_eq!(err, Error::MissingField(b"REQUEST_METHOD".to_vec()));
}

#[test]
fn empty_method_fails() {
    let env = snapshot(&[("REQUEST_METHOD", ""), ("REQUEST_URI", "/x")]);
    let err = decode(&env, &Vec::new(), MAX).unwrap_err();
    assert_eq!(err, Error::MissingField(b"REQUEST_METHOD".to_vec()));
}

#[test]
fn missing_uri_fails() {
    let env = snapshot(&[("REQUEST_METHOD", "GET")]);
    let err = decode(&env, &Vec::new(), MAX).unwrap_err();
    assert_eq!(err, Error::MissingField(b"REQUEST_URI".to_vec()));
}

#[test]
fn invalid_content_length_fails() {
    let env = snapshot(&[
        ("REQUEST_METHOD", "GET"),
        ("REQUEST_URI", "/x"),
        ("CONTENT_LENGTH", "12a"),
    ]);
    let err = decode(&env, &Vec::new(), MAX).unwrap_err();
    assert_eq!(err, Error::InvalidContentLength);
}

#[test]
fn empty_content_length_fails() {
    let env = snapshot(&[
        ("REQUEST_METHOD", "GET"),
        ("REQUEST_URI", "/x"),
        ("CONTENT_LENGTH", ""),
    ]);
    let err = decode(&env, &Vec::new(), MAX).unwrap_err();
    assert_eq!(err, Error::InvalidContentLength);
}

#[test]
fn content_length_absent_defaults_to_zero() {
    let env = snapshot(&[("REQUEST_METHOD", "GET"), ("REQUEST_URI", "/x")]);
    let req = decode(&env, &b"leftover".to_vec(), MAX).unwrap();
    assert_eq!(req.body, Vec::<u8>::new());
}

#[test]
fn content_length_over_limit_fails() {
    let env = snapshot(&[
        ("REQUEST_METHOD", "POST"),
        ("REQUEST_URI", "/x"),
        ("CONTENT_LENGTH", "11"),
    ]);
    let err = decode(&env, &b"0123456789a".to_vec(), 10).unwrap_err();
    assert_eq!(err, Error::BodyTooLarge);
}

#[test]
fn huge_content_length_fails_as_too_large() {
    let env = snapshot(&[
        ("REQUEST_METHOD", "POST"),
        ("REQUEST_URI", "/x"),
        ("CONTENT_LENGTH", "99999999999999999999999999"),
    ]);
    let err = decode(&env, &Vec::new(), MAX).unwrap_err();
    assert_eq!(err, Error::BodyTooLarge);
}

#[test]
fn unsupported_method_is_a_value_not_an_error() {
    let env = snapshot(&[("REQUEST_METHOD", "PATCH"), ("REQUEST_URI", "/x")]);
    let req = decode(&env, &Vec::new(), MAX).unwrap();
    assert_eq!(req.method, Method::Unsupported(b"PATCH".to_vec()));
}

#[test]
fn http_vars_become_headers_in_order() {
    let env = snapshot(&[
        ("REQUEST_METHOD", "GET"),
        ("REQUEST_URI", "/x"),
        ("HTTP_ACCEPT_ENCODING", "gzip"),
        ("PATH", "/usr/bin"),
        ("HTTP_HOST", "example.test"),
    ]);
    let req = decode(&env, &Vec::new(), MAX).unwrap();
    assert_eq!(
        req.headers,
        vec![
            (b"ACCEPT-ENCODING".to_vec(), b"gzip".to_vec()),
            (b"HOST".to_vec(), b"example.test".to_vec()),
        ]
    );
}

#[test]
fn header_env_round_trip_preserves_pairs_and_order() {
    let env = snapshot(&[
        ("HTTP_ACCEPT_ENCODING", "gzip"),
        ("SHELL", "/bin/sh"),
        ("HTTP_HOST", "example.test"),
        ("HTTP_X_TWO_WORDS", "v"),
    ]);
    let headers = headers_from_env(&env);
    let pairs = env_pairs_from_headers(&headers);
    assert_eq!(
        pairs,
        vec![
            (b"HTTP_ACCEPT_ENCODING".to_vec(), b"gzip".to_vec()),
            (b"HTTP_HOST".to_vec(), b"example.test".to_vec()),
            (b"HTTP_X_TWO_WORDS".to_vec(), b"v".to_vec()),
        ]
    );
}

#[test]
fn remote_address_joins_host_and_port() {
    let env = snapshot(&[
        ("REQUEST_METHOD", "GET"),
        ("REQUEST_URI", "/x"),
        ("REMOTE_ADDR", "127.0.0.1"),
        ("REMOTE_PORT", "8080"),
        ("SERVER_PROTOCOL", "HTTP/1.1"),
    ]);
    let req = decode(&env, &Vec::new(), MAX).unwrap();
    assert_eq!(req.remote_address, b"127.0.0.1:8080".to_vec());
    assert_eq!(req.protocol_version, b"HTTP/1.1".to_vec());
}

#[test]
fn remote_address_without_port_is_bare() {
    let env = snapshot(&[
        ("REQUEST_METHOD", "GET"),
        ("REQUEST_URI", "/x"),
        ("REMOTE_ADDR", "10.0.0.2"),
    ]);
    let req = decode(&env, &Vec::new(), MAX).unwrap();
    assert_eq!(req.remote_address, b"10.0.0.2".to_vec());
}

#[test]
fn read_body_returns_exact_bytes() {
    let available = b"abcdef".to_vec();
    assert_eq!(read_body(6, &available, MAX).unwrap(), b"abcdef".to_vec());
    assert_eq!(read_body(4, &available, MAX).unwrap(), b"abcd".to_vec());
    assert_eq!(read_body(0, &available, MAX).unwrap(), Vec::<u8>::new());
}

#[test]
fn read_body_zero_from_empty_stream() {
    assert_eq!(read_body(0, &Vec::new(), MAX).unwrap(), Vec::<u8>::new());
}

#[test]
fn read_body_short_stream_is_incomplete() {
    let err = read_body(9, &b"abc".to_vec(), MAX).unwrap_err();
    assert_eq!(err, Error::IncompleteBody { expected: 9, actual: 3 });
}

#[test]
fn read_body_over_limit_is_too_large() {
    let err = read_body(11, &b"whatever".to_vec(), 10).unwrap_err();
    assert_eq!(err, Error::BodyTooLarge);
}

#[test]
fn snapshot_lookup_is_first_match_case_sensitive() {
    let env = snapshot(&[("A", "1"), ("A", "2"), ("a", "3")]);
    assert_eq!(env.lookup(b"A"), Some(&b"1".to_vec()));
    assert_eq!(env.lookup(b"a"), Some(&b"3".to_vec()));
    assert_eq!(env.lookup(b"B"), None);
}

#[test]
fn duplicate_header_variables_are_kept_in_order() {
    let env = snapshot(&[
        ("REQUEST_METHOD", "GET"),
        ("REQUEST_URI", "/x"),
        ("HTTP_VIA", "proxy-a"),
        ("HTTP_VIA", "proxy-b"),
    ]);
    let req = decode(&env, &Vec::new(), MAX).unwrap();
    assert_eq!(
        req.headers,
        vec![
            (b"VIA".to_vec(), b"proxy-a".to_vec()),
            (b"VIA".to_vec(), b"proxy-b".to_vec()),
        ]
    );
}

#[test]
fn content_length_with_leading_zeros_parses() {
    let env = snapshot(&[
        ("REQUEST_METHOD", "POST"),
        ("REQUEST_URI", "/x"),
        ("CONTENT_LENGTH", "005"),
    ]);
    let req = decode(&env, &b"12345".to_vec(), MAX).unwrap();
    assert_eq!(req.body, b"12345".to_vec());
}
