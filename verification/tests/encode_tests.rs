use cgi_codec::boundary::{
    exit_code, resolve_dispatch, resolve_failure, BoundaryVerdict, DispatchOutcome, OutputProgress,
};
use cgi_codec::encoder::{encode_cgi, encode_framed, reason_phrase};
use cgi_codec::error::Error;
use cgi_codec::numbers::{format_decimal, parse_decimal, ParsedNumber};
use cgi_codec::response::{Response, ResponseBody};

fn ok_response(body: &[u8]) -> Response {
    Response {
        status_code: 200,
        headers: vec![(b"Content-Type".to_vec(), b"text/plain".to_vec())],
        body: ResponseBody::Bytes(body.to_vec()),
    }
}

#[test]
fn framed_encoding_exact_bytes() {
    let out = encode_framed(&ok_response(b"hi"));
    assert_eq!(
        out,
        b"HTTP/1.1 200 OK\r\nContent-Type: text/plain\r\nContent-Length: 2\r\n\r\nhi\r\n".to_vec()
    );
}

#[test]
fn framed_content_length_equals_body_length() {
    let body: Vec<u8> = (0..37u8).collect();
    let resp = Response { status_code: 200, headers: Vec::new(), body: ResponseBody::Bytes(body.clone()) };
    let out = encode_framed(&resp);
    let needle = b"Content-Length: 37\r\n";
    let pos = out
        .windows(needle.len())
        .position(|w| w == needle)
        .expect("a Content-Length line stating the body length");
    let sep = out
        .windows(4)
        .position(|w| w == b"\r\n\r\n")
        .expect("the header/body separator");
    assert!(pos < sep);
    assert_eq!(&out[sep + 4..sep + 4 + 37], body.as_slice());
    assert_eq!(out.len(), sep + 4 + 37 + 2);
}

#[test]
fn framed_stream_with_known_length_emits_header_only() {
    let resp = Response {
        status_code: 200,
        headers: Vec::new(),
        body: ResponseBody::Stream(Some(99)),
    };
    let out = encode_framed(&resp);
    assert_eq!(out, b"HTTP/1.1 200 OK\r\nContent-Length: 99\r\n\r\n".to_vec());
}

#[test]
fn framed_stream_with_unknown_length_has_no_content_length() {
    let resp = Response { status_code: 200, headers: Vec::new(), body: ResponseBody::Stream(None) };
    let out = encode_framed(&resp);
    assert_eq!(out, b"HTTP/1.1 200 OK\r\n\r\n".to_vec());
}

#[test]
fn cgi_default_status_has_no_status_line() {
    let out = encode_cgi(&ok_response(b"<p>ok</p>"));
    assert_eq!(out, b"Content-Type: text/plain\r\n\r\n<p>ok</p>".to_vec());
}

#[test]
fn cgi_non_default_status_gets_status_line() {
    let resp = Response { status_code: 404, headers: Vec::new(), body: ResponseBody::Bytes(b"gone".to_vec()) };
    let out = encode_cgi(&resp);
    assert_eq!(out, b"Status: 404\r\n\r\ngone".to_vec());
}

#[test]
fn reason_phrases_by_code() {
    assert_eq!(reason_phrase(200), b"OK".to_vec());
    assert_eq!(reason_phrase(404), b"Not Found".to_vec());
    assert_eq!(reason_phrase(500), b"Internal Server Error".to_vec());
    assert_eq!(reason_phrase(302), b"Status".to_vec());
}

#[test]
fn format_decimal_exact() {
    assert_eq!(format_decimal(0), b"0".to_vec());
    assert_eq!(format_decimal(7), b"7".to_vec());
    assert_eq!(format_decimal(12345), b"12345".to_vec());
    assert_eq!(format_decimal(u64::MAX), b"18446744073709551615".to_vec());
}

#[test]
fn parse_decimal_exact() {
    assert_eq!(parse_decimal(b"0"), ParsedNumber::Value(0));
    assert_eq!(parse_decimal(b"00042"), ParsedNumber::Value(42));
    assert_eq!(parse_decimal(b"18446744073709551615"), ParsedNumber::Value(u64::MAX));
    assert_eq!(parse_decimal(b"18446744073709551616"), ParsedNumber::Overflow);
    assert_eq!(parse_decimal(b""), ParsedNumber::NotANumber);
    assert_eq!(parse_decimal(b"1x"), ParsedNumber::NotANumber);
    assert_eq!(parse_decimal(b"-1"), ParsedNumber::NotANumber);
}

#[test]
fn scenario_abort_before_output_yields_500() {
    let verdict = resolve_dispatch(DispatchOutcome::Aborted, OutputProgress::NotStarted);
    match &verdict {
        BoundaryVerdict::ErrorResponse(resp) => {
            assert_eq!(resp.status_code, 500);
            assert_eq!(resp.body, ResponseBody::Bytes(b"upstream handler failure".to_vec()));
        }
        other => panic!("expected an error response, got {:?}", other),
    }
    assert_eq!(exit_code(&verdict), 0);
}

#[test]
fn scenario_abort_after_headers_terminates() {
    let verdict = resolve_dispatch(DispatchOutcome::Aborted, OutputProgress::HeadersSent);
    assert_eq!(verdict, BoundaryVerdict::Terminate(Error::UpstreamHandlerFailure));
    assert_eq!(exit_code(&verdict), 1);
}

#[test]
fn completed_dispatch_is_delivered() {
    let resp = ok_response(b"fine");
    let verdict = resolve_dispatch(DispatchOutcome::Completed(resp.clone()), OutputProgress::NotStarted);
    assert_eq!(verdict, BoundaryVerdict::Deliver(resp));
    assert_eq!(exit_code(&verdict), 0);
}

#[test]
fn decode_failure_before_output_becomes_500() {
    let verdict = resolve_failure(Error::InvalidContentLength, OutputProgress::NotStarted);
    match verdict {
        BoundaryVerdict::ErrorResponse(resp) => {
            assert_eq!(resp.status_code, 500);
            assert_eq!(resp.body, ResponseBody::Bytes(b"invalid content length".to_vec()));
        }
        other => panic!("expected an error response, got {:?}", other),
    }
}

#[test]
fn write_failure_after_headers_terminates() {
    let verdict = resolve_failure(Error::OutputWriteFailure, OutputProgress::HeadersSent);
    assert_eq!(verdict, BoundaryVerdict::Terminate(Error::OutputWriteFailure));
    assert_eq!(exit_code(&verdict), 1);
}

#[test]
fn error_descriptions_name_each_kind() {
    assert_eq!(Error::MissingField(b"X".to_vec()).describe(), b"missing required field".to_vec());
    assert_eq!(Error::IncompleteBody { expected: 2, actual: 1 }.describe(), b"incomplete body".to_vec());
    assert_eq!(Error::BodyTooLarge.describe(), b"body too large".to_vec());
    assert_eq!(Error::MalformedRequestLine.describe(), b"malformed request line".to_vec());
    assert_eq!(Error::UnsupportedMethod.describe(), b"unsupported method".to_vec());
    assert_eq!(Error::OutputWriteFailure.describe(), b"output write failure".to_vec());
}

#[test]
fn encoded_error_response_is_a_full_500_frame() {
    let resp = cgi_codec::boundary::error_response(&Error::BodyTooLarge);
    let out = encode_framed(&resp);
    assert_eq!(
        out,
        b"HTTP/1.1 500 Internal Server Error\r\nContent-Length: 14\r\n\r\nbody too large\r\n"
            .to_vec()
    );
}

#[test]
fn cgi_stream_body_encodes_head_only() {
    let resp = Response { status_code: 200, headers: vec![(b"A".to_vec(), b"b".to_vec())], body: ResponseBody::Stream(None) };
    let out = encode_cgi(&resp);
    assert_eq!(out, b"A: b\r\n\r\n".to_vec());
}

#[test]
fn framed_duplicate_headers_written_in_order() {
    let resp = Response {
        status_code: 200,
        headers: vec![
            (b"Set-Cookie".to_vec(), b"a=1".to_vec()),
            (b"Set-Cookie".to_vec(), b"b=2".to_vec()),
        ],
        body: ResponseBody::Bytes(Vec::new()),
    };
    let out = encode_framed(&resp);
    assert_eq!(
        out,
        b"HTTP/1.1 200 OK\r\nSet-Cookie: a=1\r\nSet-Cookie: b=2\r\nContent-Length: 0\r\n\r\n\r\n"
            .to_vec()
    );
}
