use cgi_codec::encoder::encode_framed;
use cgi_codec::error::Error;
use cgi_codec::frame::{CodecState, FrameCodec};
use cgi_codec::request::Method;
use cgi_codec::response::{Response, ResponseBody};

const MAX: usize = 1 << 20;

#[test]
fn one_chunk_simple_get() {
    let mut codec = FrameCodec::new(MAX);
    codec.feed(b"GET /x HTTP/1.1\r\n\r\n");
    let req = codec.try_decode().unwrap().unwrap();
    assert_eq!(req.method, Method::Get);
    assert_eq!(req.target, b"/x".to_vec());
    assert_eq!(req.body, Vec::<u8>::new());
    assert_eq!(req.protocol_version, b"HTTP/1.1".to_vec());
    assert_eq!(codec.buffered(), 0);
}

#[test]
fn scenario_split_at_every_boundary() {
    let whole: &[u8] = b"GET /x HTTP/1.1\r\n\r\n";
    let reference = {
        let mut codec = FrameCodec::new(MAX);
        codec.feed(whole);
        codec.try_decode().unwrap().unwrap()
    };
    for cut in 0..=whole.len() {
        let mut codec = FrameCodec::new(MAX);
        codec.feed(&whole[..cut]);
        let mut decoded = codec.try_decode().unwrap();
        if cut < whole.len() {
            assert_eq!(decoded, None, "no frame before all bytes arrived (cut {})", cut);
        }
        codec.feed(&whole[cut..]);
        if decoded.is_none() {
            decoded = codec.try_decode().unwrap();
        }
        let req = decoded.unwrap();
        assert_eq!(req, reference, "split at {} changed the decoded request", cut);
        assert_eq!(codec.buffered(), 0);
    }
}

#[test]
fn frame_with_headers_and_body() {
    let mut codec = FrameCodec::new(MAX);
    codec.feed(b"POST /items HTTP/1.0\r\nHost: example.test\r\nContent-Length: 5\r\n\r\nhello");
    let req = codec.try_decode().unwrap().unwrap();
    assert_eq!(req.method, Method::Post);
    assert_eq!(req.target, b"/items".to_vec());
    assert_eq!(req.protocol_version, b"HTTP/1.0".to_vec());
    assert_eq!(
        req.headers,
        vec![
            (b"Host".to_vec(), b"example.test".to_vec()),
            (b"Content-Length".to_vec(), b"5".to_vec()),
        ]
    );
    assert_eq!(req.body, b"hello".to_vec());
    assert_eq!(codec.buffered(), 0);
}

#[test]
fn body_waits_for_declared_length() {
    let mut codec = FrameCodec::new(MAX);
    codec.feed(b"POST /w HTTP/1.1\r\nContent-Length: 4\r\n\r\nab");
    assert_eq!(codec.try_decode().unwrap(), None);
    assert_eq!(codec.state(), CodecState::HeadersComplete);
    codec.feed(b"cd");
    let req = codec.try_decode().unwrap().unwrap();
    assert_eq!(req.body, b"abcd".to_vec());
    assert_eq!(codec.state(), CodecState::AwaitingHeaders);
}

#[test]
fn needs_more_before_separator() {
    let mut codec = FrameCodec::new(MAX);
    codec.feed(b"GET /x HT");
    assert_eq!(codec.try_decode().unwrap(), None);
    assert_eq!(codec.state(), CodecState::AwaitingHeaders);
    assert_eq!(codec.buffered(), 9);
}

#[test]
fn excess_bytes_stay_for_the_next_frame() {
    let mut codec = FrameCodec::new(MAX);
    codec.feed(b"GET /a HTTP/1.1\r\n\r\nGET /b HTTP/1.1\r\n\r\n");
    let first = codec.try_decode().unwrap().unwrap();
    assert_eq!(first.target, b"/a".to_vec());
    assert_eq!(codec.buffered(), 19);
    let second = codec.try_decode().unwrap().unwrap();
    assert_eq!(second.target, b"/b".to_vec());
    assert_eq!(codec.buffered(), 0);
}

#[test]
fn pipelined_body_frames_in_order() {
    let mut codec = FrameCodec::new(MAX);
    codec.feed(b"POST /1 H\r\nContent-Length: 2\r\n\r\naaPOST /2 H\r\nContent-Length: 3\r\n\r\nbbb");
    let first = codec.try_decode().unwrap().unwrap();
    assert_eq!(first.body, b"aa".to_vec());
    let second = codec.try_decode().unwrap().unwrap();
    assert_eq!(second.body, b"bbb".to_vec());
    assert_eq!(codec.try_decode().unwrap(), None);
}

#[test]
fn malformed_request_line_fails() {
    let mut codec = FrameCodec::new(MAX);
    codec.feed(b"NOSPACES\r\n\r\n");
    let err = codec.try_decode().unwrap_err();
    assert_eq!(err, Error::MalformedRequestLine);
}

#[test]
fn invalid_content_length_header_fails() {
    let mut codec = FrameCodec::new(MAX);
    codec.feed(b"GET /x HTTP/1.1\r\nContent-Length: five\r\n\r\n");
    let err = codec.try_decode().unwrap_err();
    assert_eq!(err, Error::InvalidContentLength);
}

#[test]
fn frame_content_length_over_limit_fails() {
    let mut codec = FrameCodec::new(16);
    codec.feed(b"GET /x HTTP/1.1\r\nContent-Length: 17\r\n\r\n");
    let err = codec.try_decode().unwrap_err();
    assert_eq!(err, Error::BodyTooLarge);
}

#[test]
fn content_length_name_compares_case_insensitively() {
    let mut codec = FrameCodec::new(MAX);
    codec.feed(b"POST /x HTTP/1.1\r\ncontent-length: 2\r\n\r\nok");
    let req = codec.try_decode().unwrap().unwrap();
    assert_eq!(req.body, b"ok".to_vec());
}

#[test]
fn unsupported_method_decodes_in_frame() {
    let mut codec = FrameCodec::new(MAX);
    codec.feed(b"DELETE /x HTTP/1.1\r\n\r\n");
    let req = codec.try_decode().unwrap().unwrap();
    assert_eq!(req.method, Method::Unsupported(b"DELETE".to_vec()));
}

#[test]
fn request_line_without_protocol_gets_sentinel() {
    let mut codec = FrameCodec::new(MAX);
    codec.feed(b"GET /only\r\n\r\n");
    let req = codec.try_decode().unwrap().unwrap();
    assert_eq!(req.target, b"/only".to_vec());
    assert_eq!(req.protocol_version, b"unknown".to_vec());
    assert_eq!(req.remote_address, b"unknown".to_vec());
}

#[test]
fn header_value_leading_spaces_are_trimmed() {
    let mut codec = FrameCodec::new(MAX);
    codec.feed(b"GET /x HTTP/1.1\r\nA:   padded value\r\n\r\n");
    let req = codec.try_decode().unwrap().unwrap();
    assert_eq!(req.headers, vec![(b"A".to_vec(), b"padded value".to_vec())]);
}

#[test]
fn decoded_request_does_not_change_when_buffer_is_reused() {
    let mut codec = FrameCodec::new(MAX);
    codec.feed(b"GET /keep HTTP/1.1\r\n\r\n");
    let req = codec.try_decode().unwrap().unwrap();
    codec.feed(b"GET /other HTTP/1.1\r\n\r\n");
    let _ = codec.try_decode().unwrap().unwrap();
    assert_eq!(req.target, b"/keep".to_vec());
}

#[test]
fn codec_encode_matches_free_encoder() {
    let resp = Response {
        status_code: 200,
        headers: vec![(b"X".to_vec(), b"y".to_vec())],
        body: ResponseBody::Bytes(b"hi".to_vec()),
    };
    let codec = FrameCodec::new(MAX);
    assert_eq!(codec.encode(&resp), encode_framed(&resp));
}

#[test]
fn request_header_lookup_ignores_case() {
    let mut codec = FrameCodec::new(MAX);
    codec.feed(b"GET /x HTTP/1.1\r\nHost: a\r\nX-Token: s3cr3t\r\n\r\n");
    let req = codec.try_decode().unwrap().unwrap();
    assert_eq!(req.header(b"x-token"), Some(&b"s3cr3t".to_vec()));
    assert_eq!(req.header(b"HOST"), Some(&b"a".to_vec()));
    assert_eq!(req.header(b"absent"), None);
}
