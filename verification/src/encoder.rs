//! Rendering a response into bytes, in the two supported output conventions:
//! a minimal CGI-style header block, and a full status-line frame for the
//! persistent stdio-multiplexed variant.
//!
//! The convention is selected by the embedding mode, never inferred from
//! content. A response whose body is a stream is encoded up to the
//! header/body separator; the embedding writes the stream's bytes itself and
//! owes exactly the declared count.

use vstd::prelude::*;
use crate::bytes::append_bytes;
use crate::numbers::{format_decimal, spec_decimal_digits};
use crate::response::{Response, ResponseBody, ResponseBodyModel, ResponseModel};

verus! {

/// The line terminator, `\r\n`.
pub open spec fn spec_crlf() -> Seq<u8> {
    seq![13u8, 10u8]
}

/// The name/value separator of a header line, `: `.
pub open spec fn spec_colon_space() -> Seq<u8> {
    seq![58u8, 32u8]
}

/// One encoded header line: `name: value` and a line terminator.
pub open spec fn spec_header_line(p: (Seq<u8>, Seq<u8>)) -> Seq<u8> {
    p.0 + spec_colon_space() + p.1 + spec_crlf()
}

/// The encoded header lines, one per pair, in order.
pub open spec fn spec_header_block(hs: Seq<(Seq<u8>, Seq<u8>)>) -> Seq<u8>
    decreases hs.len(),
{
    if hs.len() == 0 {
        Seq::empty()
    } else {
        spec_header_block(hs.drop_last()) + spec_header_line(hs.last())
    }
}

/// The bytes of `Status: `, the CGI status line prefix.
pub open spec fn spec_status_prefix() -> Seq<u8> {
    seq![83u8, 116u8, 97u8, 116u8, 117u8, 115u8, 58u8, 32u8]
}

/// The body bytes the encoder itself writes: all of a materialized body,
/// none of a stream.
pub open spec fn spec_body_bytes(b: ResponseBodyModel) -> Seq<u8> {
    match b {
        ResponseBodyModel::Bytes(v) => v,
        ResponseBodyModel::Stream(_) => Seq::empty(),
    }
}

/// The CGI-style encoding: a `Status:` line only when the code is not the
/// convention's implicit default of 200, each header as one line, a blank
/// line, then the materialized body bytes exactly.
pub open spec fn spec_encode_cgi(r: ResponseModel) -> Seq<u8> {
    (if r.status_code != 200 {
        spec_status_prefix() + spec_decimal_digits(r.status_code as nat) + spec_crlf()
    } else {
        Seq::empty()
    }) + spec_header_block(r.headers) + spec_crlf() + spec_body_bytes(r.body)
}

/// The bytes of the protocol token of the framed status line, `HTTP/1.1`.
pub open spec fn spec_protocol() -> Seq<u8> {
    seq![72u8, 84u8, 84u8, 80u8, 47u8, 49u8, 46u8, 49u8]
}

/// The reason phrase written after the status code.
pub open spec fn spec_reason(code: u16) -> Seq<u8> {
    if code == 200 {
        seq![79u8, 75u8]  // OK
    } else if code == 404 {
        seq![78u8, 111u8, 116u8, 32u8, 70u8, 111u8, 117u8, 110u8, 100u8]  // Not Found
    } else if code == 500 {
        // Internal Server Error
        seq![
            73u8, 110u8, 116u8, 101u8, 114u8, 110u8, 97u8, 108u8, 32u8, 83u8, 101u8, 114u8, 118u8,
            101u8, 114u8, 32u8, 69u8, 114u8, 114u8, 111u8, 114u8,
        ]
    } else {
        seq![83u8, 116u8, 97u8, 116u8, 117u8, 115u8]  // Status
    }
}

/// The framed status line: protocol, code, reason, line terminator.
pub open spec fn spec_status_line(code: u16) -> Seq<u8> {
    spec_protocol() + seq![32u8] + spec_decimal_digits(code as nat) + seq![32u8] + spec_reason(code)
        + spec_crlf()
}

/// The bytes of the header name `Content-Length`.
pub open spec fn spec_content_length_name() -> Seq<u8> {
    seq![67u8, 111u8, 110u8, 116u8, 101u8, 110u8, 116u8, 45u8, 76u8, 101u8, 110u8, 103u8, 116u8, 104u8]
}

/// The `Content-Length` line stating `len`.
pub open spec fn spec_content_length_line(len: u64) -> Seq<u8> {
    spec_content_length_name() + spec_colon_space() + spec_decimal_digits(len as nat) + spec_crlf()
}

/// The framed encoding: status line, each header as one line, a
/// `Content-Length` line exactly when the body length is determinable, the
/// header/body separator, then for a materialized body its bytes and the
/// frame terminator. A streaming body's bytes are written by the embedding.
pub open spec fn spec_encode_framed(r: ResponseModel) -> Seq<u8> {
    spec_status_line(r.status_code) + spec_header_block(r.headers) + (match r.body.known_length() {
        Some(l) => spec_content_length_line(l),
        None => Seq::empty(),
    }) + spec_crlf() + (match r.body {
        ResponseBodyModel::Bytes(v) => v + spec_crlf(),
        ResponseBodyModel::Stream(_) => Seq::empty(),
    })
}

/// Appends the line terminator.
fn push_crlf(out: &mut Vec<u8>)
    ensures
        final(out)@ == old(out)@ + spec_crlf(),
{
    out.push(13);
    out.push(10);
    proof {
        assert(out@ =~= old(out)@ + spec_crlf());
    }
}

/// Appends the encoded header lines, in order.
fn encode_header_block(out: &mut Vec<u8>, headers: &Vec<(Vec<u8>, Vec<u8>)>)
    ensures
        final(out)@ == old(out)@ + spec_header_block(
            headers@.map_values(|p: (Vec<u8>, Vec<u8>)| (p.0@, p.1@)),
        ),
{
    let ghost hs = headers@.map_values(|p: (Vec<u8>, Vec<u8>)| (p.0@, p.1@));
    let mut i: usize = 0;
    proof {
        assert(out@ =~= old(out)@ + spec_header_block(hs.take(0)));
    }
    while i < headers.len()
        invariant
            i <= headers@.len(),
            hs == headers@.map_values(|p: (Vec<u8>, Vec<u8>)| (p.0@, p.1@)),
            hs.len() == headers@.len(),
            out@ == old(out)@ + spec_header_block(hs.take(i as int)),
        decreases headers@.len() - i,
    {
        append_bytes(out, headers[i].0.as_slice());
        out.push(58);
        out.push(32);
        append_bytes(out, headers[i].1.as_slice());
        out.push(13);
        out.push(10);
        i = i + 1;
        proof {
            assert(hs.take(i as int).drop_last() =~= hs.take(i - 1));
            assert(hs.take(i as int).last() == hs[i - 1]);
            assert(out@ =~= old(out)@ + spec_header_block(hs.take(i as int)));
        }
    }
    proof {
        assert(hs.take(hs.len() as int) =~= hs);
    }
}

/// Renders a response as the CGI-style block, as [`spec_encode_cgi`] says.
pub fn encode_cgi(resp: &Response) -> (out: Vec<u8>)
    ensures
        out@ == spec_encode_cgi(resp@),
{
    let mut out: Vec<u8> = Vec::new();
    if resp.status_code != 200 {
        out.push(83);
        out.push(116);
        out.push(97);
        out.push(116);
        out.push(117);
        out.push(115);
        out.push(58);
        out.push(32);
        let digits = format_decimal(resp.status_code as u64);
        append_bytes(&mut out, digits.as_slice());
        push_crlf(&mut out);
        proof {
            assert(out@ =~= spec_status_prefix() + spec_decimal_digits(resp.status_code as nat)
                + spec_crlf());
        }
    }
    let ghost head = out@;
    encode_header_block(&mut out, &resp.headers);
    push_crlf(&mut out);
    match &resp.body {
        ResponseBody::Bytes(b) => {
            append_bytes(&mut out, b.as_slice());
        },
        ResponseBody::Stream(_) => {},
    }
    proof {
        assert(out@ =~= spec_encode_cgi(resp@));
    }
    out
}

/// Renders a response as a full status-line frame, as
/// [`spec_encode_framed`] says.
pub fn encode_framed(resp: &Response) -> (out: Vec<u8>)
    ensures
        out@ == spec_encode_framed(resp@),
{
    let mut out: Vec<u8> = Vec::new();
    out.push(72);
    out.push(84);
    out.push(84);
    out.push(80);
    out.push(47);
    out.push(49);
    out.push(46);
    out.push(49);
    out.push(32);
    let digits = format_decimal(resp.status_code as u64);
    append_bytes(&mut out, digits.as_slice());
    out.push(32);
    let reason = reason_phrase(resp.status_code);
    append_bytes(&mut out, reason.as_slice());
    push_crlf(&mut out);
    proof {
        assert(out@ =~= spec_status_line(resp.status_code));
    }
    encode_header_block(&mut out, &resp.headers);
    let ghost after_headers = out@;
    match &resp.body {
        ResponseBody::Bytes(b) => {
            emit_content_length(&mut out, b.len() as u64);
        },
        ResponseBody::Stream(l) => {
            match l {
                Some(n) => {
                    emit_content_length(&mut out, *n);
                },
                None => {},
            }
        },
    }
    proof {
        assert(out@ =~= after_headers + (match resp@.body.known_length() {
            Some(l) => spec_content_length_line(l),
            None => Seq::<u8>::empty(),
        }));
    }
    push_crlf(&mut out);
    match &resp.body {
        ResponseBody::Bytes(b) => {
            append_bytes(&mut out, b.as_slice());
            push_crlf(&mut out);
        },
        ResponseBody::Stream(_) => {},
    }
    proof {
        assert(out@ =~= spec_encode_framed(resp@));
    }
    out
}

/// Appends the `Content-Length` line stating `len`.
fn emit_content_length(out: &mut Vec<u8>, len: u64)
    ensures
        final(out)@ == old(out)@ + spec_content_length_line(len),
{
    out.push(67);
    out.push(111);
    out.push(110);
    out.push(116);
    out.push(101);
    out.push(110);
    out.push(116);
    out.push(45);
    out.push(76);
    out.push(101);
    out.push(110);
    out.push(103);
    out.push(116);
    out.push(104);
    out.push(58);
    out.push(32);
    let digits = format_decimal(len);
    append_bytes(out, digits.as_slice());
    push_crlf(out);
    proof {
        assert(out@ =~= old(out)@ + spec_content_length_line(len));
    }
}

/// The reason phrase written after the status code, as [`spec_reason`] says.
pub fn reason_phrase(code: u16) -> (r: Vec<u8>)
    ensures
        r@ == spec_reason(code),
{
    let mut r: Vec<u8> = Vec::new();
    if code == 200 {
        r.push(79);
        r.push(75);
    } else if code == 404 {
        r.push(78);
        r.push(111);
        r.push(116);
        r.push(32);
        r.push(70);
        r.push(111);
        r.push(117);
        r.push(110);
        r.push(100);
    } else if code == 500 {
        r.push(73);
        r.push(110);
        r.push(116);
        r.push(101);
        r.push(114);
        r.push(110);
        r.push(97);
        r.push(108);
        r.push(32);
        r.push(83);
        r.push(101);
        r.push(114);
        r.push(118);
        r.push(101);
        r.push(114);
        r.push(32);
        r.push(69);
        r.push(114);
        r.push(114);
        r.push(111);
        r.push(114);
    } else {
        r.push(83);
        r.push(116);
        r.push(97);
        r.push(116);
        r.push(117);
        r.push(115);
    }
    proof {
        assert(r@ =~= spec_reason(code));
    }
    r
}

/// For any response whose body length is determinable as `l`, the framed
/// encoding ends its header lines with a `Content-Length` line whose digits
/// read back as exactly `l`, followed by the header/body separator; and when
/// the body is materialized, exactly `l` body bytes stand between the
/// separator and the frame terminator.
pub proof fn lemma_encode_framed_content_length(r: ResponseModel)
    requires
        r.body.known_length() is Some,
        r.body is Bytes ==> r.body->Bytes_0.len() <= u64::MAX,
    ensures
        ({
            let out = spec_encode_framed(r);
            let l = r.body.known_length()->0;
            let cl = spec_content_length_line(l);
            let head_len = (spec_status_line(r.status_code).len() + spec_header_block(
                r.headers,
            ).len() + cl.len()) as int;
            &&& out.len() >= head_len + 2
            &&& out.subrange(head_len - cl.len(), head_len) == cl
            &&& cl == spec_content_length_name() + spec_colon_space() + spec_decimal_digits(
                l as nat,
            ) + spec_crlf()
            &&& crate::numbers::spec_decimal_value(spec_decimal_digits(l as nat)) == l
            &&& out.subrange(head_len, head_len + 2) == spec_crlf()
            &&& (r.body is Bytes ==> {
                &&& r.body->Bytes_0.len() == l
                &&& out.len() == head_len + 2 + l
                    + 2
                &&& out.subrange(head_len + 2, head_len + 2 + l) == r.body->Bytes_0
            })
        }),
{
    crate::numbers::lemma_decimal_round_trip(r.body.known_length()->0 as nat);
    let out = spec_encode_framed(r);
    let l = r.body.known_length()->0;
    let cl = spec_content_length_line(l);
    let head = spec_status_line(r.status_code) + spec_header_block(r.headers) + cl;
    let head_len = head.len() as int;
    assert(out.subrange(head_len - cl.len(), head_len) =~= cl);
    assert(out.subrange(head_len, head_len + 2) =~= spec_crlf());
    match r.body {
        ResponseBodyModel::Bytes(v) => {
            assert(out.subrange(head_len + 2, head_len + 2 + l) =~= v);
        },
        ResponseBodyModel::Stream(_) => {},
    }
}

} // verus!
