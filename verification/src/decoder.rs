//! The one-shot request decoder: an environment snapshot plus the input
//! stream's bytes become one structured request.
//!
//! The whole path is specified by [`spec_decode`]: which variables are
//! required, how the content length is read, which error comes on which
//! input, and exactly what every field of the decoded request holds.

use vstd::prelude::*;
use crate::body::read_body;
use crate::bytes::copy_bytes;
use crate::environment::{
    spec_lookup, spec_headers_from_env, headers_from_env, EnvironmentSnapshot,
};
use crate::error::{Error, ErrorModel};
use crate::numbers::{all_digits, parse_decimal, spec_decimal_value, ParsedNumber};
use crate::request::{spec_unknown, unknown_sentinel, Method, MethodModel, Request, RequestModel};

verus! {

/// The bytes of the variable name `REQUEST_METHOD`.
pub open spec fn spec_request_method_name() -> Seq<u8> {
    seq![82u8, 69u8, 81u8, 85u8, 69u8, 83u8, 84u8, 95u8, 77u8, 69u8, 84u8, 72u8, 79u8, 68u8]
}

/// Builds the variable name `REQUEST_METHOD`.
pub fn request_method_name() -> (r: Vec<u8>)
    ensures
        r@ == spec_request_method_name(),
{
    let mut v: Vec<u8> = Vec::new();
    v.push(82);
    v.push(69);
    v.push(81);
    v.push(85);
    v.push(69);
    v.push(83);
    v.push(84);
    v.push(95);
    v.push(77);
    v.push(69);
    v.push(84);
    v.push(72);
    v.push(79);
    v.push(68);
    proof {
        assert(v@ =~= spec_request_method_name());
    }
    v
}

/// The bytes of the variable name `REQUEST_URI`.
pub open spec fn spec_request_uri_name() -> Seq<u8> {
    seq![82u8, 69u8, 81u8, 85u8, 69u8, 83u8, 84u8, 95u8, 85u8, 82u8, 73u8]
}

/// Builds the variable name `REQUEST_URI`.
pub fn request_uri_name() -> (r: Vec<u8>)
    ensures
        r@ == spec_request_uri_name(),
{
    let mut v: Vec<u8> = Vec::new();
    v.push(82);
    v.push(69);
    v.push(81);
    v.push(85);
    v.push(69);
    v.push(83);
    v.push(84);
    v.push(95);
    v.push(85);
    v.push(82);
    v.push(73);
    proof {
        assert(v@ =~= spec_request_uri_name());
    }
    v
}

/// The bytes of the variable name `CONTENT_LENGTH`.
pub open spec fn spec_content_length_var_name() -> Seq<u8> {
    seq![67u8, 79u8, 78u8, 84u8, 69u8, 78u8, 84u8, 95u8, 76u8, 69u8, 78u8, 71u8, 84u8, 72u8]
}

/// Builds the variable name `CONTENT_LENGTH`.
pub fn content_length_var_name() -> (r: Vec<u8>)
    ensures
        r@ == spec_content_length_var_name(),
{
    let mut v: Vec<u8> = Vec::new();
    v.push(67);
    v.push(79);
    v.push(78);
    v.push(84);
    v.push(69);
    v.push(78);
    v.push(84);
    v.push(95);
    v.push(76);
    v.push(69);
    v.push(78);
    v.push(71);
    v.push(84);
    v.push(72);
    proof {
        assert(v@ =~= spec_content_length_var_name());
    }
    v
}

/// The bytes of the variable name `REMOTE_ADDR`.
pub open spec fn spec_remote_addr_name() -> Seq<u8> {
    seq![82u8, 69u8, 77u8, 79u8, 84u8, 69u8, 95u8, 65u8, 68u8, 68u8, 82u8]
}

/// Builds the variable name `REMOTE_ADDR`.
pub fn remote_addr_name() -> (r: Vec<u8>)
    ensures
        r@ == spec_remote_addr_name(),
{
    let mut v: Vec<u8> = Vec::new();
    v.push(82);
    v.push(69);
    v.push(77);
    v.push(79);
    v.push(84);
    v.push(69);
    v.push(95);
    v.push(65);
    v.push(68);
    v.push(68);
    v.push(82);
    proof {
        assert(v@ =~= spec_remote_addr_name());
    }
    v
}

/// The bytes of the variable name `REMOTE_PORT`.
pub open spec fn spec_remote_port_name() -> Seq<u8> {
    seq![82u8, 69u8, 77u8, 79u8, 84u8, 69u8, 95u8, 80u8, 79u8, 82u8, 84u8]
}

/// Builds the variable name `REMOTE_PORT`.
pub fn remote_port_name() -> (r: Vec<u8>)
    ensures
        r@ == spec_remote_port_name(),
{
    let mut v: Vec<u8> = Vec::new();
    v.push(82);
    v.push(69);
    v.push(77);
    v.push(79);
    v.push(84);
    v.push(69);
    v.push(95);
    v.push(80);
    v.push(79);
    v.push(82);
    v.push(84);
    proof {
        assert(v@ =~= spec_remote_port_name());
    }
    v
}

/// The bytes of the variable name `SERVER_PROTOCOL`.
pub open spec fn spec_server_protocol_name() -> Seq<u8> {
    seq![83u8, 69u8, 82u8, 86u8, 69u8, 82u8, 95u8, 80u8, 82u8, 79u8, 84u8, 79u8, 67u8, 79u8, 76u8]
}

/// Builds the variable name `SERVER_PROTOCOL`.
pub fn server_protocol_name() -> (r: Vec<u8>)
    ensures
        r@ == spec_server_protocol_name(),
{
    let mut v: Vec<u8> = Vec::new();
    v.push(83);
    v.push(69);
    v.push(82);
    v.push(86);
    v.push(69);
    v.push(82);
    v.push(95);
    v.push(80);
    v.push(82);
    v.push(79);
    v.push(84);
    v.push(79);
    v.push(67);
    v.push(79);
    v.push(76);
    proof {
        assert(v@ =~= spec_server_protocol_name());
    }
    v
}

/// The declared content length of a snapshot: the `CONTENT_LENGTH` variable's
/// numeric value, `0` when the variable is absent. Meaningful only where
/// [`spec_content_length_ok`] holds.
pub open spec fn spec_declared_length(env: Seq<(Seq<u8>, Seq<u8>)>) -> int {
    match spec_lookup(env, spec_content_length_var_name()) {
        None => 0,
        Some(s) => spec_decimal_value(s),
    }
}

/// Whether the `CONTENT_LENGTH` variable, if present, is a well-formed
/// non-negative decimal.
pub open spec fn spec_content_length_ok(env: Seq<(Seq<u8>, Seq<u8>)>) -> bool {
    match spec_lookup(env, spec_content_length_var_name()) {
        None => true,
        Some(s) => s.len() > 0 && all_digits(s),
    }
}

/// The remote address a snapshot describes: `REMOTE_ADDR`, with `:` and
/// `REMOTE_PORT` appended when the port is also present; the `unknown`
/// sentinel when the address is absent.
pub open spec fn spec_remote_address(env: Seq<(Seq<u8>, Seq<u8>)>) -> Seq<u8> {
    match spec_lookup(env, spec_remote_addr_name()) {
        None => spec_unknown(),
        Some(a) => match spec_lookup(env, spec_remote_port_name()) {
            None => a,
            Some(p) => a + seq![58u8] + p,
        },
    }
}

/// The protocol version a snapshot describes, or the `unknown` sentinel.
pub open spec fn spec_protocol_version(env: Seq<(Seq<u8>, Seq<u8>)>) -> Seq<u8> {
    match spec_lookup(env, spec_server_protocol_name()) {
        None => spec_unknown(),
        Some(v) => v,
    }
}

/// The one-shot decode, whole: what [`decode`] returns for every snapshot,
/// input and limit.
///
/// - A missing or empty `REQUEST_METHOD` fails with `MissingField`, then a
///   missing `REQUEST_URI` likewise.
/// - A present but non-numeric `CONTENT_LENGTH` fails with
///   `InvalidContentLength`; absence defaults to zero.
/// - A declared length over `max_body` fails with `BodyTooLarge` before any
///   body byte is taken.
/// - An input stream that ended short of the declared length fails with
///   `IncompleteBody`.
/// - Otherwise every prefixed variable becomes one header in enumeration
///   order, the body is exactly the first `CONTENT_LENGTH` input bytes, and
///   the informational fields fall back to the `unknown` sentinel.
pub open spec fn spec_decode(
    env: Seq<(Seq<u8>, Seq<u8>)>,
    available: Seq<u8>,
    max_body: u64,
) -> Result<RequestModel, ErrorModel> {
    let m = spec_lookup(env, spec_request_method_name());
    let u = spec_lookup(env, spec_request_uri_name());
    if m is None || m->0.len() == 0 {
        Err(ErrorModel::MissingField(spec_request_method_name()))
    } else if u is None {
        Err(ErrorModel::MissingField(spec_request_uri_name()))
    } else if !spec_content_length_ok(env) {
        Err(ErrorModel::InvalidContentLength)
    } else {
        let n = spec_declared_length(env);
        if n > max_body {
            Err(ErrorModel::BodyTooLarge)
        } else if available.len() < n {
            Err(ErrorModel::IncompleteBody { expected: n as u64, actual: available.len() as u64 })
        } else {
            Ok(RequestModel {
                method: MethodModel::spec_classify(m->0),
                target: u->0,
                headers: spec_headers_from_env(env),
                body: available.take(n),
                remote_address: spec_remote_address(env),
                protocol_version: spec_protocol_version(env),
            })
        }
    }
}

/// Decodes one request from a snapshot and the input stream's bytes, exactly
/// as [`spec_decode`] says.
pub fn decode(env: &EnvironmentSnapshot, available: &Vec<u8>, max_body: usize) -> (r: Result<
    Request,
    Error,
>)
    ensures
        match r {
            Ok(req) => spec_decode(env@, available@, max_body as u64) == Ok::<
                RequestModel,
                ErrorModel,
            >(req@),
            Err(e) => spec_decode(env@, available@, max_body as u64) == Err::<
                RequestModel,
                ErrorModel,
            >(e@),
        },
{
    let method_name = request_method_name();
    let method_var = env.lookup(method_name.as_slice());
    let method_token: Vec<u8> = match method_var {
        None => {
            return Err(Error::MissingField(method_name));
        },
        Some(v) => {
            if v.len() == 0 {
                return Err(Error::MissingField(method_name));
            }
            copy_bytes(v.as_slice())
        },
    };
    let uri_name = request_uri_name();
    let target: Vec<u8> = match env.lookup(uri_name.as_slice()) {
        None => {
            return Err(Error::MissingField(uri_name));
        },
        Some(v) => copy_bytes(v.as_slice()),
    };
    let cl_name = content_length_var_name();
    let declared: usize = match env.lookup(cl_name.as_slice()) {
        None => 0,
        Some(v) => {
            let parsed = parse_decimal(v.as_slice());
            match parsed {
                ParsedNumber::NotANumber => {
                    return Err(Error::InvalidContentLength);
                },
                ParsedNumber::Overflow => {
                    proof {
                        assert(spec_decimal_value(v@) > u64::MAX) by {
                            if spec_decimal_value(v@) <= u64::MAX {
                                assert(parsed == ParsedNumber::Value(
                                    spec_decimal_value(v@) as u64,
                                ));
                            }
                        }
                    }
                    return Err(Error::BodyTooLarge);
                },
                ParsedNumber::Value(n) => {
                    proof {
                        assert(n == spec_decimal_value(v@)) by {
                            crate::numbers::lemma_decimal_value_nonneg(v@);
                            if spec_decimal_value(v@) > u64::MAX {
                                assert(parsed == ParsedNumber::Overflow);
                            }
                        }
                    }
                    if n > max_body as u64 {
                        return Err(Error::BodyTooLarge);
                    }
                    n as usize
                },
            }
        },
    };
    let body = match read_body(declared, available, max_body) {
        Ok(b) => b,
        Err(e) => {
            return Err(e);
        },
    };
    let headers = headers_from_env(env);
    let addr_name = remote_addr_name();
    let port_name = remote_port_name();
    let remote_address: Vec<u8> = match env.lookup(addr_name.as_slice()) {
        None => unknown_sentinel(),
        Some(a) => {
            let mut out = copy_bytes(a.as_slice());
            match env.lookup(port_name.as_slice()) {
                None => out,
                Some(p) => {
                    out.push(58);
                    crate::bytes::append_bytes(&mut out, p.as_slice());
                    proof {
                        assert(out@ =~= spec_remote_address(env@));
                    }
                    out
                },
            }
        },
    };
    let proto_name = server_protocol_name();
    let protocol_version: Vec<u8> = match env.lookup(proto_name.as_slice()) {
        None => unknown_sentinel(),
        Some(v) => copy_bytes(v.as_slice()),
    };
    let req = Request {
        method: Method::classify(method_token),
        target,
        headers,
        body,
        remote_address,
        protocol_version,
    };
    Ok(req)
}

} // verus!
