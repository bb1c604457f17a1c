//! The persistent-connection frame codec: a buffering state machine that
//! accumulates bytes until a complete request frame (header block plus
//! declared-length body) is present, extracts it, and drains the buffer.
//!
//! The whole decode step is specified by [`spec_parse_frame`], a function of
//! the buffered bytes alone: chunk boundaries never matter, which is the
//! fragmentation law [`lemma_fragmentation_immaterial`].

use vstd::prelude::*;

verus! {

/// Whether the header/body separator (two line terminators in a row) stands
/// at position `i`.
pub open spec fn is_sep_at(b: Seq<u8>, i: int) -> bool {
    &&& 0 <= i
    &&& i + 4 <= b.len()
    &&& b[i] == 13
    &&& b[i + 1] == 10
    &&& b[i + 2] == 13
    &&& b[i + 3] == 10
}

/// The first position at or after `i` where the header/body separator stands.
pub open spec fn spec_find_sep_from(b: Seq<u8>, i: int) -> Option<int>
    decreases b.len() - i + 1,
{
    if i + 4 > b.len() {
        None
    } else if is_sep_at(b, i) {
        Some(i)
    } else {
        spec_find_sep_from(b, i + 1)
    }
}

/// The first position of the header/body separator.
pub open spec fn spec_find_sep(b: Seq<u8>) -> Option<int> {
    spec_find_sep_from(b, 0)
}

/// What a found separator position means: in range, a separator there, and
/// none earlier (at or after `i`).
pub proof fn lemma_find_sep_from_bounds(b: Seq<u8>, i: int)
    ensures
        match spec_find_sep_from(b, i) {
            Some(k) => i <= k && is_sep_at(b, k) && forall|j: int| i <= j < k ==> !is_sep_at(b, j),
            None => forall|j: int| i <= j ==> !is_sep_at(b, j),
        },
    decreases b.len() - i + 1,
{
    if i + 4 > b.len() {
    } else if is_sep_at(b, i) {
    } else {
        lemma_find_sep_from_bounds(b, i + 1);
    }
}

/// Finds the header/body separator, as [`spec_find_sep`] says.
pub fn find_sep(b: &[u8]) -> (r: Option<usize>)
    ensures
        match r {
            Some(k) => spec_find_sep(b@) == Some(k as int),
            None => spec_find_sep(b@) is None,
        },
{
    if b.len() < 4 {
        return None;
    }
    let mut i: usize = 0;
    while i < b.len() - 3
        invariant
            b@.len() >= 4,
            i <= b@.len(),
            spec_find_sep(b@) == spec_find_sep_from(b@, i as int),
        decreases b@.len() - i,
    {
        if b[i] == 13 && b[i + 1] == 10 && b[i + 2] == 13 && b[i + 3] == 10 {
            return Some(i);
        }
        i = i + 1;
    }
    None
}

/// Whether a line terminator stands at position `i`.
pub open spec fn is_crlf_at(b: Seq<u8>, i: int) -> bool {
    &&& 0 <= i
    &&& i + 2 <= b.len()
    &&& b[i] == 13
    &&& b[i + 1] == 10
}

/// The first position at or after `i` where a line terminator stands.
pub open spec fn spec_find_crlf_from(b: Seq<u8>, i: int) -> Option<int>
    decreases b.len() - i + 1,
{
    if i + 2 > b.len() {
        None
    } else if is_crlf_at(b, i) {
        Some(i)
    } else {
        spec_find_crlf_from(b, i + 1)
    }
}

/// The first position of a line terminator.
pub open spec fn spec_find_crlf(b: Seq<u8>) -> Option<int> {
    spec_find_crlf_from(b, 0)
}

/// What a found line terminator position means.
pub proof fn lemma_find_crlf_from_bounds(b: Seq<u8>, i: int)
    ensures
        match spec_find_crlf_from(b, i) {
            Some(k) => i <= k && is_crlf_at(b, k),
            None => true,
        },
    decreases b.len() - i + 1,
{
    if i + 2 > b.len() {
    } else if is_crlf_at(b, i) {
    } else {
        lemma_find_crlf_from_bounds(b, i + 1);
    }
}

/// Finds the first line terminator, as [`spec_find_crlf`] says.
pub fn find_crlf(b: &[u8]) -> (r: Option<usize>)
    ensures
        match r {
            Some(k) => spec_find_crlf(b@) == Some(k as int),
            None => spec_find_crlf(b@) is None,
        },
{
    if b.len() < 2 {
        return None;
    }
    let mut i: usize = 0;
    while i < b.len() - 1
        invariant
            b@.len() >= 2,
            i <= b@.len(),
            spec_find_crlf(b@) == spec_find_crlf_from(b@, i as int),
        decreases b@.len() - i,
    {
        if b[i] == 13 && b[i + 1] == 10 {
            return Some(i);
        }
        i = i + 1;
    }
    None
}

/// The first position at or after `i` holding the byte `x`.
pub open spec fn spec_find_byte_from(b: Seq<u8>, x: u8, i: int) -> Option<int>
    decreases b.len() - i + 1,
{
    if i >= b.len() {
        None
    } else if 0 <= i && b[i] == x {
        Some(i)
    } else {
        spec_find_byte_from(b, x, i + 1)
    }
}

/// The first position holding the byte `x`.
pub open spec fn spec_find_byte(b: Seq<u8>, x: u8) -> Option<int> {
    spec_find_byte_from(b, x, 0)
}

/// What a found byte position means.
pub proof fn lemma_find_byte_from_bounds(b: Seq<u8>, x: u8, i: int)
    ensures
        match spec_find_byte_from(b, x, i) {
            Some(k) => i <= k && 0 <= k < b.len() && b[k] == x,
            None => true,
        },
    decreases b.len() - i + 1,
{
    if i >= b.len() {
    } else if 0 <= i && b[i] == x {
    } else {
        lemma_find_byte_from_bounds(b, x, i + 1);
    }
}

/// Finds the first occurrence of `x`, as [`spec_find_byte`] says.
pub fn find_byte(b: &[u8], x: u8) -> (r: Option<usize>)
    ensures
        match r {
            Some(k) => spec_find_byte(b@, x) == Some(k as int),
            None => spec_find_byte(b@, x) is None,
        },
{
    let mut i: usize = 0;
    while i < b.len()
        invariant
            i <= b@.len(),
            spec_find_byte(b@, x) == spec_find_byte_from(b@, x, i as int),
        decreases b@.len() - i,
    {
        if b[i] == x {
            return Some(i);
        }
        i = i + 1;
    }
    None
}

/// A byte string with its leading spaces removed: how a header value is
/// taken after the colon.
pub open spec fn spec_trim_spaces(s: Seq<u8>) -> Seq<u8>
    decreases s.len(),
{
    if s.len() > 0 && s[0] == 32 {
        spec_trim_spaces(s.drop_first())
    } else {
        s
    }
}

/// Copies `s` with its leading spaces removed, as [`spec_trim_spaces`] says.
pub fn trim_spaces(s: &[u8]) -> (r: Vec<u8>)
    ensures
        r@ == spec_trim_spaces(s@),
{
    let mut i: usize = 0;
    proof {
        assert(s@.skip(0) =~= s@);
    }
    while i < s.len() && s[i] == 32
        invariant
            i <= s@.len(),
            spec_trim_spaces(s@) == spec_trim_spaces(s@.skip(i as int)),
        decreases s@.len() - i,
    {
        proof {
            assert(s@.skip(i as int).drop_first() =~= s@.skip(i + 1));
        }
        i = i + 1;
    }
    let r = crate::bytes::copy_bytes(vstd::slice::slice_subrange(s, i, s.len()));
    proof {
        assert(s@.subrange(i as int, s@.len() as int) =~= s@.skip(i as int));
    }
    r
}

/// One parsed header line: the name before the first colon, the value after
/// it with leading spaces removed. A line without a colon is a name with an
/// empty value.
pub open spec fn spec_parse_header_line(line: Seq<u8>) -> (Seq<u8>, Seq<u8>) {
    match spec_find_byte(line, 58) {
        None => (line, Seq::empty()),
        Some(c) => (line.take(c), spec_trim_spaces(line.skip(c + 1))),
    }
}

/// Parses one header line, as [`spec_parse_header_line`] says.
pub fn parse_header_line(line: &[u8]) -> (r: (Vec<u8>, Vec<u8>))
    ensures
        (r.0@, r.1@) == spec_parse_header_line(line@),
{
    match find_byte(line, 58) {
        None => {
            let name = crate::bytes::copy_bytes(line);
            (name, Vec::new())
        },
        Some(c) => {
            proof {
                lemma_find_byte_from_bounds(line@, 58, 0);
            }
            let n = line.len();
            let name = crate::bytes::copy_bytes(vstd::slice::slice_subrange(line, 0, c));
            let value = trim_spaces(vstd::slice::slice_subrange(line, c + 1, n));
            proof {
                assert(line@.subrange(0, c as int) =~= line@.take(c as int));
                assert(line@.subrange(c + 1, line@.len() as int) =~= line@.skip(c + 1));
            }
            (name, value)
        },
    }
}

/// The parsed header lines of a header block: lines split on the line
/// terminator, each parsed by [`spec_parse_header_line`], in order.
pub open spec fn spec_parse_header_lines(block: Seq<u8>) -> Seq<(Seq<u8>, Seq<u8>)>
    decreases block.len(),
    via spec_parse_header_lines_decreases
{
    if block.len() == 0 {
        Seq::empty()
    } else {
        match spec_find_crlf(block) {
            None => seq![spec_parse_header_line(block)],
            Some(k) => seq![spec_parse_header_line(block.take(k))] + spec_parse_header_lines(
                block.skip(k + 2),
            ),
        }
    }
}

#[via_fn]
proof fn spec_parse_header_lines_decreases(block: Seq<u8>) {
    lemma_find_crlf_from_bounds(block, 0);
}

/// Parses a header block, as [`spec_parse_header_lines`] says.
pub fn parse_header_lines(block: &[u8]) -> (r: Vec<(Vec<u8>, Vec<u8>)>)
    ensures
        r@.map_values(|p: (Vec<u8>, Vec<u8>)| (p.0@, p.1@)) == spec_parse_header_lines(block@),
{
    let mut r: Vec<(Vec<u8>, Vec<u8>)> = Vec::new();
    let mut rest: &[u8] = block;
    let ghost whole = block@;
    proof {
        assert(r@.map_values(|p: (Vec<u8>, Vec<u8>)| (p.0@, p.1@)) =~= Seq::<
            (Seq<u8>, Seq<u8>),
        >::empty());
    }
    loop
        invariant
            whole == block@,
            spec_parse_header_lines(whole) == r@.map_values(|p: (Vec<u8>, Vec<u8>)| (p.0@, p.1@))
                + spec_parse_header_lines(rest@),
        decreases rest@.len(),
    {
        if rest.len() == 0 {
            proof {
                assert(spec_parse_header_lines(whole) =~= r@.map_values(
                    |p: (Vec<u8>, Vec<u8>)| (p.0@, p.1@),
                ));
            }
            return r;
        }
        let ghost prev = r@.map_values(|p: (Vec<u8>, Vec<u8>)| (p.0@, p.1@));
        match find_crlf(rest) {
            None => {
                let line = parse_header_line(rest);
                r.push(line);
                proof {
                    assert(r@.map_values(|p: (Vec<u8>, Vec<u8>)| (p.0@, p.1@)) =~= prev + seq![
                        spec_parse_header_line(rest@),
                    ]);
                    assert(spec_parse_header_lines(whole) =~= r@.map_values(
                        |p: (Vec<u8>, Vec<u8>)| (p.0@, p.1@),
                    ));
                }
                return r;
            },
            Some(k) => {
                proof {
                    lemma_find_crlf_from_bounds(rest@, 0);
                }
                let line = parse_header_line(vstd::slice::slice_subrange(rest, 0, k));
                r.push(line);
                let ghost old_rest = rest@;
                rest = vstd::slice::slice_subrange(rest, k + 2, rest.len());
                proof {
                    assert(old_rest.subrange(0, k as int) =~= old_rest.take(k as int));
                    assert(old_rest.subrange(k + 2, old_rest.len() as int) =~= old_rest.skip(
                        k + 2,
                    ));
                    assert(r@.map_values(|p: (Vec<u8>, Vec<u8>)| (p.0@, p.1@)) =~= prev + seq![
                        spec_parse_header_line(old_rest.take(k as int)),
                    ]);
                    assert(prev + spec_parse_header_lines(old_rest) =~= (prev + seq![
                        spec_parse_header_line(old_rest.take(k as int)),
                    ]) + spec_parse_header_lines(old_rest.skip(k + 2)));
                }
            },
        }
    }
}

/// The parsed request line: the method token before the first space, the
/// target up to the next space, and the protocol after it (the `unknown`
/// sentinel when absent). A line without any space has no method/target
/// split and is malformed.
pub open spec fn spec_parse_request_line(line: Seq<u8>) -> Option<(Seq<u8>, Seq<u8>, Seq<u8>)> {
    match spec_find_byte(line, 32) {
        None => None,
        Some(s1) => {
            let method = line.take(s1);
            let rest = line.skip(s1 + 1);
            match spec_find_byte(rest, 32) {
                None => Some((method, rest, crate::request::spec_unknown())),
                Some(s2) => Some((method, rest.take(s2), rest.skip(s2 + 1))),
            }
        },
    }
}

/// Parses a request line, as [`spec_parse_request_line`] says.
pub fn parse_request_line(line: &[u8]) -> (r: Option<(Vec<u8>, Vec<u8>, Vec<u8>)>)
    ensures
        match r {
            Some(t) => spec_parse_request_line(line@) == Some((t.0@, t.1@, t.2@)),
            None => spec_parse_request_line(line@) is None,
        },
{
    let s1 = match find_byte(line, 32) {
        None => {
            return None;
        },
        Some(s) => s,
    };
    proof {
        lemma_find_byte_from_bounds(line@, 32, 0);
    }
    let n = line.len();
    let method = crate::bytes::copy_bytes(vstd::slice::slice_subrange(line, 0, s1));
    let rest = vstd::slice::slice_subrange(line, s1 + 1, n);
    proof {
        assert(method@ =~= line@.take(s1 as int));
        assert(rest@ =~= line@.skip(s1 + 1));
    }
    match find_byte(rest, 32) {
        None => {
            let target = crate::bytes::copy_bytes(rest);
            Some((method, target, crate::request::unknown_sentinel()))
        },
        Some(s2) => {
            proof {
                lemma_find_byte_from_bounds(rest@, 32, 0);
            }
            let m = rest.len();
            let target = crate::bytes::copy_bytes(vstd::slice::slice_subrange(rest, 0, s2));
            let proto = crate::bytes::copy_bytes(vstd::slice::slice_subrange(rest, s2 + 1, m));
            proof {
                assert(target@ =~= rest@.take(s2 as int));
                assert(proto@ =~= rest@.skip(s2 + 1));
            }
            Some((method, target, proto))
        },
    }
}

/// Builds the header name `Content-Length`.
pub fn content_length_header_name() -> (r: Vec<u8>)
    ensures
        r@ == crate::encoder::spec_content_length_name(),
{
    let mut v: Vec<u8> = Vec::new();
    v.push(67);
    v.push(111);
    v.push(110);
    v.push(116);
    v.push(101);
    v.push(110);
    v.push(116);
    v.push(45);
    v.push(76);
    v.push(101);
    v.push(110);
    v.push(103);
    v.push(116);
    v.push(104);
    proof {
        assert(v@ =~= crate::encoder::spec_content_length_name());
    }
    v
}

/// The first line and parsed header lines of the header block `b.take(p)`,
/// where `p` is where the header/body separator was found.
pub open spec fn spec_header_section(b: Seq<u8>, p: int) -> (Seq<u8>, Seq<(Seq<u8>, Seq<u8>)>) {
    let head = b.take(p);
    match spec_find_crlf(head) {
        None => (head, Seq::empty()),
        Some(k) => (head.take(k), spec_parse_header_lines(head.skip(k + 2))),
    }
}

/// The outcome of one decode step over buffered bytes.
pub enum FrameParse {
    /// No complete frame yet: not an error, the normal partial-read case.
    NeedMore,
    /// A complete frame: the decoded request and how many buffered bytes it
    /// consumed.
    Frame { request: crate::request::RequestModel, consumed: int },
    /// The buffered bytes cannot be a frame.
    Failed(crate::error::ErrorModel),
}

/// The decode step, whole: what one [`FrameCodec::try_decode`] call finds in
/// buffered bytes `b` under the body-size limit `max_body`.
///
/// - Without the header/body separator, more data is needed.
/// - The first line before the separator must split into method and target
///   on spaces; otherwise the frame is malformed.
/// - The remaining lines are headers; a `Content-Length` header (name
///   compared ignoring ASCII case) must be a decimal number, declares the
///   body length (zero when absent), and is bounded by `max_body`.
/// - Until that many bytes stand after the separator, more data is needed;
///   then the frame is complete and consumes everything through its body.
pub open spec fn spec_parse_frame(b: Seq<u8>, max_body: u64) -> FrameParse {
    match spec_find_sep(b) {
        None => FrameParse::NeedMore,
        Some(p) => {
            let section = spec_header_section(b, p);
            match spec_parse_request_line(section.0) {
                None => FrameParse::Failed(crate::error::ErrorModel::MalformedRequestLine),
                Some(rl) => {
                    let cl = crate::request::spec_find_header(
                        section.1,
                        crate::encoder::spec_content_length_name(),
                    );
                    if cl is Some && (cl->0.len() == 0 || !crate::numbers::all_digits(cl->0)) {
                        FrameParse::Failed(crate::error::ErrorModel::InvalidContentLength)
                    } else {
                        let n = if cl is None {
                            0
                        } else {
                            crate::numbers::spec_decimal_value(cl->0)
                        };
                        if n > max_body {
                            FrameParse::Failed(crate::error::ErrorModel::BodyTooLarge)
                        } else if b.len() - (p + 4) < n {
                            FrameParse::NeedMore
                        } else {
                            FrameParse::Frame {
                                request: crate::request::RequestModel {
                                    method: crate::request::MethodModel::spec_classify(rl.0),
                                    target: rl.1,
                                    headers: section.1,
                                    body: b.subrange(p + 4, p + 4 + n),
                                    remote_address: crate::request::spec_unknown(),
                                    protocol_version: rl.2,
                                },
                                consumed: p + 4 + n,
                            }
                        }
                    }
                },
            }
        },
    }
}

/// The two logical states of the codec: waiting for the header/body
/// separator, or past it and waiting for the declared body bytes.
/// `HeadersComplete` is transient: it collapses back once the full frame is
/// extracted.
#[derive(Clone, Copy, PartialEq, Eq, Structural, Debug)]
pub enum CodecState {
    AwaitingHeaders,
    HeadersComplete,
}

/// The codec at the spec level.
pub struct FrameCodecModel {
    pub buffer: Seq<u8>,
    pub state: CodecState,
    pub max_body: u64,
}

/// The buffering frame codec of the persistent path. It owns its buffer
/// exclusively: decoded requests carry independent copies, never references
/// into it, so draining and reusing the buffer is safe.
pub struct FrameCodec {
    buffer: Vec<u8>,
    state: CodecState,
    max_body: usize,
}

impl View for FrameCodec {
    type V = FrameCodecModel;

    closed spec fn view(&self) -> FrameCodecModel {
        FrameCodecModel {
            buffer: self.buffer@,
            state: self.state,
            max_body: self.max_body as u64,
        }
    }
}

impl FrameCodec {
    /// A fresh codec: empty buffer, awaiting headers, bodies bounded by
    /// `max_body`.
    pub fn new(max_body: usize) -> (c: FrameCodec)
        ensures
            c@.buffer == Seq::<u8>::empty(),
            c@.state == CodecState::AwaitingHeaders,
            c@.max_body == max_body as u64,
    {
        let c = FrameCodec { buffer: Vec::new(), state: CodecState::AwaitingHeaders, max_body };
        proof {
            assert(c@.buffer =~= Seq::<u8>::empty());
        }
        c
    }

    /// How many bytes are buffered and not yet consumed.
    pub fn buffered(&self) -> (n: usize)
        ensures
            n == self@.buffer.len(),
    {
        self.buffer.len()
    }

    /// The codec's current logical state.
    pub fn state(&self) -> (s: CodecState)
        ensures
            s == self@.state,
    {
        self.state
    }

    /// Appends newly available bytes to the buffer. Nothing else changes:
    /// decoding happens only in [`FrameCodec::try_decode`].
    pub fn feed(&mut self, chunk: &[u8])
        ensures
            final(self)@.buffer == old(self)@.buffer + chunk@,
            final(self)@.state == old(self)@.state,
            final(self)@.max_body == old(self)@.max_body,
    {
        crate::bytes::append_bytes(&mut self.buffer, chunk);
    }

    /// One decode step over the buffered bytes, exactly as
    /// [`spec_parse_frame`] says.
    ///
    /// - `Ok(None)`: no complete frame yet; the buffer is kept, and the
    ///   state says whether the header block is already complete.
    /// - `Ok(Some(request))`: a complete frame was extracted; exactly its
    ///   bytes are drained from the front of the buffer and the state
    ///   collapses back to awaiting headers.
    /// - `Err(e)`: the buffered bytes cannot be a frame; the buffer is kept
    ///   for the embedding to tear the connection down.
    pub fn try_decode(&mut self) -> (r: Result<Option<crate::request::Request>, crate::error::Error>)
        ensures
            final(self)@.max_body == old(self)@.max_body,
            match spec_parse_frame(old(self)@.buffer, old(self)@.max_body) {
                FrameParse::NeedMore => {
                    &&& r is Ok
                    &&& r->Ok_0 is None
                    &&& final(self)@.buffer == old(self)@.buffer
                    &&& (final(self)@.state == CodecState::HeadersComplete <==> spec_find_sep(
                        old(self)@.buffer,
                    ) is Some)
                },
                FrameParse::Frame { request, consumed } => {
                    &&& r is Ok
                    &&& r->Ok_0 is Some
                    &&& r->Ok_0->0@ == request
                    &&& final(self)@.buffer == old(self)@.buffer.skip(consumed)
                    &&& final(self)@.state == CodecState::AwaitingHeaders
                },
                FrameParse::Failed(e) => {
                    &&& r is Err
                    &&& r->Err_0@ == e
                    &&& final(self)@.buffer == old(self)@.buffer
                    &&& final(self)@.state == CodecState::AwaitingHeaders
                },
            },
    {
        let ghost buf = self.buffer@;
        let p = match find_sep(self.buffer.as_slice()) {
            None => {
                self.state = CodecState::AwaitingHeaders;
                return Ok(None);
            },
            Some(p) => p,
        };
        proof {
            lemma_find_sep_from_bounds(buf, 0);
        }
        let head = vstd::slice::slice_subrange(self.buffer.as_slice(), 0, p);
        proof {
            assert(head@ =~= buf.take(p as int));
        }
        let mut headers: Vec<(Vec<u8>, Vec<u8>)> = Vec::new();
        let first_line: Vec<u8> = match find_crlf(head) {
            None => {
                proof {
                    assert(headers@.map_values(|q: (Vec<u8>, Vec<u8>)| (q.0@, q.1@)) =~= Seq::<
                        (Seq<u8>, Seq<u8>),
                    >::empty());
                }
                crate::bytes::copy_bytes(head)
            },
            Some(k) => {
                proof {
                    lemma_find_crlf_from_bounds(head@, 0);
                }
                let hn = head.len();
                let block = vstd::slice::slice_subrange(head, k + 2, hn);
                proof {
                    assert(block@ =~= head@.skip(k + 2));
                }
                headers = parse_header_lines(block);
                let fl = crate::bytes::copy_bytes(vstd::slice::slice_subrange(head, 0, k));
                proof {
                    assert(fl@ =~= head@.take(k as int));
                }
                fl
            },
        };
        let ghost section = spec_header_section(buf, p as int);
        proof {
            assert(first_line@ == section.0);
            assert(headers@.map_values(|q: (Vec<u8>, Vec<u8>)| (q.0@, q.1@)) == section.1);
        }
        let rl = match parse_request_line(first_line.as_slice()) {
            None => {
                self.state = CodecState::AwaitingHeaders;
                return Err(crate::error::Error::MalformedRequestLine);
            },
            Some(t) => t,
        };
        let cl_name = content_length_header_name();
        let n: usize = match crate::request::find_header(&headers, cl_name.as_slice()) {
            None => 0,
            Some(v) => {
                let parsed = crate::numbers::parse_decimal(v.as_slice());
                match parsed {
                    crate::numbers::ParsedNumber::NotANumber => {
                        self.state = CodecState::AwaitingHeaders;
                        return Err(crate::error::Error::InvalidContentLength);
                    },
                    crate::numbers::ParsedNumber::Overflow => {
                        proof {
                            assert(crate::numbers::spec_decimal_value(v@) > u64::MAX) by {
                                if crate::numbers::spec_decimal_value(v@) <= u64::MAX {
                                    crate::numbers::lemma_decimal_value_nonneg(v@);
                                    assert(parsed == crate::numbers::ParsedNumber::Value(
                                        crate::numbers::spec_decimal_value(v@) as u64,
                                    ));
                                }
                            }
                        }
                        self.state = CodecState::AwaitingHeaders;
                        return Err(crate::error::Error::BodyTooLarge);
                    },
                    crate::numbers::ParsedNumber::Value(x) => {
                        proof {
                            assert(x == crate::numbers::spec_decimal_value(v@)) by {
                                crate::numbers::lemma_decimal_value_nonneg(v@);
                                if crate::numbers::spec_decimal_value(v@) > u64::MAX {
                                    assert(parsed == crate::numbers::ParsedNumber::Overflow);
                                }
                            }
                        }
                        if x > self.max_body as u64 {
                            self.state = CodecState::AwaitingHeaders;
                            return Err(crate::error::Error::BodyTooLarge);
                        }
                        x as usize
                    },
                }
            },
        };
        if self.buffer.len() - (p + 4) < n {
            self.state = CodecState::HeadersComplete;
            return Ok(None);
        }
        let body = crate::bytes::copy_bytes(
            vstd::slice::slice_subrange(self.buffer.as_slice(), p + 4, p + 4 + n),
        );
        let blen = self.buffer.len();
        let tail = crate::bytes::copy_bytes(
            vstd::slice::slice_subrange(self.buffer.as_slice(), p + 4 + n, blen),
        );
        self.buffer.clear();
        crate::bytes::append_bytes(&mut self.buffer, tail.as_slice());
        self.state = CodecState::AwaitingHeaders;
        proof {
            assert(self.buffer@ =~= buf.skip(p + 4 + n));
        }
        let req = crate::request::Request {
            method: crate::request::Method::classify(rl.0),
            target: rl.1,
            headers,
            body,
            remote_address: crate::request::unknown_sentinel(),
            protocol_version: rl.2,
        };
        Ok(Some(req))
    }

    /// Serializes a response into an output frame, as
    /// [`crate::encoder::spec_encode_framed`] says. The buffer is untouched:
    /// encoding shares nothing with decoding but the connection.
    pub fn encode(&self, resp: &crate::response::Response) -> (out: Vec<u8>)
        ensures
            out@ == crate::encoder::spec_encode_framed(resp@),
    {
        crate::encoder::encode_framed(resp)
    }
}

/// Fragmentation never matters: a frame's bytes fed in two chunks, at any
/// cut, decode exactly as the frame fed whole, because the decode step is a
/// function of the accumulated bytes alone ([`FrameCodec::feed`] only ever
/// concatenates, and concatenation is associative, so the same holds of any
/// number of chunks).
pub proof fn lemma_fragmentation_immaterial(whole: Seq<u8>, cut: int, max_body: u64)
    requires
        0 <= cut <= whole.len(),
    ensures
        spec_parse_frame(whole.take(cut) + whole.skip(cut), max_body) == spec_parse_frame(
            whole,
            max_body,
        ),
{
    assert(whole.take(cut) + whole.skip(cut) =~= whole);
}

} // verus!
