//! The structured request model.
//!
//! All textual fields are byte strings, as they stand on the wire and in the
//! process environment; the codec never interprets them beyond the ASCII
//! bytes its own grammar needs.

use vstd::prelude::*;

verus! {

/// The request method. Unrecognized tokens are a decodable value, not a
/// failure: classification of validity is deferred to the dispatcher.
#[derive(PartialEq, Eq, Clone, Debug)]
pub enum Method {
    Get,
    Post,
    /// Any other method token, carried verbatim.
    Unsupported(Vec<u8>),
}

/// A method seen at the spec level: like [`Method`], the unsupported token a
/// mathematical sequence.
pub enum MethodModel {
    Get,
    Post,
    Unsupported(Seq<u8>),
}

impl View for Method {
    type V = MethodModel;

    open spec fn view(&self) -> MethodModel {
        match self {
            Method::Get => MethodModel::Get,
            Method::Post => MethodModel::Post,
            Method::Unsupported(t) => MethodModel::Unsupported(t@),
        }
    }
}

/// The byte sequence of the token `GET`.
pub open spec fn spec_get_token() -> Seq<u8> {
    seq![71u8, 69u8, 84u8]
}

/// The byte sequence of the token `POST`.
pub open spec fn spec_post_token() -> Seq<u8> {
    seq![80u8, 79u8, 83u8, 84u8]
}

impl MethodModel {
    /// How a method token classifies: `GET` and `POST` map to their
    /// variants, anything else is carried verbatim as `Unsupported`.
    pub open spec fn spec_classify(token: Seq<u8>) -> MethodModel {
        if token == spec_get_token() {
            MethodModel::Get
        } else if token == spec_post_token() {
            MethodModel::Post
        } else {
            MethodModel::Unsupported(token)
        }
    }
}

impl Method {
    /// Classifies a method token as [`MethodModel::spec_classify`] says.
    pub fn classify(token: Vec<u8>) -> (r: Method)
        ensures
            r@ == MethodModel::spec_classify(token@),
    {
        if token.len() == 3 && token[0] == 71u8 && token[1] == 69u8 && token[2] == 84u8 {
            proof {
                assert(token@ =~= spec_get_token());
            }
            Method::Get
        } else if token.len() == 4 && token[0] == 80u8 && token[1] == 79u8 && token[2] == 83u8
            && token[3] == 84u8 {
            proof {
                assert(token@ =~= spec_post_token());
            }
            Method::Post
        } else {
            proof {
                assert(token@ != spec_get_token() && token@ != spec_post_token()) by {
                    if token@ == spec_get_token() {
                        assert(token@.len() == 3 && token@[0] == 71u8 && token@[1] == 69u8
                            && token@[2] == 84u8);
                    }
                    if token@ == spec_post_token() {
                        assert(token@.len() == 4 && token@[0] == 80u8 && token@[1] == 79u8
                            && token@[2] == 83u8 && token@[3] == 84u8);
                    }
                }
            }
            Method::Unsupported(token)
        }
    }
}

/// One decoded request. Every field is an independent copy: no decoded
/// request ever aliases a codec's internal buffer.
#[derive(PartialEq, Eq, Clone, Debug)]
pub struct Request {
    pub method: Method,
    /// The request target (URL or path), verbatim.
    pub target: Vec<u8>,
    /// Ordered header sequence; duplicates allowed, order preserved.
    pub headers: Vec<(Vec<u8>, Vec<u8>)>,
    /// The body; its length always equals the declared content length at
    /// construction time. No partial body ever escapes a decoder.
    pub body: Vec<u8>,
    /// Informational; the sentinel `unknown` when the source did not say.
    pub remote_address: Vec<u8>,
    /// Informational; the sentinel `unknown` when the source did not say.
    pub protocol_version: Vec<u8>,
}

/// The spec-level image of a request: every field a mathematical sequence.
pub struct RequestModel {
    pub method: MethodModel,
    pub target: Seq<u8>,
    pub headers: Seq<(Seq<u8>, Seq<u8>)>,
    pub body: Seq<u8>,
    pub remote_address: Seq<u8>,
    pub protocol_version: Seq<u8>,
}

impl View for Request {
    type V = RequestModel;

    open spec fn view(&self) -> RequestModel {
        RequestModel {
            method: self.method@,
            target: self.target@,
            headers: self.headers@.map_values(|p: (Vec<u8>, Vec<u8>)| (p.0@, p.1@)),
            body: self.body@,
            remote_address: self.remote_address@,
            protocol_version: self.protocol_version@,
        }
    }
}

/// The sentinel for an informational field whose source did not say:
/// the bytes of `unknown`.
pub open spec fn spec_unknown() -> Seq<u8> {
    seq![117u8, 110u8, 107u8, 110u8, 111u8, 119u8, 110u8]
}

/// Builds the `unknown` sentinel value.
pub fn unknown_sentinel() -> (r: Vec<u8>)
    ensures
        r@ == spec_unknown(),
{
    let mut v: Vec<u8> = Vec::new();
    v.push(117u8);
    v.push(110u8);
    v.push(107u8);
    v.push(110u8);
    v.push(111u8);
    v.push(119u8);
    v.push(110u8);
    proof {
        assert(v@ =~= spec_unknown());
    }
    v
}

/// The value of the first header whose name matches `name` under ASCII case
/// folding: how header lookup compares names.
pub open spec fn spec_find_header(headers: Seq<(Seq<u8>, Seq<u8>)>, name: Seq<u8>) -> Option<
    Seq<u8>,
>
    decreases headers.len(),
{
    if headers.len() == 0 {
        None
    } else if crate::bytes::eq_ignore_case(headers.first().0, name) {
        Some(headers.first().1)
    } else {
        spec_find_header(headers.drop_first(), name)
    }
}

/// When the first case-insensitive match stands at position `i`, header
/// lookup returns its value.
proof fn lemma_find_header_first_match(headers: Seq<(Seq<u8>, Seq<u8>)>, name: Seq<u8>, i: int)
    requires
        0 <= i < headers.len(),
        forall|j: int|
            0 <= j < i ==> !crate::bytes::eq_ignore_case((#[trigger] headers[j]).0, name),
        crate::bytes::eq_ignore_case(headers[i].0, name),
    ensures
        spec_find_header(headers, name) == Some(headers[i].1),
    decreases i,
{
    if i > 0 {
        lemma_find_header_first_match(headers.drop_first(), name, i - 1);
    }
}

/// When nothing matches, header lookup returns `None`.
proof fn lemma_find_header_no_match(headers: Seq<(Seq<u8>, Seq<u8>)>, name: Seq<u8>)
    requires
        forall|j: int|
            0 <= j < headers.len() ==> !crate::bytes::eq_ignore_case(
                (#[trigger] headers[j]).0,
                name,
            ),
    ensures
        spec_find_header(headers, name) is None,
    decreases headers.len(),
{
    if headers.len() > 0 {
        lemma_find_header_no_match(headers.drop_first(), name);
    }
}

/// Looks a header up by name, ignoring ASCII case, as [`spec_find_header`]
/// says.
pub fn find_header<'a>(headers: &'a Vec<(Vec<u8>, Vec<u8>)>, name: &[u8]) -> (r: Option<
    &'a Vec<u8>,
>)
    ensures
        ({
            let hs = headers@.map_values(|p: (Vec<u8>, Vec<u8>)| (p.0@, p.1@));
            match r {
                Some(v) => spec_find_header(hs, name@) == Some(v@),
                None => spec_find_header(hs, name@) is None,
            }
        }),
{
    let ghost hs = headers@.map_values(|p: (Vec<u8>, Vec<u8>)| (p.0@, p.1@));
    let mut i: usize = 0;
    while i < headers.len()
        invariant
            hs == headers@.map_values(|p: (Vec<u8>, Vec<u8>)| (p.0@, p.1@)),
            hs.len() == headers@.len(),
            i <= headers@.len(),
            forall|j: int|
                0 <= j < i ==> !crate::bytes::eq_ignore_case((#[trigger] hs[j]).0, name@),
        decreases headers@.len() - i,
    {
        if crate::bytes::bytes_eq_ignore_case(headers[i].0.as_slice(), name) {
            proof {
                lemma_find_header_first_match(hs, name@, i as int);
            }
            return Some(&headers[i].1);
        }
        i = i + 1;
    }
    proof {
        lemma_find_header_no_match(hs, name@);
    }
    None
}


impl Request {
    /// The value of the first header named `name`, compared ignoring ASCII
    /// case, as [`spec_find_header`] says.
    pub fn header<'a>(&'a self, name: &[u8]) -> (r: Option<&'a Vec<u8>>)
        ensures
            match r {
                Some(v) => spec_find_header(self@.headers, name@) == Some(v@),
                None => spec_find_header(self@.headers, name@) is None,
            },
    {
        find_header(&self.headers, name)
    }
}

} // verus!
