//! The structured response model.

use vstd::prelude::*;

verus! {

/// A response body: either fully materialized bytes, or a lazily produced
/// stream that the codec never sees, with its length declared when known.
#[derive(PartialEq, Eq, Clone, Debug)]
pub enum ResponseBody {
    /// All bytes in hand; the length is their count.
    Bytes(Vec<u8>),
    /// Produced outside the codec; `Some` declares the number of bytes the
    /// producer will eventually write, which must then be exact.
    Stream(Option<u64>),
}

/// A response body at the spec level.
pub enum ResponseBodyModel {
    Bytes(Seq<u8>),
    Stream(Option<u64>),
}

impl View for ResponseBody {
    type V = ResponseBodyModel;

    open spec fn view(&self) -> ResponseBodyModel {
        match self {
            ResponseBody::Bytes(b) => ResponseBodyModel::Bytes(b@),
            ResponseBody::Stream(l) => ResponseBodyModel::Stream(*l),
        }
    }
}

impl ResponseBodyModel {
    /// The declared or computed body length, when determinable.
    pub open spec fn known_length(self) -> Option<u64> {
        match self {
            ResponseBodyModel::Bytes(b) => Some(b.len() as u64),
            ResponseBodyModel::Stream(l) => l,
        }
    }
}

/// One response, created per invocation and discarded once fully written.
#[derive(PartialEq, Eq, Clone, Debug)]
pub struct Response {
    /// The status code; well-formed responses keep it within 100..=599.
    pub status_code: u16,
    /// Ordered header sequence, written out in order.
    pub headers: Vec<(Vec<u8>, Vec<u8>)>,
    pub body: ResponseBody,
}

/// A response at the spec level.
pub struct ResponseModel {
    pub status_code: u16,
    pub headers: Seq<(Seq<u8>, Seq<u8>)>,
    pub body: ResponseBodyModel,
}

impl View for Response {
    type V = ResponseModel;

    open spec fn view(&self) -> ResponseModel {
        ResponseModel {
            status_code: self.status_code,
            headers: self.headers@.map_values(|p: (Vec<u8>, Vec<u8>)| (p.0@, p.1@)),
            body: self.body@,
        }
    }
}

impl ResponseModel {
    /// A response is well formed when its status code lies in the protocol's
    /// range.
    pub open spec fn wf(self) -> bool {
        100 <= self.status_code <= 599
    }
}

impl Response {
    /// Whether the status code lies in the protocol's range.
    pub fn is_well_formed(&self) -> (r: bool)
        ensures
            r == self@.wf(),
    {
        100 <= self.status_code && self.status_code <= 599
    }
}

} // verus!
