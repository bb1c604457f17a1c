//! Exact-length body reading.
//!
//! A request body arrives on an input stream with a declared length. The
//! reader takes the bytes that the stream yielded before end-of-input and
//! either produces exactly the declared number of bytes or fails: it never
//! truncates silently and never reads past the declared length, so any excess
//! stays available for the next frame.

use vstd::prelude::*;
use crate::error::Error;

verus! {

/// Reads exactly `declared` bytes of body out of `available`, the bytes the
/// input stream yielded before signaling end-of-input.
///
/// - If `declared` exceeds `max_body`, fails with `Error::BodyTooLarge`
///   before touching the stream contents.
/// - If the stream yielded fewer than `declared` bytes, fails with
///   `Error::IncompleteBody` carrying the expected and actual counts.
/// - Otherwise returns the first `declared` bytes unchanged; any bytes beyond
///   them are not consumed.
pub fn read_body(declared: usize, available: &Vec<u8>, max_body: usize) -> (r: Result<
    Vec<u8>,
    Error,
>)
    ensures
        declared > max_body ==> r == Result::<Vec<u8>, Error>::Err(Error::BodyTooLarge),
        declared <= max_body && available@.len() < declared ==> r == Result::<Vec<u8>, Error>::Err(
            Error::IncompleteBody { expected: declared as u64, actual: available@.len() as u64 },
        ),
        declared <= max_body && available@.len() >= declared ==> r is Ok && r->Ok_0@
            == available@.subrange(0, declared as int),
{
    if declared > max_body {
        return Err(Error::BodyTooLarge);
    }
    if available.len() < declared {
        return Err(Error::IncompleteBody { expected: declared as u64, actual: available.len() as u64 });
    }
    let mut body: Vec<u8> = Vec::new();
    let mut i: usize = 0;
    while i < declared
        invariant
            i <= declared,
            declared <= available@.len(),
            body@ == available@.subrange(0, i as int),
        decreases declared - i,
    {
        body.push(available[i]);
        i = i + 1;
        proof {
            assert(body@ =~= available@.subrange(0, i as int));
        }
    }
    Ok(body)
}

} // verus!
