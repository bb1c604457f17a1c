//! Error kinds of the codec and of the surrounding request lifecycle.

use vstd::prelude::*;

verus! {

/// Everything that can go wrong while decoding a request, reading its body,
/// or delivering a response.
///
/// Decode-time failures (all kinds but the last two) are converted to a
/// 500-class response when output has not started. `UpstreamHandlerFailure`
/// and `OutputWriteFailure` are connection-level signals raised around
/// dispatch and around writing.
#[derive(PartialEq, Eq, Clone, Debug)]
pub enum Error {
    /// A required environment variable is absent or empty; carries its name.
    MissingField(Vec<u8>),
    /// The declared content length is not a non-negative decimal integer.
    InvalidContentLength,
    /// The input stream ended before the declared number of body bytes.
    IncompleteBody { expected: u64, actual: u64 },
    /// The declared content length exceeds the configured maximum body size.
    BodyTooLarge,
    /// The first line of a frame's header block has no method/target split.
    MalformedRequestLine,
    /// A method token outside the supported set; informational, the
    /// dispatcher decides whether it is fatal.
    UnsupportedMethod,
    /// The dispatcher terminated abnormally instead of returning a response.
    UpstreamHandlerFailure,
    /// Writing the encoded response to the output stream failed.
    OutputWriteFailure,
}

/// An error at the spec level: the missing field's name a mathematical
/// sequence.
pub enum ErrorModel {
    MissingField(Seq<u8>),
    InvalidContentLength,
    IncompleteBody { expected: u64, actual: u64 },
    BodyTooLarge,
    MalformedRequestLine,
    UnsupportedMethod,
    UpstreamHandlerFailure,
    OutputWriteFailure,
}

impl View for Error {
    type V = ErrorModel;

    open spec fn view(&self) -> ErrorModel {
        match self {
            Error::MissingField(name) => ErrorModel::MissingField(name@),
            Error::InvalidContentLength => ErrorModel::InvalidContentLength,
            Error::IncompleteBody { expected, actual } => ErrorModel::IncompleteBody {
                expected: *expected,
                actual: *actual,
            },
            Error::BodyTooLarge => ErrorModel::BodyTooLarge,
            Error::MalformedRequestLine => ErrorModel::MalformedRequestLine,
            Error::UnsupportedMethod => ErrorModel::UnsupportedMethod,
            Error::UpstreamHandlerFailure => ErrorModel::UpstreamHandlerFailure,
            Error::OutputWriteFailure => ErrorModel::OutputWriteFailure,
        }
    }
}

impl ErrorModel {
    /// What `describe` returns, kind by kind: the bytes of a short phrase.
    pub open spec fn spec_describe(&self) -> Seq<u8> {
        match self {
            ErrorModel::MissingField(_) => seq![109u8, 105u8, 115u8, 115u8, 105u8, 110u8, 103u8, 32u8, 114u8, 101u8, 113u8, 117u8, 105u8, 114u8, 101u8, 100u8, 32u8, 102u8, 105u8, 101u8, 108u8, 100u8],
            ErrorModel::InvalidContentLength => seq![105u8, 110u8, 118u8, 97u8, 108u8, 105u8, 100u8, 32u8, 99u8, 111u8, 110u8, 116u8, 101u8, 110u8, 116u8, 32u8, 108u8, 101u8, 110u8, 103u8, 116u8, 104u8],
            ErrorModel::IncompleteBody { .. } => seq![105u8, 110u8, 99u8, 111u8, 109u8, 112u8, 108u8, 101u8, 116u8, 101u8, 32u8, 98u8, 111u8, 100u8, 121u8],
            ErrorModel::BodyTooLarge => seq![98u8, 111u8, 100u8, 121u8, 32u8, 116u8, 111u8, 111u8, 32u8, 108u8, 97u8, 114u8, 103u8, 101u8],
            ErrorModel::MalformedRequestLine => seq![109u8, 97u8, 108u8, 102u8, 111u8, 114u8, 109u8, 101u8, 100u8, 32u8, 114u8, 101u8, 113u8, 117u8, 101u8, 115u8, 116u8, 32u8, 108u8, 105u8, 110u8, 101u8],
            ErrorModel::UnsupportedMethod => seq![117u8, 110u8, 115u8, 117u8, 112u8, 112u8, 111u8, 114u8, 116u8, 101u8, 100u8, 32u8, 109u8, 101u8, 116u8, 104u8, 111u8, 100u8],
            ErrorModel::UpstreamHandlerFailure => seq![117u8, 112u8, 115u8, 116u8, 114u8, 101u8, 97u8, 109u8, 32u8, 104u8, 97u8, 110u8, 100u8, 108u8, 101u8, 114u8, 32u8, 102u8, 97u8, 105u8, 108u8, 117u8, 114u8, 101u8],
            ErrorModel::OutputWriteFailure => seq![111u8, 117u8, 116u8, 112u8, 117u8, 116u8, 32u8, 119u8, 114u8, 105u8, 116u8, 101u8, 32u8, 102u8, 97u8, 105u8, 108u8, 117u8, 114u8, 101u8],
        }
    }
}

impl Error {
    /// A short fixed diagnostic for each kind, fit for a minimal error body.
    pub fn describe(&self) -> (r: Vec<u8>)
        ensures
            r@ == self@.spec_describe(),
    {
        let mut r: Vec<u8> = Vec::new();
        match self {
            Error::MissingField(_) => {
                r.push(109);
                r.push(105);
                r.push(115);
                r.push(115);
                r.push(105);
                r.push(110);
                r.push(103);
                r.push(32);
                r.push(114);
                r.push(101);
                r.push(113);
                r.push(117);
                r.push(105);
                r.push(114);
                r.push(101);
                r.push(100);
                r.push(32);
                r.push(102);
                r.push(105);
                r.push(101);
                r.push(108);
                r.push(100);
            },
            Error::InvalidContentLength => {
                r.push(105);
                r.push(110);
                r.push(118);
                r.push(97);
                r.push(108);
                r.push(105);
                r.push(100);
                r.push(32);
                r.push(99);
                r.push(111);
                r.push(110);
                r.push(116);
                r.push(101);
                r.push(110);
                r.push(116);
                r.push(32);
                r.push(108);
                r.push(101);
                r.push(110);
                r.push(103);
                r.push(116);
                r.push(104);
            },
            Error::IncompleteBody { .. } => {
                r.push(105);
                r.push(110);
                r.push(99);
                r.push(111);
                r.push(109);
                r.push(112);
                r.push(108);
                r.push(101);
                r.push(116);
                r.push(101);
                r.push(32);
                r.push(98);
                r.push(111);
                r.push(100);
                r.push(121);
            },
            Error::BodyTooLarge => {
                r.push(98);
                r.push(111);
                r.push(100);
                r.push(121);
                r.push(32);
                r.push(116);
                r.push(111);
                r.push(111);
                r.push(32);
                r.push(108);
                r.push(97);
                r.push(114);
                r.push(103);
                r.push(101);
            },
            Error::MalformedRequestLine => {
                r.push(109);
                r.push(97);
                r.push(108);
                r.push(102);
                r.push(111);
                r.push(114);
                r.push(109);
                r.push(101);
                r.push(100);
                r.push(32);
                r.push(114);
                r.push(101);
                r.push(113);
                r.push(117);
                r.push(101);
                r.push(115);
                r.push(116);
                r.push(32);
                r.push(108);
                r.push(105);
                r.push(110);
                r.push(101);
            },
            Error::UnsupportedMethod => {
                r.push(117);
                r.push(110);
                r.push(115);
                r.push(117);
                r.push(112);
                r.push(112);
                r.push(111);
                r.push(114);
                r.push(116);
                r.push(101);
                r.push(100);
                r.push(32);
                r.push(109);
                r.push(101);
                r.push(116);
                r.push(104);
                r.push(111);
                r.push(100);
            },
            Error::UpstreamHandlerFailure => {
                r.push(117);
                r.push(112);
                r.push(115);
                r.push(116);
                r.push(114);
                r.push(101);
                r.push(97);
                r.push(109);
                r.push(32);
                r.push(104);
                r.push(97);
                r.push(110);
                r.push(100);
                r.push(108);
                r.push(101);
                r.push(114);
                r.push(32);
                r.push(102);
                r.push(97);
                r.push(105);
                r.push(108);
                r.push(117);
                r.push(114);
                r.push(101);
            },
            Error::OutputWriteFailure => {
                r.push(111);
                r.push(117);
                r.push(116);
                r.push(112);
                r.push(117);
                r.push(116);
                r.push(32);
                r.push(119);
                r.push(114);
                r.push(105);
                r.push(116);
                r.push(101);
                r.push(32);
                r.push(102);
                r.push(97);
                r.push(105);
                r.push(108);
                r.push(117);
                r.push(114);
                r.push(101);
            },
        }
        proof {
            assert(r@ =~= self@.spec_describe());
        }
        r
    }
}

} // verus!
