//! The failure boundary around one request's processing.
//!
//! The dispatcher is the embedding application's collaborator; its abnormal
//! termination is modeled as an explicit outcome tag rather than a
//! language-level unwind. The boundary inspects that tag and how far output
//! had gone, and yields exactly one of three verdicts: deliver the response,
//! deliver a synthesized error response, or terminate. Failures are never
//! silently dropped, and a response whose headers already went out is never
//! repaired.

use vstd::prelude::*;
use crate::error::{Error, ErrorModel};
use crate::response::{Response, ResponseBody, ResponseBodyModel, ResponseModel};

verus! {

/// What one dispatch call came to.
#[derive(PartialEq, Eq, Clone, Debug)]
pub enum DispatchOutcome {
    /// The dispatcher returned a response normally.
    Completed(Response),
    /// The dispatcher terminated abnormally.
    Aborted,
}

/// A dispatch outcome at the spec level.
pub enum DispatchOutcomeModel {
    Completed(ResponseModel),
    Aborted,
}

impl View for DispatchOutcome {
    type V = DispatchOutcomeModel;

    open spec fn view(&self) -> DispatchOutcomeModel {
        match self {
            DispatchOutcome::Completed(resp) => DispatchOutcomeModel::Completed(resp@),
            DispatchOutcome::Aborted => DispatchOutcomeModel::Aborted,
        }
    }
}

/// How far the response output had gone when the boundary was invoked.
#[derive(Clone, Copy, PartialEq, Eq, Structural, Debug)]
pub enum OutputProgress {
    /// Nothing written yet: a failure can still become an error response.
    NotStarted,
    /// Headers already flushed: the status can no longer be changed.
    HeadersSent,
}

/// The boundary's verdict. Exactly one of these is the outcome per request.
#[derive(PartialEq, Eq, Clone, Debug)]
pub enum BoundaryVerdict {
    /// Normal return: pass this response to the appropriate encoder.
    Deliver(Response),
    /// A failure before any output: deliver this synthesized 500 response
    /// instead, then signal failure at the process or connection level.
    ErrorResponse(Response),
    /// A failure after output began: nothing can repair the partial
    /// response; terminate the connection or process, keeping the failure
    /// for the operator.
    Terminate(Error),
}

/// A verdict at the spec level.
pub enum BoundaryVerdictModel {
    Deliver(ResponseModel),
    ErrorResponse(ResponseModel),
    Terminate(ErrorModel),
}

impl View for BoundaryVerdict {
    type V = BoundaryVerdictModel;

    open spec fn view(&self) -> BoundaryVerdictModel {
        match self {
            BoundaryVerdict::Deliver(resp) => BoundaryVerdictModel::Deliver(resp@),
            BoundaryVerdict::ErrorResponse(resp) => BoundaryVerdictModel::ErrorResponse(resp@),
            BoundaryVerdict::Terminate(e) => BoundaryVerdictModel::Terminate(e@),
        }
    }
}

/// The synthesized error response: status 500 and a minimal diagnostic body
/// naming the failure, nothing else.
pub open spec fn spec_error_response(e: ErrorModel) -> ResponseModel {
    ResponseModel {
        status_code: 500,
        headers: Seq::empty(),
        body: ResponseBodyModel::Bytes(e.spec_describe()),
    }
}

/// Synthesizes the well-formed 500 response for a failure, as
/// [`spec_error_response`] says.
pub fn error_response(e: &Error) -> (r: Response)
    ensures
        r@ == spec_error_response(e@),
        r@.wf(),
{
    let r = Response { status_code: 500, headers: Vec::new(), body: ResponseBody::Bytes(e.describe()) };
    proof {
        assert(r@.headers =~= Seq::<(Seq<u8>, Seq<u8>)>::empty());
    }
    r
}

/// The verdict for one dispatch outcome.
///
/// A normal return is delivered whatever the progress. An abnormal
/// termination before any output becomes the synthesized 500 response for
/// `UpstreamHandlerFailure`; after headers went out it terminates, carrying
/// that failure.
pub fn resolve_dispatch(outcome: DispatchOutcome, progress: OutputProgress) -> (v: BoundaryVerdict)
    ensures
        match outcome@ {
            DispatchOutcomeModel::Completed(resp) => v@ == BoundaryVerdictModel::Deliver(resp),
            DispatchOutcomeModel::Aborted => match progress {
                OutputProgress::NotStarted => v@ == BoundaryVerdictModel::ErrorResponse(
                    spec_error_response(ErrorModel::UpstreamHandlerFailure),
                ),
                OutputProgress::HeadersSent => v@ == BoundaryVerdictModel::Terminate(
                    ErrorModel::UpstreamHandlerFailure,
                ),
            },
        },
{
    match outcome {
        DispatchOutcome::Completed(resp) => BoundaryVerdict::Deliver(resp),
        DispatchOutcome::Aborted => match progress {
            OutputProgress::NotStarted => BoundaryVerdict::ErrorResponse(
                error_response(&Error::UpstreamHandlerFailure),
            ),
            OutputProgress::HeadersSent => BoundaryVerdict::Terminate(
                Error::UpstreamHandlerFailure,
            ),
        },
    }
}

/// The verdict for a decode or encode failure surfaced outside dispatch:
/// before any output it becomes the synthesized 500 response; after headers
/// went out it terminates, carrying the failure.
pub fn resolve_failure(e: Error, progress: OutputProgress) -> (v: BoundaryVerdict)
    ensures
        match progress {
            OutputProgress::NotStarted => v@ == BoundaryVerdictModel::ErrorResponse(
                spec_error_response(e@),
            ),
            OutputProgress::HeadersSent => v@ == BoundaryVerdictModel::Terminate(e@),
        },
{
    match progress {
        OutputProgress::NotStarted => BoundaryVerdict::ErrorResponse(error_response(&e)),
        OutputProgress::HeadersSent => BoundaryVerdict::Terminate(e),
    }
}

/// The process exit code a verdict calls for, assuming the verdict's
/// response (if any) is then written successfully: zero for a fully
/// delivered response, a delivered error response included, one for a
/// failure that prevented any response. A write failure after this mapping
/// is the embedding's to report.
pub fn exit_code(v: &BoundaryVerdict) -> (code: i32)
    ensures
        code == 0 <==> !(v@ is Terminate),
        code == 0 || code == 1,
{
    match v {
        BoundaryVerdict::Deliver(_) => 0,
        BoundaryVerdict::ErrorResponse(_) => 0,
        BoundaryVerdict::Terminate(_) => 1,
    }
}

} // verus!
