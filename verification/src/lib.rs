//! A bridge between a process-invocation request convention (environment
//! variables plus a length-prefixed body on a standard input stream) and a
//! structured request/response model.
//!
//! The core is a byte-level request/response codec: decoding an incoming
//! request that is split across an environment-variable map and a
//! fixed-length input body into a structured [`request::Request`], encoding a
//! [`response::Response`] back into either a minimal CGI-style header block
//! or a full status-line frame, and a buffering state machine
//! ([`frame::FrameCodec`]) that accumulates partial input until a complete
//! request frame is available.

pub mod body;
pub mod boundary;
pub mod bytes;
pub mod decoder;
pub mod encoder;
pub mod environment;
pub mod error;
pub mod frame;
pub mod numbers;
pub mod request;
pub mod response;
