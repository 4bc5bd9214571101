//! Call-level failures and transport-error classification.
//!
//! A transport error is modelled as a tagged value carrying an explicit cause
//! chain, so classifying a disconnect is a walk over that chain rather than
//! runtime type inspection.

use vstd::prelude::*;

verus! {

/// The kind of a low-level I/O failure found in an error's cause chain.
#[derive(Clone, Copy, Debug, PartialEq, Eq, Structural)]
pub enum IoErrorKind {
    /// The peer tore the connection down abruptly.
    BrokenPipe,
    /// The connection was reset.
    ConnectionReset,
    /// Any other I/O failure.
    Other,
}

/// The code of a call-level failure surfaced to a caller.
#[derive(Clone, Copy, Debug, PartialEq, Eq, Structural)]
pub enum StatusCode {
    /// An interceptor rejected the call.
    NotFound,
    /// The requested operation is deliberately not offered.
    Unimplemented,
    /// Any other failure, typically one relayed from the transport.
    Unknown,
}

/// One level of a transport error's cause chain, outermost first.
#[derive(Debug)]
pub enum ErrorCause {
    /// A bare I/O failure.
    Io(IoErrorKind),
    /// A framework-level wrapper that may expose an I/O failure directly
    /// instead of reporting it as its source.
    Framework(Option<IoErrorKind>, Option<Box<ErrorCause>>),
    /// Any other error, with its optional source.
    Other(Option<Box<ErrorCause>>),
}

/// A call-level failure: a code, a message, and the transport cause chain
/// (if the failure came from the transport at all).
#[derive(Debug)]
pub struct Status {
    /// What kind of failure this is.
    pub code: StatusCode,
    /// A human-readable description; never read by the pipeline's logic.
    pub message: String,
    /// The underlying transport error, when there is one.
    pub cause: Option<ErrorCause>,
}

/// The first I/O failure reachable from a cause level: the level itself if it
/// is one, the one a framework wrapper exposes, or else whatever its source
/// chain yields.
pub open spec fn first_io(c: ErrorCause) -> Option<IoErrorKind>
    decreases c,
{
    match c {
        ErrorCause::Io(k) => Some(k),
        ErrorCause::Framework(io, source) => match io {
            Some(k) => Some(k),
            None => match source {
                Some(b) => first_io(*b),
                None => None,
            },
        },
        ErrorCause::Other(source) => match source {
            Some(b) => first_io(*b),
            None => None,
        },
    }
}

/// The I/O failure behind a status, if its cause chain holds one.
pub open spec fn status_io(s: Status) -> Option<IoErrorKind> {
    match s.cause {
        Some(c) => first_io(c),
        None => None,
    }
}

/// A status signals an abrupt disconnect exactly when its cause chain
/// bottoms out in a broken pipe.
pub open spec fn is_abrupt_disconnect(s: Status) -> bool {
    status_io(s) == Some(IoErrorKind::BrokenPipe)
}

impl Status {
    /// A rejection, as an interceptor raises it.
    pub fn not_found(message: String) -> (s: Status)
        ensures
            s.code == StatusCode::NotFound,
            s.message == message,
            s.cause is None,
    {
        Status { code: StatusCode::NotFound, message, cause: None }
    }

    /// The failure returned for operations deliberately out of scope.
    pub fn unimplemented(message: String) -> (s: Status)
        ensures
            s.code == StatusCode::Unimplemented,
            s.message == message,
            s.cause is None,
    {
        Status { code: StatusCode::Unimplemented, message, cause: None }
    }

    /// A transport-level failure with its cause chain attached.
    pub fn unknown(message: String, cause: Option<ErrorCause>) -> (s: Status)
        ensures
            s.code == StatusCode::Unknown,
            s.message == message,
            s.cause == cause,
    {
        Status { code: StatusCode::Unknown, message, cause }
    }
}

fn find_io(c: &ErrorCause) -> (r: Option<IoErrorKind>)
    ensures
        r == first_io(*c),
    decreases *c,
{
    match c {
        ErrorCause::Io(k) => Some(*k),
        ErrorCause::Framework(io, source) => match io {
            Some(k) => Some(*k),
            None => match source {
                Some(b) => find_io(&**b),
                None => None,
            },
        },
        ErrorCause::Other(source) => match source {
            Some(b) => find_io(&**b),
            None => None,
        },
    }
}

/// Walks a status's cause chain for the I/O failure behind it, if any:
/// a level that is itself an I/O error ends the walk, a framework wrapper
/// may expose one directly, and any other level defers to its source.
pub fn match_for_io_error(err_status: &Status) -> (r: Option<IoErrorKind>)
    ensures
        r == status_io(*err_status),
{
    match &err_status.cause {
        Some(c) => find_io(c),
        None => None,
    }
}

} // verus!
