//! Failures outside range handling, and the status each one maps to. No
//! error here is fatal to the process: every failure becomes a well-defined
//! response (or, mid-stream, aborts that one response).

use vstd::prelude::*;

verus! {

/// What can go wrong looking up or streaming a resource.
#[derive(Clone, Copy, Debug, PartialEq, Eq)]
pub enum ServeError {
    /// The path does not resolve to an existing, readable, regular file.
    NotFound,
    /// The path exists but is not a directory (directory listing only).
    NotADirectory,
    /// The path exists but cannot be read.
    Unreadable,
    /// A read failed mid-stream; the response is cut off, never retried,
    /// since partial bytes may already be on the wire.
    SourceReadError,
}

/// The status a failed request is answered with; `None` for a failure that
/// strikes after the status line has been sent, which aborts the response
/// instead of re-framing it.
pub open spec fn spec_error_status(e: ServeError) -> Option<u16> {
    match e {
        ServeError::NotFound => Some(404),
        ServeError::NotADirectory => Some(400),
        ServeError::Unreadable => Some(404),
        ServeError::SourceReadError => None,
    }
}

/// Maps a failure to its response status.
pub fn error_status(e: ServeError) -> (r: Option<u16>)
    ensures
        r == spec_error_status(e),
{
    match e {
        ServeError::NotFound => Some(404),
        ServeError::NotADirectory => Some(400),
        ServeError::Unreadable => Some(404),
        ServeError::SourceReadError => None,
    }
}

} // verus!
