//! Typed errors surfaced at the command boundary.

use vstd::prelude::*;

verus! {

/// Every failure a command can report.  All of these are recovered at the
/// command boundary and returned to the caller; none is fatal.
#[derive(Clone, Copy, Debug, PartialEq, Eq, Structural)]
pub enum HubError {
    /// The caller is not the trusted host-origin invoker.
    NotAllowed,
    /// Unknown tab, site or project.
    NotFound,
    /// Equal split tabs, an unknown mode word, or a missing required field.
    InvalidArgument,
    /// A single-flight operation is already in progress.
    Busy,
    /// An extraction or summarize deadline was exceeded.
    Timeout,
    /// The host failed to create an embedded instance.
    CreationFailed,
    /// A persistence collaborator failed.
    IOError,
    /// The summarization collaborator failed or returned empty content.
    UpstreamError,
    /// No page text could be extracted from the target instance.
    ExtractionEmpty,
}

impl HubError {
    /// Short, stable message for the host UI.
    pub fn message(&self) -> (r: &'static str)
        ensures
            *self is NotAllowed ==> r@ == "not allowed"@,
            *self is NotFound ==> r@ == "not found"@,
            *self is InvalidArgument ==> r@ == "invalid argument"@,
            *self is Busy ==> r@ == "operation already in progress"@,
            *self is Timeout ==> r@ == "timed out"@,
            *self is CreationFailed ==> r@ == "webview creation failed"@,
            *self is IOError ==> r@ == "persistence failed"@,
            *self is UpstreamError ==> r@ == "summarization failed"@,
            *self is ExtractionEmpty ==> r@ == "no page text extracted"@,
    {
        match self {
            HubError::NotAllowed => "not allowed",
            HubError::NotFound => "not found",
            HubError::InvalidArgument => "invalid argument",
            HubError::Busy => "operation already in progress",
            HubError::Timeout => "timed out",
            HubError::CreationFailed => "webview creation failed",
            HubError::IOError => "persistence failed",
            HubError::UpstreamError => "summarization failed",
            HubError::ExtractionEmpty => "no page text extracted",
        }
    }
}

} // verus!
