//! The error taxonomy of the pipeline.  Per-module failures are carried as
//! values of this enum and logged by the caller; they never abort a stage.

use vstd::prelude::*;

verus! {

/// An error raised by one module or one stage of the pipeline.
#[derive(Debug, Clone, PartialEq, Eq)]
pub enum Error {
    /// The command line did not name a target domain.
    CgiUsage,
    /// An HTTP request failed; the payload is the transport error message.
    Reqwest(String),
    /// A response was malformed or non-successful; the payload names the
    /// module that received it.
    InvalidHttpResponse(String),
    /// A background task failed to join; the payload is its error message.
    TokioJoinError(String),
}

impl Error {
    /// A short, human-readable rendering of the error.
    pub fn message(&self) -> (r: String)
        ensures
            match self {
                Error::CgiUsage => r@ == "usage: scan --domain <domain.com>"@,
                Error::Reqwest(m) => r@ == "Reqwest: "@ + m@,
                Error::InvalidHttpResponse(m) => r@ == "Invalid Http Response: "@ + m@,
                Error::TokioJoinError(m) => r@ == "Tokio join error: "@ + m@,
            },
    {
        match self {
            Error::CgiUsage => String::from_str("usage: scan --domain <domain.com>"),
            Error::Reqwest(m) => String::from_str("Reqwest: ").concat(m.as_str()),
            Error::InvalidHttpResponse(m) => String::from_str("Invalid Http Response: ").concat(
                m.as_str(),
            ),
            Error::TokioJoinError(m) => String::from_str("Tokio join error: ").concat(m.as_str()),
        }
    }
}

} // verus!
