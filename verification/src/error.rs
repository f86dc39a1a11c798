use vstd::prelude::*;

verus! {

/// Why a single upstream call failed. The whole batch shares one such value:
/// a batch is an atomic upstream operation, so one failure is every member's
/// failure.
#[derive(Clone, Copy, Debug, PartialEq, Eq, Structural)]
pub enum UpstreamError {
    /// The POST to the inference service failed: connection, TLS, timeout.
    Transport,
    /// The response body is not a valid embedding array, or its total length
    /// disagrees with the sum of the batch's input counts.
    Decode,
}

/// Which configuration value a startup error is about.
#[derive(Clone, Copy, Debug, PartialEq, Eq, Structural)]
pub enum ConfigVar {
    MaxWaitTime,
    MaxBatchSize,
    InferenceServiceUrl,
    Ip,
    Port,
}

/// A startup misconfiguration; fatal to the process.
#[derive(Clone, Copy, Debug, PartialEq, Eq, Structural)]
pub enum ConfigError {
    /// A required configuration value was not supplied.
    Missing(ConfigVar),
    /// A configuration value was supplied but could not be accepted.
    Invalid(ConfigVar),
}

/// A request-level failure, as the ingress side reports it to a caller.
#[derive(Debug)]
pub enum Error {
    /// The request body could not be understood; the message describes why.
    Unprocessable(String),
    /// The batch this caller was in failed upstream.
    Upstream(UpstreamError),
    /// The intake queue closed while the caller was waiting, or the reply
    /// handle closed without a value.
    Dispatch,
}

impl Error {
    /// The HTTP status this failure surfaces as: an unprocessable request
    /// body is the caller's fault, everything else is an internal error
    /// with no structured body.
    pub open spec fn spec_status_code(self) -> u16 {
        match self {
            Error::Unprocessable(_) => 422,
            Error::Upstream(_) => 500,
            Error::Dispatch => 500,
        }
    }

    /// The HTTP status code this failure maps to.
    pub fn status_code(&self) -> (code: u16)
        ensures
            code == self.spec_status_code(),
    {
        match self {
            Error::Unprocessable(_) => 422,
            Error::Upstream(_) => 500,
            Error::Dispatch => 500,
        }
    }
}

} // verus!
