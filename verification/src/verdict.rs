//! The outcome of evaluating one request.

use vstd::prelude::*;

verus! {

/// The HTTP status that answers an admitted request.
pub const STATUS_OK: u16 = 200;

/// The HTTP status that answers a request from a banned client.
pub const STATUS_TOO_MANY_REQUESTS: u16 = 429;

/// Whether a request is forwarded or rejected.
#[derive(Clone, Copy, Debug, PartialEq, Eq, Hash, Structural)]
pub enum Verdict {
    /// The request is forwarded to the pipeline.
    Allowed,
    /// The request is rejected: its client is over the threshold.
    Denied,
}

impl Verdict {
    /// The status code of the response that carries this verdict.
    pub open spec fn spec_status_code(self) -> u16 {
        match self {
            Verdict::Allowed => STATUS_OK,
            Verdict::Denied => STATUS_TOO_MANY_REQUESTS,
        }
    }

    /// Returns the status code with which the transport answers the request:
    /// success for an admitted request, "too many requests" for a rejected one.
    #[verifier::when_used_as_spec(spec_status_code)]
    pub fn status_code(self) -> (code: u16)
        ensures
            code == self.spec_status_code(),
    {
        match self {
            Verdict::Allowed => STATUS_OK,
            Verdict::Denied => STATUS_TOO_MANY_REQUESTS,
        }
    }
}

/// What the caller has to do with a request once it has been evaluated.
#[derive(Clone, Copy, Debug, PartialEq, Eq)]
pub struct Decision {
    /// Forward the request, or reject it.
    pub verdict: Verdict,
    /// Present exactly when the request was denied: the delay, in
    /// milliseconds, after which the caller has to expire the client's record.
    pub expire_after: Option<u64>,
}

} // verus!
