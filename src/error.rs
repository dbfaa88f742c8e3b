//! Why a proof request could not be answered.
use vstd::prelude::*;

verus! {

/// The three ways a proof request fails.
#[derive(Clone, Copy, Debug, PartialEq, Eq, Structural)]
pub enum ProofError {
    /// The address, storage slot or block reference could not be decoded.
    MalformedInput,
    /// The transport to the JSON-RPC node could not connect.
    EndpointUnreachable,
    /// The JSON-RPC node answered with an error object.
    UpstreamError,
}

impl ProofError {
    /// A short machine-readable name of the error.
    pub fn code(&self) -> (r: &'static str)
        ensures
            r@ == error_code(*self)@,
    {
        match self {
            ProofError::MalformedInput => "malformed_input",
            ProofError::EndpointUnreachable => "endpoint_unreachable",
            ProofError::UpstreamError => "upstream_error",
        }
    }
}

/// The name that `code` gives each error.
pub open spec fn error_code(e: ProofError) -> &'static str {
    match e {
        ProofError::MalformedInput => "malformed_input",
        ProofError::EndpointUnreachable => "endpoint_unreachable",
        ProofError::UpstreamError => "upstream_error",
    }
}

} // verus!
