use vstd::prelude::*;

verus! {

/// Every way an operation of the registry can fail.
#[derive(Debug, Clone, Copy, PartialEq, Eq, Structural)]
pub enum E8004 {
    /// A caller or a value is not allowed: wrong signer, oversized string,
    /// hash mismatch, unknown record.
    Unauthorized,
    /// No agent has the given id.
    AgentNotFound,
    /// A feedback score above 100.
    InvalidScore,
    /// A validation response above 100.
    InvalidResponse,
    /// The authorization is past its expiry.
    ExpiredAuth,
    /// The feedback index is out of sequence or above the authorized ceiling.
    IndexLimit,
    /// The owner of an agent tried to give feedback on it.
    SelfFeedback,
    /// A validation request with the same hash already exists for the agent.
    RequestExists,
    /// No validation request has the given hash for the agent.
    RequestNotFound,
    /// A malformed authorization, a signature of the wrong length, or no
    /// companion operation that checks the signature.
    BadSignature,
}

impl E8004 {
    /// The human-readable message of the error.
    pub fn message(&self) -> (r: &'static str) {
        match self {
            E8004::Unauthorized => "Unauthorized",
            E8004::AgentNotFound => "Agent not found",
            E8004::InvalidScore => "Invalid score",
            E8004::InvalidResponse => "Invalid response",
            E8004::ExpiredAuth => "Expired authorization",
            E8004::IndexLimit => "Index limit exceeded",
            E8004::SelfFeedback => "Self feedback not allowed",
            E8004::RequestExists => "Request already exists",
            E8004::RequestNotFound => "Request not found",
            E8004::BadSignature => "Signature invalid",
        }
    }
}

} // verus!
