//! The error taxonomy of the protocol core.
//!
//! Connection errors end the session; protocol errors fail one exchange;
//! application errors carry the engine's own message; a timeout fails only
//! the waiting caller.
use vstd::prelude::*;

verus! {

#[derive(Debug, Clone, PartialEq, Eq)]
pub enum PklError {
    /// The stream to the engine is gone or was never established.
    ConnectionClosed,
    /// Bytes on the stream do not decode as a frame.
    MalformedFrame,
    /// A frame carried a message code outside the catalogue.
    UnknownMessageCode(u8),
    /// A request id was registered twice.
    DuplicateRequestId,
    /// A message arrived that the protocol does not allow at this point.
    ProtocolViolation,
    /// A callback named an evaluator this session does not hold.
    UnknownEvaluator,
    /// The engine refused to create an evaluator; carries its message.
    EvaluatorCreationFailed(String),
    /// The engine reported an evaluation error; carries its message.
    EvaluationFailed(String),
    /// The evaluator addressed is already closed.
    EvaluatorClosed,
    /// No response arrived within the configured bound.
    RequestTimedOut,
}

impl PklError {
    /// A short fixed name for the error's kind.
    pub fn kind_name(&self) -> (r: &'static str)
        ensures
            r@ == match self {
                PklError::ConnectionClosed => "connection closed"@,
                PklError::MalformedFrame => "malformed frame"@,
                PklError::UnknownMessageCode(_) => "unknown message code"@,
                PklError::DuplicateRequestId => "duplicate request id"@,
                PklError::ProtocolViolation => "protocol violation"@,
                PklError::UnknownEvaluator => "unknown evaluator"@,
                PklError::EvaluatorCreationFailed(_) => "evaluator creation failed"@,
                PklError::EvaluationFailed(_) => "evaluation failed"@,
                PklError::EvaluatorClosed => "evaluator closed"@,
                PklError::RequestTimedOut => "request timed out"@,
            },
    {
        match self {
            PklError::ConnectionClosed => "connection closed",
            PklError::MalformedFrame => "malformed frame",
            PklError::UnknownMessageCode(_) => "unknown message code",
            PklError::DuplicateRequestId => "duplicate request id",
            PklError::ProtocolViolation => "protocol violation",
            PklError::UnknownEvaluator => "unknown evaluator",
            PklError::EvaluatorCreationFailed(_) => "evaluator creation failed",
            PklError::EvaluationFailed(_) => "evaluation failed",
            PklError::EvaluatorClosed => "evaluator closed",
            PklError::RequestTimedOut => "request timed out",
        }
    }

    /// The engine-supplied detail, where the variant carries one.
    pub fn detail(&self) -> (r: Option<&String>)
        ensures
            match self {
                PklError::EvaluatorCreationFailed(m) => r matches Some(s) && s@ == m@,
                PklError::EvaluationFailed(m) => r matches Some(s) && s@ == m@,
                _ => r is None,
            },
    {
        match self {
            PklError::EvaluatorCreationFailed(m) => Some(m),
            PklError::EvaluationFailed(m) => Some(m),
            _ => None,
        }
    }
}

} // verus!
