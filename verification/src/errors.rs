use vstd::prelude::*;

verus! {

/// The error taxonomy of the whole service.
///
/// `Malformed`, `InvalidSignature` and `Expired` come out of token
/// verification; `PreconditionFailed` out of the issuance phase;
/// `AlreadyApplied` and `TransactionConflict` out of the redemption phase;
/// `QueueUnavailable` and `EncodingError` out of the boundary that persists
/// jobs and encodes payloads.
#[derive(Clone, Copy, Debug, PartialEq, Eq, Structural)]
pub enum Error {
    Malformed,
    InvalidSignature,
    Expired,
    PreconditionFailed,
    AlreadyApplied,
    QueueUnavailable,
    TransactionConflict,
    EncodingError,
}

impl Error {
    /// The client-facing text of an error.
    ///
    /// Every redemption-phase failure collapses into one generic answer, so
    /// that a caller cannot tell an expired token from a tampered or an
    /// already-used one.  Issuance-phase failures stay specific: they are
    /// reported to the requester, not hidden.
    pub fn client_text(&self) -> (r: &'static str)
        ensures
            (self is PreconditionFailed) ==> r@ == "precondition-failed"@,
            (self is QueueUnavailable) ==> r@ == "queue-unavailable"@,
            (self is EncodingError) ==> r@ == "encoding-error"@,
            !(self is PreconditionFailed) && !(self is QueueUnavailable) && !(self
                is EncodingError) ==> r@ == "bad-request"@,
    {
        match self {
            Error::PreconditionFailed => "precondition-failed",
            Error::QueueUnavailable => "queue-unavailable",
            Error::EncodingError => "encoding-error",
            _ => "bad-request",
        }
    }
}

} // verus!
