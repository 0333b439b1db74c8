//! Result codes: the error taxonomy shared by every component.

use vstd::prelude::*;

verus! {

/// An error reported by the runtime. Success is the `Ok` side of a `Result`.
#[derive(Clone, Copy, PartialEq, Eq, Structural, Debug)]
pub enum ResultCode {
    // Transport
    InvalidProtocol,
    InvalidCommandType,
    InvalidDomainCommandType,
    InvalidCommandRequestId,
    UnsupportedOperation,
    NotImplemented,
    /// The raw data of a command is shorter, or longer, than its parameters ask.
    InvalidHeaderSize,
    // Object lifecycle
    SignaledServerNotFound,
    SessionClosed,
    DomainNotFound,
    ObjectIdAlreadyAllocated,
    AlreadyDomain,
    TooManyObjects,
    // Kernel pass-through
    KernelTimedOut,
    KernelCancelled,
    KernelSessionClosed,
    // MITM routing
    ShouldForwardToSession,
    // Graphics status
    ErrorCodeInvalid,
    ErrorCodePermissionDenied,
    ErrorCodeNameNotFound,
    ErrorCodeWouldBlock,
    ErrorCodeNoMemory,
    ErrorCodeAlreadyExists,
    ErrorCodeNoInit,
    ErrorCodeBadValue,
    ErrorCodeDeadObject,
    ErrorCodeInvalidOperation,
    ErrorCodeNotEnoughData,
    ErrorCodeUnknownTransaction,
    ErrorCodeBadIndex,
    ErrorCodeTimeOut,
    ErrorCodeFdsNotAllowed,
    ErrorCodeFailedTransaction,
    ErrorCodeBadType,
    /// Any other module-qualified code, carried as its raw 32-bit value.
    Other(u32),
}

impl ResultCode {
    /// Whether a handler's failure asks the dispatcher to replay the request upstream.
    pub fn is_forward_request(&self) -> (b: bool)
        ensures
            b == (*self == ResultCode::ShouldForwardToSession),
    {
        match self {
            ResultCode::ShouldForwardToSession => true,
            _ => false,
        }
    }
}

} // verus!
