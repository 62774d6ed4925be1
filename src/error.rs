//! Errors and remote status codes.

use vstd::prelude::*;

verus! {

/// Status codes of a failed remote call.
#[derive(Clone, Copy, Debug, PartialEq, Eq, Structural)]
pub enum Code {
    /// The call succeeded.
    Success,
    Cancelled,
    Unknown,
    InvalidArgument,
    DeadlineExceeded,
    NotFound,
    AlreadyExists,
    PermissionDenied,
    ResourceExhausted,
    FailedPrecondition,
    Aborted,
    OutOfRange,
    Unimplemented,
    Internal,
    Unavailable,
    DataLoss,
    Unauthenticated,
}

/// A failure of the transport may stem from a stale or broken connection.
pub open spec fn is_transient(code: Code) -> bool {
    match code {
        Code::Internal | Code::Unavailable | Code::Cancelled | Code::Unknown => true,
        _ => false,
    }
}

impl Code {
    /// Whether a failure with this code may be cured by reconnecting.
    pub fn is_transient(&self) -> (r: bool)
        ensures
            r == is_transient(*self),
    {
        match self {
            Code::Internal | Code::Unavailable | Code::Cancelled | Code::Unknown => true,
            _ => false,
        }
    }
}

/// The outcome of a failed remote call: a code and a message.
#[derive(Clone, Debug)]
pub struct Status {
    pub code: Code,
    pub message: String,
}

impl Status {
    pub fn new(code: Code, message: String) -> (r: Status)
        ensures
            r.code == code,
            r.message == message,
    {
        Status { code, message }
    }

    pub fn code(&self) -> (r: Code)
        ensures
            r == self.code,
    {
        self.code
    }
}

/// Errors of the client.
#[derive(Debug)]
pub enum Error {
    /// The remote call or the connection failed.
    ResponseError { status: Status },
    /// The endpoint address could not be parsed.
    InvalidUri(String),
    /// A lock guarding shared state was poisoned.
    ResourcePoisoned(String),
    /// A buffer's length does not agree with the declared shape.
    ShapeMismatch,
    /// A length-prefixed frame runs past the end of its buffer.
    Truncated,
    /// A declared element type is not one of the protocol's tags.
    UnknownType(String),
    /// A declared shape holds a negative dimension.
    NegativeDimension,
    /// A response holds a different number of descriptors and buffers.
    CountMismatch,
}

/// Whether a call that ended in `e` may succeed over a fresh connection.
pub open spec fn is_transient_error(e: Error) -> bool {
    match e {
        Error::ResponseError { status } => is_transient(status.code),
        _ => false,
    }
}

/// Whether `e` reports a request that the server refused as invalid.
pub open spec fn is_invalid_argument(e: Error) -> bool {
    match e {
        Error::ResponseError { status } => status.code == Code::InvalidArgument,
        _ => false,
    }
}

impl Error {
    /// See [`is_transient_error`].
    pub fn is_transient(&self) -> (r: bool)
        ensures
            r == is_transient_error(*self),
    {
        match self {
            Error::ResponseError { status } => status.code.is_transient(),
            _ => false,
        }
    }
}

} // verus!
