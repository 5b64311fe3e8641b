//! The error taxonomy shared by every protocol.

use vstd::prelude::*;

verus! {

/// Error of an operation, tagged by category.
#[derive(Debug, Clone, PartialEq, Eq)]
pub enum Error {
    Network(String),
    Connection(String),
    Timeout,
    DeviceNotFound(String),
    Discovery(String),
    Rejected,
    Cancelled,
    TransferFailed(String),
    InvalidSession(String),
    Protocol(String),
    ProtocolNotFound(String),
    ProtocolNotSupported(String),
    FileNotFound(String),
    Io(String),
    Config(String),
    Internal(String),
}

pub type Result<T> = core::result::Result<T, Error>;

impl Error {
    /// Network failures and timeouts may succeed when tried again.
    pub open spec fn spec_is_retryable(&self) -> bool {
        self is Timeout || self is Network
    }

    /// Rejections and cancellations come from a user's decision.
    pub open spec fn spec_is_cancelled(&self) -> bool {
        self is Cancelled || self is Rejected
    }

    pub fn is_retryable(&self) -> (r: bool)
        ensures
            r == self.spec_is_retryable(),
    {
        match self {
            Error::Timeout | Error::Network(_) => true,
            _ => false,
        }
    }

    pub fn is_cancelled(&self) -> (r: bool)
        ensures
            r == self.spec_is_cancelled(),
    {
        match self {
            Error::Cancelled | Error::Rejected => true,
            _ => false,
        }
    }
}

} // verus!
