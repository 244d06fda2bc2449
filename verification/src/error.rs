//! The two kinds of failure that run through the whole system.

use vstd::prelude::*;

verus! {

/// A final failure: the remote side understood the request and refused it, or
/// a local decoding rule was broken. Never retried.
#[derive(Debug, PartialEq, Eq)]
pub struct BusinessError {
    pub reason: String,
}

pub type BusinessResult<T> = Result<T, BusinessError>;

/// A connectivity or protocol-level failure of one attempt. Expected to be
/// transient; the fetch engine answers it with a retry or a fallback.
#[derive(Debug, PartialEq, Eq)]
pub struct TransportError {
    pub message: String,
}

/// What one attempt on one source came to: the outer layer carries transport
/// failures, the inner one business failures.
pub type DownloadResult<T> = Result<BusinessResult<T>, TransportError>;

impl BusinessError {
    pub fn new(reason: String) -> (e: BusinessError)
        ensures
            e.reason == reason,
    {
        BusinessError { reason }
    }

    /// The human-readable message.
    pub fn reason(&self) -> (r: &String)
        ensures
            r == &self.reason,
    {
        &self.reason
    }
}

impl TransportError {
    pub fn new(message: String) -> (e: TransportError)
        ensures
            e.message == message,
    {
        TransportError { message }
    }
}

} // verus!
