//! The error type shared across the framework.

use vstd::prelude::*;
use vstd::string::*;

verus! {

/// One unified error enum used across the framework.
#[derive(Debug, Clone)]
pub enum Error {
    /// The input is malformed or inconsistent.
    InvalidData(String),
    /// The operation is not supported by this implementation.
    Unsupported(String),
    /// No container format is registered under the requested name, or
    /// none recognises the input.
    FormatNotFound(String),
    /// No codec is registered under the requested id.
    CodecNotFound(String),
    /// A resource cap (pool slots, arena bytes, allocation count) was
    /// reached.
    ResourceExhausted(String),
    /// End of stream.
    Eof,
    /// More input is needed before output can be produced.
    NeedMore,
}

impl Error {
    /// An [`Error::InvalidData`] carrying `msg`.
    pub fn invalid(msg: &str) -> (e: Error)
        ensures
            e matches Error::InvalidData(m) && m@ == msg@,
    {
        Error::InvalidData(msg.to_owned())
    }

    /// An [`Error::Unsupported`] carrying `msg`.
    pub fn unsupported(msg: &str) -> (e: Error)
        ensures
            e matches Error::Unsupported(m) && m@ == msg@,
    {
        Error::Unsupported(msg.to_owned())
    }

    /// An [`Error::ResourceExhausted`] carrying `msg`.
    pub fn resource_exhausted(msg: &str) -> (e: Error)
        ensures
            e matches Error::ResourceExhausted(m) && m@ == msg@,
    {
        Error::ResourceExhausted(msg.to_owned())
    }
}

} // verus!
