//! What can go wrong in a transaction with the rotator.
use vstd::prelude::*;

verus! {

/// Why the rotator's reply to a request was not accepted.
#[derive(Debug, PartialEq, Eq)]
pub enum Error {
    /// The rotator answered `ERR` with this message.
    ResponseError(String),
    /// The reply was malformed: too few lines, a wrong echo, an unknown
    /// status, bytes that are not text, or an `ERR` without a message.
    InvalidResponse,
    /// The rotator answered `OK` without a value that was required.
    ExpectedValue,
    /// A returned value could not be read as the type asked for.
    ParseError(String),
}

} // verus!
