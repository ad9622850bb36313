//! Error kinds returned by the codec, the slot deriver and the callers
//! around them.

use vstd::prelude::*;

verus! {

/// Everything that can go wrong while encoding or decoding calldata, or
/// while talking to the chain from the surrounding tooling.
#[derive(Debug, Clone, PartialEq, Eq)]
pub enum Error {
    /// The call value is greater than `2^88 - 1`.
    CallValueOverflow,
    /// The payload length is greater than `2^32 - 1`.
    PayloadLengthOverfow,
    /// Calldata is shorter or longer than the operation requires.
    CalldataLength,
    /// The leading 4-byte tag is not one of the known selectors.
    SelectorMismatch,
    /// The trailing signature region is not a whole number of records.
    MalformedCalldata,
    /// Middleware error.
    Middleware(String),
    /// Deployment error.
    Deployment(String),
}

} // verus!
