//! Errors surfaced to the controlling client.
use vstd::prelude::*;

verus! {

/// Why an operation failed.
#[derive(PartialEq, Eq, Structural, Clone, Copy, Debug)]
pub enum HalError {
    /// The operation is not allowed in the session's current state.
    IllegalState,
    /// The transport failed to open, read or write.
    Transport,
    /// The device's reset confirmation differs from the fixed patterns.
    ProtocolViolation,
    /// The client's callback reported a failure.
    Callback,
}

} // verus!
