//! The error kinds of the channel logic.
use vstd::prelude::*;

verus! {

/// The ways in which a request to the channel logic can be rejected.
#[derive(Debug, Clone, Copy, PartialEq, Eq, Structural)]
pub enum Error {
    /// A structural mismatch: wrong channel id or mismatched lengths.
    InvalidInput,
    /// A signature did not verify against the claimed signer and message.
    Authentication,
    /// A finalization-only operation was invoked on a non-finalized state.
    NotFinalized,
    /// Decoded bytes do not have the expected length.
    InvalidLength,
    /// Decoded bytes do not form a valid public key.
    InvalidKey,
    /// Decoded bytes do not form a well-formed signature.
    InvalidSignature,
}

} // verus!
