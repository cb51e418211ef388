//! Errors of a transfer run.
use vstd::prelude::*;

verus! {

/// What can go wrong at the end of a run.
#[derive(Debug, Clone, Copy, PartialEq, Eq, Structural)]
pub enum NetError {
    /// The receiver's hash of the payload differs from the sender's.
    HashVerificationFailed,
    /// Writing to a QUIC stream failed.
    QuicWriteError,
}

} // verus!
