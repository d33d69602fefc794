//! The ways an operation on a container can fail.
use vstd::prelude::*;

verus! {

/// Why an encryption or decryption did not complete.
#[derive(Clone, Copy, Debug, PartialEq, Eq, Structural)]
pub enum CryptileError {
    /// The path does not name a container: it lacks the container suffix.
    UnsupportedFormat,
    /// The key's fingerprint differs from the one stored in the header.
    InvalidKey,
    /// The last deciphered block states more than 16 padding bytes.
    InvalidPadding,
    /// The container is truncated: a short header, no block, or a partial block.
    UnexpectedEndOfStream,
    /// A worker of the parallel block transform did not finish its blocks.
    AggregatedWorkerFailure,
}

} // verus!
