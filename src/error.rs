//! The library's error kinds.

use vstd::prelude::*;

verus! {

/// Why the state store could not do what was asked.
#[derive(Debug, Clone, Copy, PartialEq, Eq, Structural)]
pub enum SignalStateError {
    /// Compressing or decompressing bytes failed.
    IOError,
    /// Encryption failed, or a blob did not authenticate under the key.
    CryptoError,
    /// No snapshot is loaded, and the object store holds none.
    NoStateAvailable,
    /// A blob is too short to hold a nonce and any ciphertext.
    CiphertextTooShort,
    /// Key material of the wrong length.
    InvalidKeyLength,
}

/// Why running the messaging client did not succeed.
#[derive(Debug, Clone, Copy, PartialEq, Eq, Structural)]
pub enum SignalRunnerError {
    /// No working copy is loaded, so the client has nowhere to run.
    NoStateAvailable,
    /// The client exited with a non-zero code, or was killed by a signal (no code).
    SignalFailed(Option<i32>),
}

} // verus!
