//! The failure categories that the engines report.
use vstd::prelude::*;

verus! {

/// Why an operation was refused.
///
/// The categories are deliberately coarse. In particular every way in which
/// decryption can go wrong is reported as [`CryptoError::DecryptionFailure`],
/// so that an error carries no hint about which check rejected the input.
#[derive(Clone, Copy, Debug, PartialEq, Eq, Structural)]
pub enum CryptoError {
    /// The entropy handed in, or offered by the operating system, was absent
    /// or of the wrong size.
    GenerationFailure,
    /// The public key has the wrong length, the wrong role, or a group
    /// element that is degenerate or not reduced.
    InvalidPublicKey,
    /// The secret key has the wrong length, the wrong role, or a scalar out
    /// of range.
    InvalidSecretKey,
    /// The plaintext is longer than one nonce may cover.
    PlaintextTooLarge,
    /// The message could not be opened under the given secret key.
    DecryptionFailure,
    /// The signature blob does not have the length of a signature.
    MalformedSignature,
}

} // verus!
