//! The one place where the library asks the operating system for randomness.
use vstd::prelude::*;

verus! {

/// The error type with which the random source reports a failure.
#[verifier::external_type_specification]
#[verifier::external_body]
pub struct ExEntropyError(rand::Error);

/// Asks the operating system for `len` random bytes, through
/// `rand::rngs::OsRng` and `rand::RngCore::try_fill_bytes`.
///
/// Trusted, not proved: when the source succeeds the buffer handed back has
/// exactly `len` bytes. Nothing is claimed about their values, and a failure
/// of the source is handed on as it is.
#[verifier::external_body]
pub(crate) fn os_entropy(len: usize) -> (r: Result<Vec<u8>, rand::Error>)
    ensures
        r matches Ok(bytes) ==> bytes@.len() == len,
{
    let mut buffer = vec![0u8; len];
    match rand::RngCore::try_fill_bytes(&mut rand::rngs::OsRng, &mut buffer) {
        Ok(()) => Ok(buffer),
        Err(e) => Err(e),
    }
}

} // verus!
