//! The failures a decryption session can end in.

use vstd::prelude::*;

verus! {

/// Why a session was abandoned. Every variant is terminal: the caller gets
/// either the complete plaintext or one of these, never partial output.
#[derive(Clone, Copy, Debug, PartialEq, Eq, Structural)]
pub enum CryptoError {
    /// The modulus, generator or private exponent was not usable.
    InvalidParameter,
    /// The peer's public value was out of range, or the exponentiation failed.
    KeyAgreement,
    /// The envelope was truncated or its key size field overran the buffer.
    EnvelopeFormat,
    /// The first layer decrypted to a length other than the announced one.
    Integrity,
    /// The second-layer key was not thirty-two hexadecimal digits.
    KeyFormat,
    /// The cipher rejected its input.
    Decryption,
}

/// An outcome that carries bytes, with the bytes taken by their view.
pub open spec fn bytes_of_outcome(r: Result<Vec<u8>, CryptoError>) -> Result<Seq<u8>, CryptoError> {
    match r {
        Ok(bytes) => Ok(bytes@),
        Err(e) => Err(e),
    }
}

/// OpenSSL's error report. Nothing is read from it: a call that hands one
/// back has failed, and the failure is reported as a [`CryptoError`].
#[verifier::external_type_specification]
#[verifier::external_body]
pub struct ExErrorStack(openssl::error::ErrorStack);

/// The `hex` crate's account of why a text is no hexadecimal string. Nothing
/// is read from it either.
#[verifier::external_type_specification]
#[verifier::external_body]
pub struct ExFromHexError(hex::FromHexError);

} // verus!
