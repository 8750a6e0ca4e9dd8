//! One decryption session, from the fetched bytes to the recovered content.

use crate::error::{bytes_of_outcome, CryptoError};
use crate::key_agreement::DhKeyPair;
use crate::phase1::{first_phase_outcome, phase_1_decrypt};
use crate::phase2::{phase_2_decrypt, second_phase_outcome};
use vstd::prelude::*;
use vstd::string::StringSliceAdditionalSpecFns;

verus! {

/// What a session gives for a key pair with the given modulus and private
/// exponent, the raw envelope and the text of the second key: the output of
/// the first phase is the input of the second, and the first failure ends
/// the session.
pub open spec fn recovery_outcome(
    modulus: Seq<u8>,
    private: Seq<u8>,
    envelope: Seq<u8>,
    key_text: Seq<u8>,
) -> Result<Seq<u8>, CryptoError> {
    match first_phase_outcome(modulus, private, envelope) {
        Err(e) => Err(e),
        Ok(inner) => second_phase_outcome(inner, key_text),
    }
}

/// Recovers the content of `envelope`: peels off the first layer with the
/// secret agreed between `pair` and the server, then the second layer with
/// the key spelled by `phase2_key`. Either the whole content is returned or
/// an error; never a part of it.
pub fn recover(pair: &DhKeyPair, envelope: &[u8], phase2_key: &str) -> (r: Result<
    Vec<u8>,
    CryptoError,
>)
    ensures
        bytes_of_outcome(r) == recovery_outcome(
            pair@.modulus,
            pair@.private,
            envelope@,
            phase2_key.spec_bytes(),
        ),
{
    let inner = match phase_1_decrypt(envelope, pair) {
        Ok(inner) => inner,
        Err(e) => { return Err(e); },
    };
    phase_2_decrypt(inner.as_slice(), phase2_key)
}

} // verus!
