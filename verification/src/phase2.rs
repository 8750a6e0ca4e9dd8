//! The second layer: AES-256-CBC under a key given as hexadecimal text.
//!
//! Only half of the key is real: thirty-two hexadecimal digits give sixteen
//! bytes, and sixteen zero bytes follow them. The initialisation vector is
//! all zero. Here the cipher's own padding is removed, and nothing else is
//! cut.

use crate::bigend::{push_zeros, zeros};
use crate::cipher::{cbc_unpadded, decrypt_unpadded, BLOCK_LEN, KEY_LEN, MAX_CIPHER_INPUT};
use crate::error::{bytes_of_outcome, CryptoError};
use crate::hexcode::{decode_hex, hex_decoded, is_hex_of_len};
use openssl::error::ErrorStack;
use vstd::prelude::*;
use vstd::string::StringSliceAdditionalSpecFns;

verus! {

/// Bytes of the key that the hexadecimal text gives.
pub const KEY_TEXT_BYTES: usize = 16;

/// The key of the second layer.
pub struct Phase2Key {
    bytes: Vec<u8>,
}

impl View for Phase2Key {
    type V = Seq<u8>;

    closed spec fn view(&self) -> Seq<u8> {
        self.bytes@
    }
}

/// The key that `text` gives: the sixteen bytes it spells, then sixteen zero
/// bytes. A text that is not thirty-two hexadecimal digits gives the format
/// error.
pub open spec fn phase_2_key_of(text: Seq<u8>) -> Result<Seq<u8>, CryptoError> {
    if is_hex_of_len(text, KEY_TEXT_BYTES as nat) {
        Ok(hex_decoded(text) + zeros(KEY_TEXT_BYTES as nat))
    } else {
        Err(CryptoError::KeyFormat)
    }
}

/// What the cipher's answer comes to: a refusal is the decryption error.
pub open spec fn settled_plaintext(plaintext: Option<Seq<u8>>) -> Result<Seq<u8>, CryptoError> {
    match plaintext {
        None => Err(CryptoError::Decryption),
        Some(plaintext) => Ok(plaintext),
    }
}

/// What decrypting the second layer of `data` under `key` gives.
pub open spec fn phase_2_outcome(key: Seq<u8>, data: Seq<u8>) -> Result<Seq<u8>, CryptoError> {
    if data.len() > MAX_CIPHER_INPUT {
        Err(CryptoError::Decryption)
    } else {
        settled_plaintext(cbc_unpadded(key, zeros(BLOCK_LEN as nat), data))
    }
}

/// What the whole second phase gives for the output `data` of the first
/// phase and the key text: the key is derived, then the data decrypted.
pub open spec fn second_phase_outcome(data: Seq<u8>, text: Seq<u8>) -> Result<
    Seq<u8>,
    CryptoError,
> {
    match phase_2_key_of(text) {
        Err(e) => Err(e),
        Ok(key) => phase_2_outcome(key, data),
    }
}

/// Every derived key is thirty-two bytes long and ends in sixteen zero
/// bytes.
pub proof fn lemma_key_is_half_zero(text: Seq<u8>)
    requires
        phase_2_key_of(text) is Ok,
    ensures
        phase_2_key_of(text)->Ok_0.len() == KEY_LEN,
        forall|i: int| KEY_TEXT_BYTES <= i < KEY_LEN ==> phase_2_key_of(text)->Ok_0[i] == 0,
        forall|i: int|
            0 <= i < KEY_TEXT_BYTES ==> phase_2_key_of(text)->Ok_0[i] == hex_decoded(text)[i],
{
}

/// Settles what the cipher handed back: a failure is the decryption error.
pub fn settle_plaintext(outcome: Result<Vec<u8>, ErrorStack>) -> (r: Result<Vec<u8>, CryptoError>)
    ensures
        match outcome {
            Ok(plaintext) => r matches Ok(out) && out@ == plaintext@,
            Err(_) => r == Err::<Vec<u8>, CryptoError>(CryptoError::Decryption),
        },
{
    match outcome {
        Ok(plaintext) => Ok(plaintext),
        Err(_) => Err(CryptoError::Decryption),
    }
}

impl Phase2Key {
    #[verifier::type_invariant]
    spec fn well_formed(self) -> bool {
        self.bytes@.len() == KEY_LEN
    }

    /// Derives the key from its hexadecimal text, given as bytes.
    pub fn from_hex_bytes(text: &[u8]) -> (r: Result<Phase2Key, CryptoError>)
        ensures
            match phase_2_key_of(text@) {
                Ok(key) => r matches Ok(k) && k@ == key,
                Err(e) => r matches Err(f) && f == e,
            },
    {
        match decode_hex(text, KEY_TEXT_BYTES) {
            Ok(decoded) => {
                let mut bytes = decoded;
                push_zeros(&mut bytes, KEY_TEXT_BYTES);
                Ok(Phase2Key { bytes })
            },
            Err(_) => Err(CryptoError::KeyFormat),
        }
    }

    /// Derives the key from its hexadecimal text: thirty-two digits, of
    /// either case.
    pub fn derive_key(text: &str) -> (r: Result<Phase2Key, CryptoError>)
        ensures
            match phase_2_key_of(text.spec_bytes()) {
                Ok(key) => r matches Ok(k) && k@ == key,
                Err(e) => r matches Err(f) && f == e,
            },
    {
        Phase2Key::from_hex_bytes(text.as_bytes())
    }

    /// The key's thirty-two bytes.
    pub fn as_bytes(&self) -> (r: &Vec<u8>)
        ensures
            r@ == self@,
            r@.len() == KEY_LEN,
    {
        proof {
            use_type_invariant(self);
        }
        &self.bytes
    }
}

/// Decrypts the second layer: the whole of `data`, under `key` and an
/// all-zero initialisation vector.
pub fn decrypt(data: &[u8], key: &Phase2Key) -> (r: Result<Vec<u8>, CryptoError>)
    ensures
        bytes_of_outcome(r) == phase_2_outcome(key@, data@),
{
    if data.len() > MAX_CIPHER_INPUT {
        return Err(CryptoError::Decryption);
    }
    let mut iv: Vec<u8> = Vec::new();
    push_zeros(&mut iv, BLOCK_LEN);
    proof {
        assert(iv@ =~= zeros(BLOCK_LEN as nat));
    }
    settle_plaintext(decrypt_unpadded(key.as_bytes().as_slice(), iv.as_slice(), data))
}

/// Runs the whole second phase on the output of the first: derives the key
/// from its text and decrypts.
pub fn phase_2_decrypt(dec1: &[u8], phase2_key: &str) -> (r: Result<Vec<u8>, CryptoError>)
    ensures
        bytes_of_outcome(r) == second_phase_outcome(dec1@, phase2_key.spec_bytes()),
{
    let key = match Phase2Key::derive_key(phase2_key) {
        Ok(key) => key,
        Err(e) => { return Err(e); },
    };
    decrypt(dec1, &key)
}

} // verus!
