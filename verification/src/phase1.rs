//! The first layer: AES-256-CBC under a key cut from the shared secret.
//!
//! The cipher's own padding is not removed. The envelope says how many bytes
//! the plaintext is shorter than the ciphertext, and exactly that many are
//! cut from the end of the decrypted blocks.

use crate::cipher::{cbc_blocks, decrypt_blocks, KEY_LEN, MAX_CIPHER_INPUT};
use crate::bigend::{be_nat, lemma_be_bytes_len, lemma_be_nat_bound, lemma_min_width_fits};
use crate::bignum::MAX_NUMBER_LEN;
use crate::envelope::{decoded, framed, lemma_decoded_of_framed, Envelope, EnvelopeView, IV_LEN};
use crate::error::{bytes_of_outcome, CryptoError};
use crate::key_agreement::{
    agreement_outcome, lemma_key_agreement_symmetric, modulus_width, power_mod,
    public_value_of, DhKeyPair, SharedSecret,
};
use openssl::error::ErrorStack;
use vstd::prelude::*;
use vstd::slice::slice_subrange;
use vstd::slice::slice_to_vec;

verus! {

/// The key of the first layer: the first thirty-two bytes of a shared
/// secret.
pub struct Phase1Key {
    bytes: Vec<u8>,
}

impl View for Phase1Key {
    type V = Seq<u8>;

    closed spec fn view(&self) -> Seq<u8> {
        self.bytes@
    }
}

/// The key that is cut from `secret`, or the agreement error where the
/// secret is too short to cut one from.
pub open spec fn phase_1_key_of(secret: Seq<u8>) -> Result<Seq<u8>, CryptoError> {
    if secret.len() >= KEY_LEN {
        Ok(secret.subrange(0, KEY_LEN as int))
    } else {
        Err(CryptoError::KeyAgreement)
    }
}

/// The plaintext that is left of the decrypted `blocks` of a ciphertext of
/// `ciphertext_len` bytes once `length_loss` bytes are cut from their end.
/// Blocks of another length than the ciphertext, or shorter than the loss,
/// give the integrity error.
pub open spec fn trimmed(blocks: Seq<u8>, ciphertext_len: nat, length_loss: u8) -> Result<
    Seq<u8>,
    CryptoError,
> {
    if blocks.len() == ciphertext_len && length_loss <= blocks.len() {
        Ok(blocks.subrange(0, blocks.len() - length_loss))
    } else {
        Err(CryptoError::Integrity)
    }
}

/// What the cipher's answer for an envelope comes to: a refusal is the
/// decryption error, and blocks are cut to the announced length.
pub open spec fn settled(blocks: Option<Seq<u8>>, ciphertext_len: nat, length_loss: u8) -> Result<
    Seq<u8>,
    CryptoError,
> {
    match blocks {
        None => Err(CryptoError::Decryption),
        Some(blocks) => trimmed(blocks, ciphertext_len, length_loss),
    }
}

/// What decrypting the first layer of `envelope` under `key` gives.
pub open spec fn phase_1_outcome(key: Seq<u8>, envelope: EnvelopeView) -> Result<
    Seq<u8>,
    CryptoError,
> {
    if envelope.ciphertext.len() > MAX_CIPHER_INPUT {
        Err(CryptoError::Decryption)
    } else {
        settled(
            cbc_blocks(key, envelope.iv, envelope.ciphertext),
            envelope.ciphertext.len(),
            envelope.length_loss,
        )
    }
}

/// What the whole first phase gives for the raw envelope `data` and a key
/// pair with the given modulus and private exponent: the envelope is
/// decoded, the secret agreed with the server's public value, the key cut
/// from it, and the ciphertext decrypted and trimmed. The first step that
/// fails decides the error.
pub open spec fn first_phase_outcome(modulus: Seq<u8>, private: Seq<u8>, data: Seq<u8>) -> Result<
    Seq<u8>,
    CryptoError,
> {
    match decoded(data) {
        Err(e) => Err(e),
        Ok(envelope) => match agreement_outcome(modulus, private, envelope.server_public_key) {
            Err(e) => Err(e),
            Ok(secret) => match phase_1_key_of(secret) {
                Err(e) => Err(e),
                Ok(key) => phase_1_outcome(key, envelope),
            },
        },
    }
}

/// A plaintext followed by padding is recovered by cutting off as many
/// bytes as the padding has.
pub proof fn lemma_trim_recovers_plaintext(plaintext: Seq<u8>, padding: Seq<u8>)
    requires
        padding.len() <= u8::MAX,
    ensures
        trimmed(plaintext + padding, (plaintext + padding).len(), padding.len() as u8) == Ok::<
            Seq<u8>,
            CryptoError,
        >(plaintext),
{
    assert((plaintext + padding).subrange(0, plaintext.len() as int) =~= plaintext);
}

/// Where the length loss is the whole length of the ciphertext, the
/// plaintext is empty and no integrity error is raised.
pub proof fn lemma_whole_length_lost(blocks: Seq<u8>, length_loss: u8)
    requires
        blocks.len() == length_loss,
    ensures
        trimmed(blocks, blocks.len(), length_loss) == Ok::<Seq<u8>, CryptoError>(Seq::empty()),
{
    assert(blocks.subrange(0, 0) =~= Seq::<u8>::empty());
}

/// The first phase gives back what was sent: where the cipher's blocks for
/// the ciphertext are a plaintext followed by padding, and the envelope
/// announces the padding's length as its loss, the first phase returns
/// exactly the plaintext. The cipher takes no more than
/// [`MAX_CIPHER_INPUT`] bytes, so longer ciphertexts are left out.
pub proof fn lemma_first_phase_round_trip(
    modulus: Seq<u8>,
    private: Seq<u8>,
    marker: u8,
    server_public_key: Seq<u8>,
    iv: Seq<u8>,
    ciphertext: Seq<u8>,
    plaintext: Seq<u8>,
    padding: Seq<u8>,
)
    requires
        server_public_key.len() <= u32::MAX,
        iv.len() == IV_LEN,
        padding.len() <= u8::MAX,
        ciphertext.len() == plaintext.len() + padding.len(),
        ciphertext.len() <= MAX_CIPHER_INPUT,
        ({
            &&& agreement_outcome(modulus, private, server_public_key) matches Ok(secret)
            &&& phase_1_key_of(secret) matches Ok(key)
            &&& cbc_blocks(key, iv, ciphertext) == Some(plaintext + padding)
        }),
    ensures
        first_phase_outcome(
            modulus,
            private,
            framed(marker, server_public_key, iv, padding.len() as u8, ciphertext),
        ) == Ok::<Seq<u8>, CryptoError>(plaintext),
{
    lemma_decoded_of_framed(marker, server_public_key, iv, padding.len() as u8, ciphertext);
    lemma_trim_recovers_plaintext(plaintext, padding);
}

/// The first phase does not raise the integrity error on an envelope whose
/// length loss is the whole length of its ciphertext: where the secret is
/// agreed and the cipher hands back as many bytes as it was given, the
/// result is the empty plaintext.
pub proof fn lemma_first_phase_whole_length_lost(
    modulus: Seq<u8>,
    private: Seq<u8>,
    data: Seq<u8>,
)
    requires
        ({
            &&& decoded(data) matches Ok(envelope)
            &&& envelope.ciphertext.len() == envelope.length_loss
            &&& agreement_outcome(modulus, private, envelope.server_public_key) matches Ok(secret)
            &&& phase_1_key_of(secret) matches Ok(key)
            &&& cbc_blocks(key, envelope.iv, envelope.ciphertext) matches Some(blocks)
            &&& blocks.len() == envelope.ciphertext.len()
        }),
    ensures
        first_phase_outcome(modulus, private, data) == Ok::<Seq<u8>, CryptoError>(Seq::empty()),
{
    let envelope = decoded(data)->Ok_0;
    let secret = agreement_outcome(modulus, private, envelope.server_public_key)->Ok_0;
    let key = phase_1_key_of(secret)->Ok_0;
    let blocks = cbc_blocks(key, envelope.iv, envelope.ciphertext)->Some_0;
    lemma_whole_length_lost(blocks, envelope.length_loss);
}

/// Both ends get the same out of the first phase: for two key pairs over
/// one modulus and generator, the same initialisation vector, length loss
/// and ciphertext give the same result on either side when each side is
/// sent the other's public value. What is left out is an exponentiation
/// that fails on one side only.
pub proof fn lemma_first_phase_symmetric(
    modulus: Seq<u8>,
    generator: Seq<u8>,
    first: Seq<u8>,
    second: Seq<u8>,
    marker: u8,
    iv: Seq<u8>,
    length_loss: u8,
    ciphertext: Seq<u8>,
)
    requires
        be_nat(modulus) > 0,
        modulus.len() <= MAX_NUMBER_LEN,
        iv.len() == IV_LEN,
        agreement_outcome(modulus, first, public_value_of(modulus, generator, second)) is Ok
            <==> agreement_outcome(modulus, second, public_value_of(modulus, generator, first))
            is Ok,
    ensures
        first_phase_outcome(
            modulus,
            first,
            framed(
                marker,
                public_value_of(modulus, generator, second),
                iv,
                length_loss,
                ciphertext,
            ),
        ) == first_phase_outcome(
            modulus,
            second,
            framed(
                marker,
                public_value_of(modulus, generator, first),
                iv,
                length_loss,
                ciphertext,
            ),
        ),
{
    let from_second = public_value_of(modulus, generator, second);
    let from_first = public_value_of(modulus, generator, first);
    lemma_be_nat_bound(modulus);
    lemma_min_width_fits(be_nat(modulus), modulus.len());
    lemma_be_bytes_len(
        power_mod(be_nat(generator), be_nat(second), be_nat(modulus)),
        modulus_width(modulus),
    );
    lemma_be_bytes_len(
        power_mod(be_nat(generator), be_nat(first), be_nat(modulus)),
        modulus_width(modulus),
    );
    lemma_decoded_of_framed(marker, from_second, iv, length_loss, ciphertext);
    lemma_decoded_of_framed(marker, from_first, iv, length_loss, ciphertext);
    lemma_key_agreement_symmetric(modulus, generator, first, second);
}

/// Cuts `length_loss` bytes from the end of the decrypted `blocks` of a
/// ciphertext of `ciphertext_len` bytes, after checking that the lengths
/// agree.
pub fn trim(blocks: Vec<u8>, ciphertext_len: usize, length_loss: u8) -> (r: Result<
    Vec<u8>,
    CryptoError,
>)
    ensures
        bytes_of_outcome(r) == trimmed(blocks@, ciphertext_len as nat, length_loss),
{
    let loss = length_loss as usize;
    if blocks.len() != ciphertext_len || loss > blocks.len() {
        return Err(CryptoError::Integrity);
    }
    let mut plaintext = blocks;
    let keep = plaintext.len() - loss;
    plaintext.truncate(keep);
    Ok(plaintext)
}

/// Settles what the cipher handed back for a ciphertext of `ciphertext_len`
/// bytes: a failure is the decryption error, and blocks are trimmed.
pub fn settle_blocks(
    outcome: Result<Vec<u8>, ErrorStack>,
    ciphertext_len: usize,
    length_loss: u8,
) -> (r: Result<Vec<u8>, CryptoError>)
    ensures
        match outcome {
            Ok(blocks) => bytes_of_outcome(r) == trimmed(
                blocks@,
                ciphertext_len as nat,
                length_loss,
            ),
            Err(_) => r == Err::<Vec<u8>, CryptoError>(CryptoError::Decryption),
        },
{
    match outcome {
        Ok(blocks) => trim(blocks, ciphertext_len, length_loss),
        Err(_) => Err(CryptoError::Decryption),
    }
}

impl Phase1Key {
    #[verifier::type_invariant]
    spec fn well_formed(self) -> bool {
        self.bytes@.len() == KEY_LEN
    }

    /// Cuts the key from a shared secret: its first thirty-two bytes.
    pub fn derive(secret: &SharedSecret) -> (r: Result<Phase1Key, CryptoError>)
        ensures
            match phase_1_key_of(secret@) {
                Ok(key) => r matches Ok(k) && k@ == key,
                Err(e) => r matches Err(f) && f == e,
            },
    {
        if secret.bytes.len() < KEY_LEN {
            return Err(CryptoError::KeyAgreement);
        }
        let bytes = slice_to_vec(slice_subrange(secret.bytes.as_slice(), 0, KEY_LEN));
        Ok(Phase1Key { bytes })
    }

    /// The key's thirty-two bytes.
    pub fn as_bytes(&self) -> (r: &Vec<u8>)
        ensures
            r@ == self@,
            r@.len() == KEY_LEN,
    {
        proof {
            use_type_invariant(self);
        }
        &self.bytes
    }
}

/// Decrypts the first layer of `envelope` under `key`, with the
/// initialisation vector that the envelope carries, and cuts the result to
/// the length the envelope announces.
pub fn decrypt(envelope: &Envelope, key: &Phase1Key) -> (r: Result<Vec<u8>, CryptoError>)
    ensures
        bytes_of_outcome(r) == phase_1_outcome(key@, envelope@),
{
    let ciphertext = envelope.ciphertext();
    if ciphertext.len() > MAX_CIPHER_INPUT {
        return Err(CryptoError::Decryption);
    }
    let outcome = decrypt_blocks(
        key.as_bytes().as_slice(),
        envelope.iv().as_slice(),
        ciphertext.as_slice(),
    );
    settle_blocks(outcome, ciphertext.len(), envelope.length_loss())
}

/// Runs the whole first phase on the raw envelope `data`: decodes it, agrees
/// the secret with the server's public value, cuts the key from the secret,
/// and decrypts and trims the ciphertext.
pub fn phase_1_decrypt(data: &[u8], pair: &DhKeyPair) -> (r: Result<Vec<u8>, CryptoError>)
    ensures
        bytes_of_outcome(r) == first_phase_outcome(pair@.modulus, pair@.private, data@),
{
    let envelope = match Envelope::parse(data) {
        Ok(envelope) => envelope,
        Err(e) => { return Err(e); },
    };
    let secret = match pair.compute_shared_secret(envelope.server_public_key().as_slice()) {
        Ok(secret) => secret,
        Err(e) => { return Err(e); },
    };
    let key = match Phase1Key::derive(&secret) {
        Ok(key) => key,
        Err(e) => { return Err(e); },
    };
    decrypt(&envelope, &key)
}

} // verus!
