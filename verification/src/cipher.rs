//! AES-256 in CBC mode, done by OpenSSL.
//!
//! Two calls are made: one that hands back every decrypted block as it is,
//! and one that also strips the cipher's own padding. Their contracts are
//! taken on trust.

use openssl::cipher_ctx::CipherCtx;
use openssl::error::ErrorStack;
use vstd::prelude::*;

verus! {

/// Bytes in an AES-256 key.
pub const KEY_LEN: usize = 32;

/// Bytes in a CBC initialisation vector, and in one cipher block.
pub const BLOCK_LEN: usize = 16;

/// The longest input handed to the cipher in one call.
pub const MAX_CIPHER_INPUT: usize = 0x7fff_ffef;

/// AES-256-CBC decryption of `data` under `key` and `iv` with padding
/// switched off: all decrypted blocks, or nothing where OpenSSL rejects the
/// input.
pub uninterp spec fn cbc_blocks(key: Seq<u8>, iv: Seq<u8>, data: Seq<u8>) -> Option<Seq<u8>>;

/// AES-256-CBC decryption of `data` under `key` and `iv` with the cipher's
/// padding removed: the plaintext, or nothing where OpenSSL rejects the input.
pub uninterp spec fn cbc_unpadded(key: Seq<u8>, iv: Seq<u8>, data: Seq<u8>) -> Option<Seq<u8>>;

/// Decrypts whole blocks with a `CipherCtx` whose padding is switched off.
///
/// Trusted: the call succeeds exactly when [`cbc_blocks`] has a value, and
/// the bytes returned are that value. `decrypt_init` panics on a key or an
/// initialisation vector shorter than the cipher's, and `cipher_update_vec`
/// on an input whose length does not fit a C `int`; the precondition rules
/// both out.
#[verifier::external_body]
pub(crate) fn decrypt_blocks(key: &[u8], iv: &[u8], data: &[u8]) -> (r: Result<
    Vec<u8>,
    ErrorStack,
>)
    requires
        key@.len() == KEY_LEN,
        iv@.len() == BLOCK_LEN,
        data@.len() <= MAX_CIPHER_INPUT,
    ensures
        r is Ok <==> cbc_blocks(key@, iv@, data@) is Some,
        r matches Ok(v) ==> cbc_blocks(key@, iv@, data@) == Some(v@),
{
    let mut ctx = CipherCtx::new()?;
    ctx.decrypt_init(Some(openssl::cipher::Cipher::aes_256_cbc()), Some(key), Some(iv))?;
    ctx.set_padding(false);
    let mut out = Vec::new();
    ctx.cipher_update_vec(data, &mut out)?;
    ctx.cipher_final_vec(&mut out)?;
    Ok(out)
}

/// Decrypts and removes the padding with `openssl::symm::decrypt`.
///
/// Trusted: the call succeeds exactly when [`cbc_unpadded`] has a value, and
/// the bytes returned are that value. The same inputs make it panic as make
/// [`decrypt_blocks`] panic, and the precondition rules them out.
#[verifier::external_body]
pub(crate) fn decrypt_unpadded(key: &[u8], iv: &[u8], data: &[u8]) -> (r: Result<
    Vec<u8>,
    ErrorStack,
>)
    requires
        key@.len() == KEY_LEN,
        iv@.len() == BLOCK_LEN,
        data@.len() <= MAX_CIPHER_INPUT,
    ensures
        r is Ok <==> cbc_unpadded(key@, iv@, data@) is Some,
        r matches Ok(v) ==> cbc_unpadded(key@, iv@, data@) == Some(v@),
{
    openssl::symm::decrypt(openssl::symm::Cipher::aes_256_cbc(), key, Some(iv), data)
}

} // verus!
