//! Arbitrary-precision arithmetic, done by OpenSSL.
//!
//! Every function here is a thin call into OpenSSL's big-number code on
//! big-endian byte strings. Their contracts are taken on trust.

use crate::bigend::be_nat;
use openssl::bn::{BigNum, BigNumContext};
use openssl::error::ErrorStack;
use vstd::arithmetic::power::pow;
use vstd::prelude::*;

verus! {

/// The longest byte string OpenSSL turns into a number.
pub const MAX_NUMBER_LEN: usize = 0x7fff_ffff;

/// What OpenSSL's modular exponentiation hands back for three numbers given
/// as big-endian byte strings: the result's bytes, or nothing where the call
/// fails.
pub uninterp spec fn mod_exp_bytes(base: Seq<u8>, exponent: Seq<u8>, modulus: Seq<u8>) -> Option<
    Seq<u8>,
>;

/// What OpenSSL reads a hexadecimal text as: the number's big-endian bytes,
/// or nothing where it rejects the text.
pub uninterp spec fn hex_number(text: Seq<char>) -> Option<Seq<u8>>;

/// Raises `base` to `exponent` modulo `modulus` with `BigNumRef::mod_exp`.
///
/// Trusted: the call succeeds exactly when [`mod_exp_bytes`] has a value, the
/// bytes returned are that value, and they spell `base^exponent mod modulus`,
/// as the documentation of `mod_exp` says. Nothing is claimed for a modulus
/// of zero, for which that documentation says nothing: the precondition
/// leaves it out. `BigNum::from_slice` reads its argument as an unsigned
/// big-endian number and panics past [`MAX_NUMBER_LEN`] bytes, which the
/// precondition rules out too; `BigNumRef::to_vec` writes the result back in
/// big-endian order.
#[verifier::external_body]
pub(crate) fn mod_exp(base: &[u8], exponent: &[u8], modulus: &[u8]) -> (r: Result<
    Vec<u8>,
    ErrorStack,
>)
    requires
        base@.len() <= MAX_NUMBER_LEN,
        exponent@.len() <= MAX_NUMBER_LEN,
        modulus@.len() <= MAX_NUMBER_LEN,
        be_nat(modulus@) > 0,
    ensures
        r is Ok <==> mod_exp_bytes(base@, exponent@, modulus@) is Some,
        r matches Ok(v) ==> mod_exp_bytes(base@, exponent@, modulus@) == Some(v@),
        r matches Ok(v) ==> be_nat(v@) == pow(be_nat(base@) as int, be_nat(exponent@)) % (be_nat(
            modulus@,
        ) as int),
{
    let a = BigNum::from_slice(base)?;
    let p = BigNum::from_slice(exponent)?;
    let m = BigNum::from_slice(modulus)?;
    let mut ctx = BigNumContext::new()?;
    let mut out = BigNum::new()?;
    out.mod_exp(&a, &p, &m, &mut ctx)?;
    Ok(out.to_vec())
}

/// Draws a number below `bound` with `BigNumRef::rand_range`.
///
/// Trusted: whatever is drawn spells a number less than `bound`, as the
/// documentation of `rand_range` says. Two calls may differ, so the result
/// has no name.
#[verifier::external_body]
pub(crate) fn random_below(bound: &[u8]) -> (r: Result<Vec<u8>, ErrorStack>)
    requires
        bound@.len() <= MAX_NUMBER_LEN,
    ensures
        r matches Ok(v) ==> be_nat(v@) < be_nat(bound@),
{
    let range = BigNum::from_slice(bound)?;
    let mut drawn = BigNum::new()?;
    range.rand_range(&mut drawn)?;
    Ok(drawn.to_vec())
}

/// Reads a hexadecimal text as a number with `BigNum::from_hex_str`.
///
/// Trusted: the call succeeds exactly when [`hex_number`] has a value, and
/// the bytes returned are that value. `from_hex_str` panics on a text that
/// holds a NUL character, which the precondition rules out.
#[verifier::external_body]
pub(crate) fn number_from_hex(text: &str) -> (r: Result<Vec<u8>, ErrorStack>)
    requires
        !text@.contains('\0'),
    ensures
        r is Ok <==> hex_number(text@) is Some,
        r matches Ok(v) ==> hex_number(text@) == Some(v@),
{
    Ok(BigNum::from_hex_str(text)?.to_vec())
}

} // verus!
