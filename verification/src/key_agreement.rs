//! Diffie-Hellman key agreement over a fixed modulus and generator.
//!
//! All values are big-endian byte strings. A key pair holds a private
//! exponent `x` and the public value `g^x mod p`; a shared secret is
//! `y^x mod p` for the peer's public value `y`. Public values and secrets are
//! handed out at a fixed width: the least number of bytes that holds the
//! modulus.

use crate::bigend::{
    be_bytes, be_nat, is_zero, lemma_be_bytes_len, lemma_be_nat_of_be_bytes,
    lemma_min_width_fits, less_than, min_width, significant_len, span, to_fixed_width,
};
use crate::bignum::{
    hex_number, mod_exp, mod_exp_bytes, number_from_hex, random_below, MAX_NUMBER_LEN,
};
use crate::config::Config;
use crate::error::CryptoError;
use crate::hexcode::{encode_hex, hex_encoded};
use openssl::error::ErrorStack;
use vstd::arithmetic::div_mod::lemma_mod_bound;
use vstd::arithmetic::mul::lemma_mul_is_commutative;
use vstd::arithmetic::power::*;
use vstd::prelude::*;
use vstd::slice::slice_to_vec;

verus! {

/// The modulus and the generator that both ends of an exchange share, as
/// big-endian byte strings.
#[derive(Clone, Debug)]
pub struct DhParameters {
    pub modulus: Vec<u8>,
    pub generator: Vec<u8>,
}

/// Where the private exponent of a key pair comes from.
pub enum KeyPolicy {
    /// The given exponent, used as it is.
    Fixed(Vec<u8>),
    /// A fresh exponent, drawn at random from below the modulus.
    Random,
}

/// What a key pair holds, as mathematical values.
pub struct DhKeyPairView {
    pub modulus: Seq<u8>,
    pub generator: Seq<u8>,
    pub private: Seq<u8>,
    pub public: Seq<u8>,
}

/// A private exponent with the public value that belongs to it.
pub struct DhKeyPair {
    modulus: Vec<u8>,
    generator: Vec<u8>,
    private: Vec<u8>,
    public: Vec<u8>,
}

/// The secret that both ends of an exchange arrive at.
pub struct SharedSecret {
    pub bytes: Vec<u8>,
}

/// `base` to the power `exponent`, modulo `modulus`.
pub open spec fn power_mod(base: nat, exponent: nat, modulus: nat) -> nat {
    (pow(base as int, exponent) % (modulus as int)) as nat
}

/// The width at which values modulo `modulus` are handed out.
pub open spec fn modulus_width(modulus: Seq<u8>) -> nat {
    min_width(be_nat(modulus))
}

/// Tells whether the parameters can be worked with: the modulus is not
/// zero, and neither string is longer than the arithmetic takes.
pub open spec fn usable(modulus: Seq<u8>, generator: Seq<u8>) -> bool {
    &&& be_nat(modulus) > 0
    &&& modulus.len() <= MAX_NUMBER_LEN
    &&& generator.len() <= MAX_NUMBER_LEN
}

/// The public value of the exponent `private`: `g^private mod p`.
pub open spec fn public_value_of(modulus: Seq<u8>, generator: Seq<u8>, private: Seq<u8>) -> Seq<
    u8,
> {
    be_bytes(
        power_mod(be_nat(generator), be_nat(private), be_nat(modulus)),
        modulus_width(modulus),
    )
}

/// The secret shared with the holder of `peer`: `peer^private mod p`.
pub open spec fn shared_secret_of(modulus: Seq<u8>, private: Seq<u8>, peer: Seq<u8>) -> Seq<u8> {
    be_bytes(power_mod(be_nat(peer), be_nat(private), be_nat(modulus)), modulus_width(modulus))
}

/// What making a key pair from `private` gives: the public value, or the
/// parameter error.
pub open spec fn key_pair_outcome(modulus: Seq<u8>, generator: Seq<u8>, private: Seq<u8>) -> Result<
    Seq<u8>,
    CryptoError,
> {
    if !usable(modulus, generator) || private.len() > MAX_NUMBER_LEN {
        Err(CryptoError::InvalidParameter)
    } else if mod_exp_bytes(generator, private, modulus) is None {
        Err(CryptoError::InvalidParameter)
    } else {
        Ok(public_value_of(modulus, generator, private))
    }
}

/// What agreeing with the holder of `peer` gives: the secret, or the
/// agreement error. A peer value that is not below the modulus is refused.
pub open spec fn agreement_outcome(modulus: Seq<u8>, private: Seq<u8>, peer: Seq<u8>) -> Result<
    Seq<u8>,
    CryptoError,
> {
    if peer.len() > MAX_NUMBER_LEN || be_nat(peer) >= be_nat(modulus) {
        Err(CryptoError::KeyAgreement)
    } else if mod_exp_bytes(peer, private, modulus) is None {
        Err(CryptoError::KeyAgreement)
    } else {
        Ok(shared_secret_of(modulus, private, peer))
    }
}

/// What is made of a hexadecimal private exponent: the outcome for the
/// number it spells, or the parameter error where it spells none.
pub open spec fn hex_key_pair_outcome(modulus: Seq<u8>, generator: Seq<u8>, text: Seq<char>)
    -> Result<Seq<u8>, CryptoError> {
    if text.contains('\0') {
        Err(CryptoError::InvalidParameter)
    } else {
        match hex_number(text) {
            None => Err(CryptoError::InvalidParameter),
            Some(private) => key_pair_outcome(modulus, generator, private),
        }
    }
}

/// A residue of a nonzero modulus fits the width of the modulus.
pub proof fn lemma_residue_fits(value: int, modulus: Seq<u8>)
    requires
        be_nat(modulus) > 0,
    ensures
        0 <= value % (be_nat(modulus) as int) < be_nat(modulus),
        value % (be_nat(modulus) as int) < span(modulus_width(modulus)),
{
    lemma_mod_bound(value, be_nat(modulus) as int);
    lemma_min_width_fits(be_nat(modulus), modulus_width(modulus));
}

/// Both ends arrive at the same secret: for one modulus and generator and
/// any two private exponents, the secret that the first computes from the
/// public value of the second is the secret that the second computes from
/// the public value of the first.
pub proof fn lemma_key_agreement_symmetric(
    modulus: Seq<u8>,
    generator: Seq<u8>,
    first: Seq<u8>,
    second: Seq<u8>,
)
    requires
        be_nat(modulus) > 0,
    ensures
        shared_secret_of(modulus, first, public_value_of(modulus, generator, second))
            == shared_secret_of(modulus, second, public_value_of(modulus, generator, first)),
        be_nat(public_value_of(modulus, generator, first)) < be_nat(modulus),
        be_nat(public_value_of(modulus, generator, second)) < be_nat(modulus),
        agreement_outcome(modulus, first, public_value_of(modulus, generator, second)) is Ok
            && agreement_outcome(modulus, second, public_value_of(modulus, generator, first))
            is Ok ==> agreement_outcome(
            modulus,
            first,
            public_value_of(modulus, generator, second),
        ) == agreement_outcome(modulus, second, public_value_of(modulus, generator, first)),
{
    let p = be_nat(modulus) as int;
    let g = be_nat(generator) as int;
    let a = be_nat(first);
    let b = be_nat(second);
    let width = modulus_width(modulus);
    lemma_residue_fits(pow(g, a), modulus);
    lemma_residue_fits(pow(g, b), modulus);
    lemma_be_nat_of_be_bytes(power_mod(g as nat, a, p as nat), width);
    lemma_be_nat_of_be_bytes(power_mod(g as nat, b, p as nat), width);
    lemma_pow_mod_noop(pow(g, b), a, p);
    lemma_pow_mod_noop(pow(g, a), b, p);
    lemma_pow_multiplies(g, b, a);
    lemma_pow_multiplies(g, a, b);
    lemma_mul_is_commutative(a as int, b as int);
}

impl View for DhKeyPair {
    type V = DhKeyPairView;

    closed spec fn view(&self) -> DhKeyPairView {
        DhKeyPairView {
            modulus: self.modulus@,
            generator: self.generator@,
            private: self.private@,
            public: self.public@,
        }
    }
}

impl View for SharedSecret {
    type V = Seq<u8>;

    open spec fn view(&self) -> Seq<u8> {
        self.bytes@
    }
}

/// Tells whether a key pair's values belong together.
pub open spec fn consistent(pair: DhKeyPairView) -> bool {
    &&& usable(pair.modulus, pair.generator)
    &&& pair.private.len() <= MAX_NUMBER_LEN
    &&& pair.public == public_value_of(pair.modulus, pair.generator, pair.private)
}

/// The outcome of making a key pair, with the pair taken by its public value.
pub open spec fn public_of_outcome(r: Result<DhKeyPair, CryptoError>) -> Result<
    Seq<u8>,
    CryptoError,
> {
    match r {
        Ok(pair) => Ok(pair@.public),
        Err(e) => Err(e),
    }
}

/// The outcome of an agreement, with the secret taken by its view.
pub open spec fn secret_of_outcome(r: Result<SharedSecret, CryptoError>) -> Result<
    Seq<u8>,
    CryptoError,
> {
    match r {
        Ok(secret) => Ok(secret@),
        Err(e) => Err(e),
    }
}

/// Settles what an exponentiation handed back: a failure becomes `failure`,
/// a result is re-sized to `width` bytes, and one that does not fit becomes
/// `failure` too.
pub fn settle_power(outcome: Result<Vec<u8>, ErrorStack>, width: usize, failure: CryptoError) -> (r:
    Result<Vec<u8>, CryptoError>)
    ensures
        match outcome {
            Ok(value) => if be_nat(value@) < span(width as nat) {
                r matches Ok(out) && out@ == be_bytes(be_nat(value@), width as nat)
            } else {
                r == Err::<Vec<u8>, CryptoError>(failure)
            },
            Err(_) => r == Err::<Vec<u8>, CryptoError>(failure),
        },
{
    match outcome {
        Ok(value) => match to_fixed_width(value.as_slice(), width) {
            Some(out) => Ok(out),
            None => Err(failure),
        },
        Err(_) => Err(failure),
    }
}

/// Tells whether `text` holds a NUL character.
pub fn has_nul(text: &str) -> (r: bool)
    ensures
        r == text@.contains('\0'),
{
    let count = text.unicode_len();
    let mut i: usize = 0;
    while i < count
        invariant
            i <= count,
            count == text@.len(),
            forall|j: int| 0 <= j < i ==> text@[j] != '\0',
        decreases count - i,
    {
        if text.get_char(i) == '\0' {
            return true;
        }
        i += 1;
    }
    false
}

impl DhKeyPair {
    #[verifier::type_invariant]
    spec fn well_formed(self) -> bool {
        consistent(self@)
    }

    /// Makes the key pair of the exponent `private`: the public value is
    /// computed as `g^private mod p` and kept at the width of the modulus.
    /// Parameters that cannot be worked with, and an exponentiation that
    /// fails, give the parameter error.
    pub fn from_exponent(params: &DhParameters, private: Vec<u8>) -> (r: Result<
        DhKeyPair,
        CryptoError,
    >)
        ensures
            public_of_outcome(r) == key_pair_outcome(
                params.modulus@,
                params.generator@,
                private@,
            ),
            r matches Ok(pair) ==> pair@.modulus == params.modulus@ && pair@.generator
                == params.generator@ && pair@.private == private@ && consistent(pair@),
    {
        if params.modulus.len() > MAX_NUMBER_LEN || params.generator.len() > MAX_NUMBER_LEN
            || private.len() > MAX_NUMBER_LEN || is_zero(params.modulus.as_slice()) {
            return Err(CryptoError::InvalidParameter);
        }
        let width = significant_len(params.modulus.as_slice());
        let outcome = mod_exp(
            params.generator.as_slice(),
            private.as_slice(),
            params.modulus.as_slice(),
        );
        proof {
            lemma_residue_fits(
                pow(be_nat(params.generator@) as int, be_nat(private@)),
                params.modulus@,
            );
        }
        match settle_power(outcome, width, CryptoError::InvalidParameter) {
            Ok(public) => Ok(
                DhKeyPair {
                    modulus: slice_to_vec(params.modulus.as_slice()),
                    generator: slice_to_vec(params.generator.as_slice()),
                    private,
                    public,
                },
            ),
            Err(e) => Err(e),
        }
    }

    /// The modulus of the exchange.
    pub fn modulus(&self) -> (r: &Vec<u8>)
        ensures
            r@ == self@.modulus,
    {
        &self.modulus
    }

    /// The generator of the exchange.
    pub fn generator(&self) -> (r: &Vec<u8>)
        ensures
            r@ == self@.generator,
    {
        &self.generator
    }

    /// The private exponent.
    pub fn private_exponent(&self) -> (r: &Vec<u8>)
        ensures
            r@ == self@.private,
    {
        &self.private
    }

    /// The public value, `g^private mod p`, at the width of the modulus.
    pub fn public_value(&self) -> (r: &Vec<u8>)
        ensures
            r@ == self@.public,
            r@ == public_value_of(self@.modulus, self@.generator, self@.private),
            r@.len() == modulus_width(self@.modulus),
            consistent(self@),
    {
        proof {
            use_type_invariant(self);
            lemma_be_bytes_len(
                power_mod(
                    be_nat(self@.generator),
                    be_nat(self@.private),
                    be_nat(self@.modulus),
                ),
                modulus_width(self@.modulus),
            );
        }
        &self.public
    }

    /// The public value as text for the transport: two upper-case
    /// hexadecimal digits for each of its bytes.
    pub fn public_value_hex(&self) -> (r: String)
        ensures
            r@ == hex_encoded(self@.public),
            r@ == hex_encoded(public_value_of(self@.modulus, self@.generator, self@.private)),
    {
        proof {
            use_type_invariant(self);
        }
        encode_hex(self.public.as_slice())
    }

    /// Computes the secret shared with the holder of the public value
    /// `peer`: `peer^private mod p`, at the width of the modulus. The peer's
    /// value is taken as it is given, but one that is not below the modulus
    /// is refused, as is an exponentiation that fails.
    pub fn compute_shared_secret(&self, peer: &[u8]) -> (r: Result<SharedSecret, CryptoError>)
        ensures
            secret_of_outcome(r) == agreement_outcome(self@.modulus, self@.private, peer@),
            r matches Ok(secret) ==> secret@.len() == modulus_width(self@.modulus),
    {
        proof {
            use_type_invariant(self);
            lemma_be_bytes_len(
                power_mod(be_nat(peer@), be_nat(self@.private), be_nat(self@.modulus)),
                modulus_width(self@.modulus),
            );
        }
        if peer.len() > MAX_NUMBER_LEN || !less_than(peer, self.modulus.as_slice()) {
            return Err(CryptoError::KeyAgreement);
        }
        let width = significant_len(self.modulus.as_slice());
        let outcome = mod_exp(peer, self.private.as_slice(), self.modulus.as_slice());
        proof {
            lemma_residue_fits(pow(be_nat(peer@) as int, be_nat(self.private@)), self.modulus@);
        }
        match settle_power(outcome, width, CryptoError::KeyAgreement) {
            Ok(bytes) => Ok(SharedSecret { bytes }),
            Err(e) => Err(e),
        }
    }
}

/// Makes a key pair by the given policy. A fixed exponent is used as it is,
/// so the result is that of [`DhKeyPair::from_exponent`]. A random exponent
/// is drawn from below the modulus; whatever is drawn, the pair returned is
/// the one that [`DhKeyPair::from_exponent`] makes of it.
pub fn generate_key_pair(params: &DhParameters, policy: KeyPolicy) -> (r: Result<
    DhKeyPair,
    CryptoError,
>)
    ensures
        policy matches KeyPolicy::Fixed(private) ==> public_of_outcome(r) == key_pair_outcome(
            params.modulus@,
            params.generator@,
            private@,
        ),
        !usable(params.modulus@, params.generator@) ==> r is Err,
        r matches Err(e) ==> e == CryptoError::InvalidParameter,
        r matches Ok(pair) ==> {
            &&& pair@.modulus == params.modulus@
            &&& pair@.generator == params.generator@
            &&& consistent(pair@)
            &&& key_pair_outcome(params.modulus@, params.generator@, pair@.private) == Ok::<
                Seq<u8>,
                CryptoError,
            >(pair@.public)
            &&& policy is Random ==> be_nat(pair@.private) < be_nat(params.modulus@)
        },
{
    match policy {
        KeyPolicy::Fixed(private) => DhKeyPair::from_exponent(params, private),
        KeyPolicy::Random => {
            if params.modulus.len() > MAX_NUMBER_LEN {
                return Err(CryptoError::InvalidParameter);
            }
            match random_below(params.modulus.as_slice()) {
                Ok(private) => DhKeyPair::from_exponent(params, private),
                Err(_) => Err(CryptoError::InvalidParameter),
            }
        },
    }
}

/// Makes the key pair of a configured session: the private exponent is the
/// hexadecimal number in `config.priv_key`.
pub fn dh_generate_key(params: &DhParameters, config: &Config) -> (r: Result<
    DhKeyPair,
    CryptoError,
>)
    ensures
        public_of_outcome(r) == hex_key_pair_outcome(
            params.modulus@,
            params.generator@,
            config.priv_key@,
        ),
        r matches Ok(pair) ==> pair@.modulus == params.modulus@ && pair@.generator
            == params.generator@ && hex_number(config.priv_key@) == Some(pair@.private)
            && consistent(pair@),
{
    let text = config.priv_key.as_str();
    if has_nul(text) {
        return Err(CryptoError::InvalidParameter);
    }
    match number_from_hex(text) {
        Ok(private) => DhKeyPair::from_exponent(params, private),
        Err(_) => Err(CryptoError::InvalidParameter),
    }
}

} // verus!
