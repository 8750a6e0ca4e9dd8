//! The first-layer envelope: its layout and its decoding.
//!
//! ```text
//! offset  size  field
//! 0       1     marker, ignored
//! 1       4     n, the size of the server's public value, big-endian
//! 5       n     the server's public value, big-endian
//! 5+n     16    the initialisation vector of the first layer
//! 21+n    1     the length loss: bytes to cut from the decrypted first layer
//! 22+n    rest  the ciphertext of the first layer
//! ```
//!
//! Decoding is purely structural: no byte of the key or the ciphertext is
//! interpreted here.

use crate::bigend::{be_bytes, be_nat, lemma_be_bytes_len, lemma_be_nat_of_be_bytes, span};
use crate::error::CryptoError;
use vstd::prelude::*;
use vstd::slice::slice_subrange;
use vstd::slice::slice_to_vec;

verus! {

/// Bytes before the server's public value: the marker and the size field.
pub const HEADER_LEN: usize = 5;

/// Bytes in the initialisation vector.
pub const IV_LEN: usize = 16;

/// Bytes an envelope holds besides the public value and the ciphertext.
pub const FIXED_LEN: usize = 22;

/// What an envelope holds, as mathematical values.
pub struct EnvelopeView {
    pub server_public_key: Seq<u8>,
    pub iv: Seq<u8>,
    pub length_loss: u8,
    pub ciphertext: Seq<u8>,
}

/// A decoded envelope. Its initialisation vector is always sixteen bytes
/// long.
pub struct Envelope {
    server_public_key: Vec<u8>,
    iv: Vec<u8>,
    length_loss: u8,
    ciphertext: Vec<u8>,
}

/// The size that `raw` announces for the server's public value.
pub open spec fn announced_key_size(raw: Seq<u8>) -> nat
    recommends
        raw.len() >= HEADER_LEN,
{
    be_nat(raw.subrange(1, HEADER_LEN as int))
}

/// Tells whether `raw` is long enough for the fields it announces.
pub open spec fn is_complete(raw: Seq<u8>) -> bool {
    raw.len() >= HEADER_LEN && raw.len() >= announced_key_size(raw) + FIXED_LEN
}

/// The fields of a complete `raw`, cut out at their offsets.
pub open spec fn fields_of(raw: Seq<u8>) -> EnvelopeView
    recommends
        is_complete(raw),
{
    let n = announced_key_size(raw) as int;
    EnvelopeView {
        server_public_key: raw.subrange(HEADER_LEN as int, HEADER_LEN + n),
        iv: raw.subrange(HEADER_LEN + n, HEADER_LEN + n + IV_LEN),
        length_loss: raw[HEADER_LEN + n + IV_LEN],
        ciphertext: raw.subrange(FIXED_LEN + n, raw.len() as int),
    }
}

/// The bytes of an envelope with the given marker and fields: the layout
/// written out, with the size of the public value in four bytes.
pub open spec fn framed(
    marker: u8,
    server_public_key: Seq<u8>,
    iv: Seq<u8>,
    length_loss: u8,
    ciphertext: Seq<u8>,
) -> Seq<u8> {
    seq![marker] + be_bytes(server_public_key.len(), 4) + server_public_key + iv
        + seq![length_loss] + ciphertext
}

/// What decoding `raw` gives: the fields, or the format error.
pub open spec fn decoded(raw: Seq<u8>) -> Result<EnvelopeView, CryptoError> {
    if is_complete(raw) {
        Ok(fields_of(raw))
    } else {
        Err(CryptoError::EnvelopeFormat)
    }
}

/// The outcome of a decoding, with the envelope taken by its view.
pub open spec fn outcome_view(r: Result<Envelope, CryptoError>) -> Result<
    EnvelopeView,
    CryptoError,
> {
    match r {
        Ok(e) => Ok(e@),
        Err(e) => Err(e),
    }
}

impl View for Envelope {
    type V = EnvelopeView;

    closed spec fn view(&self) -> EnvelopeView {
        EnvelopeView {
            server_public_key: self.server_public_key@,
            iv: self.iv@,
            length_loss: self.length_loss,
            ciphertext: self.ciphertext@,
        }
    }
}

/// The number spelled by four bytes is the sum of their weighted values.
proof fn lemma_be_nat_of_four(s: Seq<u8>)
    requires
        s.len() == 4,
    ensures
        be_nat(s) == s[0] as nat * 16777216 + s[1] as nat * 65536 + s[2] as nat * 256
            + s[3] as nat,
{
    let s3 = s.drop_last();
    let s2 = s3.drop_last();
    let s1 = s2.drop_last();
    assert(be_nat(s1.drop_last()) == 0);
    assert(be_nat(s1) == s[0] as nat);
    assert(be_nat(s2) == be_nat(s1) * 256 + s[1] as nat);
    assert(be_nat(s3) == be_nat(s2) * 256 + s[2] as nat);
    assert(be_nat(s) == be_nat(s3) * 256 + s[3] as nat);
}

/// A buffer that is shorter than the fields it announces does not decode:
/// it gives the format error.
pub proof fn lemma_short_buffer_refused(raw: Seq<u8>)
    requires
        raw.len() < HEADER_LEN || raw.len() < HEADER_LEN + announced_key_size(raw) + 17,
    ensures
        decoded(raw) == Err::<EnvelopeView, CryptoError>(CryptoError::EnvelopeFormat),
{
}

/// A buffer whose size field asks for more bytes than follow it does not
/// decode: it gives the format error.
pub proof fn lemma_oversized_key_refused(raw: Seq<u8>)
    requires
        raw.len() >= HEADER_LEN,
        announced_key_size(raw) > raw.len() - HEADER_LEN,
    ensures
        decoded(raw) == Err::<EnvelopeView, CryptoError>(CryptoError::EnvelopeFormat),
{
}

/// A buffer that decodes is its header, then the four fields in order: the
/// fields have the announced sizes and leave no byte out.
pub proof fn lemma_fields_cover_buffer(raw: Seq<u8>)
    requires
        is_complete(raw),
    ensures
        fields_of(raw).server_public_key.len() == announced_key_size(raw),
        fields_of(raw).iv.len() == IV_LEN,
        raw == raw.subrange(0, HEADER_LEN as int) + fields_of(raw).server_public_key + fields_of(
            raw,
        ).iv + seq![fields_of(raw).length_loss] + fields_of(raw).ciphertext,
{
    let f = fields_of(raw);
    assert(raw =~= raw.subrange(0, HEADER_LEN as int) + f.server_public_key + f.iv
        + seq![f.length_loss] + f.ciphertext);
}

/// Decoding undoes framing: whatever the marker, the bytes written out for
/// four fields decode to those fields, so long as the size of the public
/// value fits its four bytes and the initialisation vector has sixteen.
pub proof fn lemma_decoded_of_framed(
    marker: u8,
    server_public_key: Seq<u8>,
    iv: Seq<u8>,
    length_loss: u8,
    ciphertext: Seq<u8>,
)
    requires
        server_public_key.len() <= u32::MAX,
        iv.len() == IV_LEN,
    ensures
        decoded(framed(marker, server_public_key, iv, length_loss, ciphertext)) == Ok::<
            EnvelopeView,
            CryptoError,
        >(EnvelopeView { server_public_key, iv, length_loss, ciphertext }),
{
    let raw = framed(marker, server_public_key, iv, length_loss, ciphertext);
    let size = be_bytes(server_public_key.len(), 4);
    let n = server_public_key.len() as int;
    assert(span(4) == 4294967296) by {
        reveal_with_fuel(span, 5);
    }
    lemma_be_bytes_len(server_public_key.len(), 4);
    lemma_be_nat_of_be_bytes(server_public_key.len(), 4);
    assert(raw.subrange(1, HEADER_LEN as int) =~= size);
    assert(raw.len() == n + FIXED_LEN + ciphertext.len());
    let f = fields_of(raw);
    assert(f.server_public_key =~= server_public_key);
    assert(f.iv =~= iv);
    assert(f.ciphertext =~= ciphertext);
    assert(f.length_loss == length_loss);
}

/// Decoding is repeatable: two decodings of the same bytes give the same
/// fields, or the same error.
pub proof fn lemma_parse_is_repeatable(
    raw: Seq<u8>,
    first: Result<Envelope, CryptoError>,
    second: Result<Envelope, CryptoError>,
)
    requires
        outcome_view(first) == decoded(raw),
        outcome_view(second) == decoded(raw),
    ensures
        outcome_view(first) == outcome_view(second),
        first matches Ok(a) ==> second matches Ok(b) && a@ == b@,
        first matches Err(a) ==> second matches Err(b) && a == b,
{
}

impl Envelope {
    #[verifier::type_invariant]
    spec fn well_formed(self) -> bool {
        self.iv@.len() == IV_LEN
    }

    /// Builds an envelope from its fields. There is none unless the
    /// initialisation vector is sixteen bytes long.
    pub fn new(server_public_key: Vec<u8>, iv: Vec<u8>, length_loss: u8, ciphertext: Vec<u8>) -> (r:
        Option<Envelope>)
        ensures
            r is Some <==> iv@.len() == IV_LEN,
            r matches Some(e) ==> e@ == (EnvelopeView {
                server_public_key: server_public_key@,
                iv: iv@,
                length_loss,
                ciphertext: ciphertext@,
            }),
    {
        if iv.len() != IV_LEN {
            return None;
        }
        Some(Envelope { server_public_key, iv, length_loss, ciphertext })
    }

    /// Decodes an envelope. The marker byte is skipped; the size field says
    /// where the public value ends; the rest follows at fixed distances. A
    /// buffer shorter than its size field asks for is refused.
    pub fn parse(raw: &[u8]) -> (r: Result<Envelope, CryptoError>)
        ensures
            outcome_view(r) == decoded(raw@),
    {
        let total = raw.len();
        if total < FIXED_LEN {
            return Err(CryptoError::EnvelopeFormat);
        }
        proof {
            lemma_be_nat_of_four(raw@.subrange(1, HEADER_LEN as int));
        }
        let announced: u64 = (raw[1] as u64) * 16777216 + (raw[2] as u64) * 65536 + (raw[3] as u64)
            * 256 + (raw[4] as u64);
        assert(announced == announced_key_size(raw@));
        if announced > (total - FIXED_LEN) as u64 {
            return Err(CryptoError::EnvelopeFormat);
        }
        let n: usize = announced as usize;
        let key_end: usize = HEADER_LEN + n;
        let iv_end: usize = key_end + IV_LEN;
        let server_public_key = slice_to_vec(slice_subrange(raw, HEADER_LEN, key_end));
        let iv = slice_to_vec(slice_subrange(raw, key_end, iv_end));
        let length_loss = raw[iv_end];
        let ciphertext = slice_to_vec(slice_subrange(raw, iv_end + 1, total));
        Ok(Envelope { server_public_key, iv, length_loss, ciphertext })
    }

    /// The server's public value, as it stood in the envelope.
    pub fn server_public_key(&self) -> (r: &Vec<u8>)
        ensures
            r@ == self@.server_public_key,
    {
        &self.server_public_key
    }

    /// The size of the server's public value.
    pub fn server_public_key_size(&self) -> (r: usize)
        ensures
            r == self@.server_public_key.len(),
    {
        self.server_public_key.len()
    }

    /// The initialisation vector of the first layer.
    pub fn iv(&self) -> (r: &Vec<u8>)
        ensures
            r@ == self@.iv,
            r@.len() == IV_LEN,
    {
        proof {
            use_type_invariant(self);
        }
        &self.iv
    }

    /// The number of bytes to cut from the decrypted first layer.
    pub fn length_loss(&self) -> (r: u8)
        ensures
            r == self@.length_loss,
    {
        self.length_loss
    }

    /// The length that the envelope announces for the plaintext of the
    /// first layer: that of the ciphertext less the length loss. There is
    /// none where the loss is the larger.
    pub fn plaintext_len(&self) -> (r: Option<usize>)
        ensures
            match r {
                Some(len) => len == self@.ciphertext.len() - self@.length_loss,
                None => self@.length_loss > self@.ciphertext.len(),
            },
    {
        let loss = self.length_loss as usize;
        if loss > self.ciphertext.len() {
            None
        } else {
            Some(self.ciphertext.len() - loss)
        }
    }

    /// The ciphertext of the first layer.
    pub fn ciphertext(&self) -> (r: &Vec<u8>)
        ensures
            r@ == self@.ciphertext,
    {
        &self.ciphertext
    }
}

} // verus!
