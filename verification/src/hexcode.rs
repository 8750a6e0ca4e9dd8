//! Hexadecimal text, decoded and encoded by the `hex` crate.

use hex::FromHexError;
use vstd::prelude::*;

verus! {

/// Tells whether `c` is one of `0`-`9`, `a`-`f` or `A`-`F`.
pub open spec fn is_hex_digit(c: u8) -> bool {
    (0x30 <= c <= 0x39) || (0x41 <= c <= 0x46) || (0x61 <= c <= 0x66)
}

/// The value of a hexadecimal digit, in either case.
pub open spec fn hex_digit_value(c: u8) -> nat {
    if 0x30 <= c <= 0x39 {
        (c - 0x30) as nat
    } else if 0x41 <= c <= 0x46 {
        (c - 0x41 + 10) as nat
    } else {
        (c - 0x61 + 10) as nat
    }
}

/// Tells whether `text` is made of hexadecimal digits, two for each of
/// `count` bytes.
pub open spec fn is_hex_of_len(text: Seq<u8>, count: nat) -> bool {
    &&& text.len() == 2 * count
    &&& forall|i: int| 0 <= i < text.len() ==> is_hex_digit(#[trigger] text[i])
}

/// The bytes that `text` spells, two digits to a byte, high digit first.
pub open spec fn hex_decoded(text: Seq<u8>) -> Seq<u8> {
    Seq::new(
        text.len() / 2,
        |i: int| (16 * hex_digit_value(text[2 * i]) + hex_digit_value(text[2 * i + 1])) as u8,
    )
}

/// The upper-case hexadecimal digit of a value below sixteen.
pub open spec fn upper_hex_digit(value: nat) -> char
    recommends
        value < 16,
{
    seq![
        '0',
        '1',
        '2',
        '3',
        '4',
        '5',
        '6',
        '7',
        '8',
        '9',
        'A',
        'B',
        'C',
        'D',
        'E',
        'F',
    ][value as int]
}

/// The text that spells `bytes`: two upper-case digits to a byte, high digit
/// first.
pub open spec fn hex_encoded(bytes: Seq<u8>) -> Seq<char> {
    Seq::new(
        2 * bytes.len(),
        |i: int|
            if i % 2 == 0 {
                upper_hex_digit((bytes[i / 2] / 16) as nat)
            } else {
                upper_hex_digit((bytes[i / 2] % 16) as nat)
            },
    )
}

/// Encodes `bytes` with `hex::encode_upper`.
///
/// Trusted: the text handed back holds, for each byte in order, the
/// upper-case digit of its high half and then that of its low half. This is
/// what the function's source does with its table of sixteen digits.
#[verifier::external_body]
pub(crate) fn encode_hex(bytes: &[u8]) -> (r: String)
    ensures
        r@ == hex_encoded(bytes@),
{
    hex::encode_upper(bytes)
}

/// Decodes `text` into `count` bytes with `hex::decode_to_slice`.
///
/// Trusted: the call succeeds exactly when `text` holds two hexadecimal
/// digits, of either case, for each of the `count` bytes, and then hands back
/// the bytes they spell. This is what the function's source does: it refuses
/// an odd length, then a length other than twice the output's, then the
/// first byte that is no digit.
#[verifier::external_body]
pub(crate) fn decode_hex(text: &[u8], count: usize) -> (r: Result<Vec<u8>, FromHexError>)
    ensures
        r is Ok <==> is_hex_of_len(text@, count as nat),
        r matches Ok(v) ==> v@ == hex_decoded(text@),
{
    let mut out = vec![0u8; count];
    hex::decode_to_slice(text, &mut out)?;
    Ok(out)
}

} // verus!
