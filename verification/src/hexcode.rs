//! Hex text as it appears on the pairing wire: every binary quantity in a
//! pairing exchange is hex-encoded. The codec itself comes from the `hex`
//! crate; its behaviour is pinned down exactly by the spec functions here.

use vstd::prelude::*;

verus! {

/// `c` is an ASCII hex digit, in either case.
pub open spec fn is_hex_digit(c: u8) -> bool {
    (48 <= c <= 57) || (97 <= c <= 102) || (65 <= c <= 70)
}

/// The numeric value of the ASCII hex digit `c`.
pub open spec fn hex_digit_value(c: u8) -> u8
    recommends
        is_hex_digit(c),
{
    if 48 <= c <= 57 {
        (c - 48) as u8
    } else if 97 <= c <= 102 {
        (c - 87) as u8
    } else {
        (c - 55) as u8
    }
}

/// The lowercase ASCII hex digit for the nibble `n`.
pub open spec fn hex_digit_of(n: u8) -> u8
    recommends
        n < 16,
{
    if n < 10 {
        (n + 48) as u8
    } else {
        (n + 87) as u8
    }
}

/// `s` is well-formed hex text: even length, hex digits throughout.
pub open spec fn hex_text_ok(s: Seq<u8>) -> bool {
    s.len() % 2 == 0 && (forall|i: int| 0 <= i < s.len() ==> is_hex_digit(#[trigger] s[i]))
}

/// The bytes denoted by the hex text `s`.
pub open spec fn hex_bytes_of(s: Seq<u8>) -> Seq<u8>
    recommends
        hex_text_ok(s),
{
    Seq::new((s.len() / 2) as nat, |i: int| (hex_digit_value(s[2 * i]) * 16 + hex_digit_value(s[2 * i + 1])) as u8)
}

/// The lowercase hex text denoting the bytes `b`.
pub open spec fn hex_text_of(b: Seq<u8>) -> Seq<u8> {
    Seq::new((2 * b.len()) as nat, |i: int| if i % 2 == 0 { hex_digit_of((b[i / 2] / 16) as u8) } else { hex_digit_of((b[i / 2] % 16) as u8) })
}

/// Relies on `hex::decode`: accepts exactly even-length strings of hex
/// digits in either case, and maps each digit pair to one byte.
#[verifier::external_body]
pub(crate) fn hex_decode(s: &[u8]) -> (r: Result<Vec<u8>, ()>)
    ensures
        (r is Ok) == hex_text_ok(s@),
        r matches Ok(v) ==> v@ == hex_bytes_of(s@),
{
    hex::decode(s).map_err(|_| ())
}

/// Relies on `hex::encode`: two lowercase hex digits for each input byte.
#[verifier::external_body]
pub(crate) fn hex_encode(b: &[u8]) -> (r: Vec<u8>)
    ensures
        r@ == hex_text_of(b@),
{
    hex::encode(b).into_bytes()
}

} // verus!
