//! Textual hexadecimal encoding of byte strings: lowercase encoding,
//! case-insensitive decoding with exact error conditions, and the
//! round-trip law connecting them.

use vstd::prelude::*;
use crate::errors::KemError;

verus! {

/// The lowercase hex digit for a value below 16.
pub open spec fn spec_hex_digit(n: u8) -> u8 {
    if n < 10 {
        (48 + n) as u8
    } else {
        (87 + n) as u8
    }
}

/// Whether a byte is an ASCII hex digit, either case.
pub open spec fn is_hex_digit_byte(c: u8) -> bool {
    (48 <= c <= 57) || (97 <= c <= 102) || (65 <= c <= 70)
}

/// The value of an ASCII hex digit byte.
pub open spec fn spec_hex_val(c: u8) -> u8 {
    if 48 <= c <= 57 {
        (c - 48) as u8
    } else if 97 <= c <= 102 {
        (c - 87) as u8
    } else {
        (c - 55) as u8
    }
}

/// Encode bytes as lowercase ASCII hex digits, two per byte.
pub fn hex_encode_bytes(b: &Vec<u8>) -> (r: Vec<u8>)
    ensures
        r@.len() == 2 * b@.len(),
        forall|i: int|
            0 <= i < b@.len() ==> r@[2 * i] == spec_hex_digit((b@[i] >> 4) & 0xf) && r@[2 * i
                + 1] == spec_hex_digit(b@[i] & 0xf),
        forall|i: int| 0 <= i < 2 * b@.len() ==> is_hex_digit_byte(#[trigger] r@[i]),
{
    let blen: usize = b.len();
    let mut out: Vec<u8> = Vec::new();
    let mut i: usize = 0;
    while i < blen
        invariant
            blen == b@.len(),
            i <= blen,
            out@.len() == 2 * i,
            forall|j: int|
                0 <= j < i ==> out@[2 * j] == spec_hex_digit((b@[j] >> 4) & 0xf) && out@[2 * j
                    + 1] == spec_hex_digit(b@[j] & 0xf),
            forall|j: int| 0 <= j < 2 * i ==> is_hex_digit_byte(#[trigger] out@[j]),
        decreases blen - i,
    {
        let x: u8 = b[i];
        let hi: u8 = (x >> 4) & 0xf;
        let lo: u8 = x & 0xf;
        proof {
            assert(hi < 16 && lo < 16) by (bit_vector)
                requires
                    hi == (x >> 4) & 0xf,
                    lo == x & 0xf,
            ;
        }
        out.push(hex_digit(hi));
        out.push(hex_digit(lo));
        i += 1;
    }
    out
}

/// The lowercase digit byte for a nibble.
fn hex_digit(n: u8) -> (r: u8)
    requires
        n < 16,
    ensures
        r == spec_hex_digit(n),
        is_hex_digit_byte(r),
{
    if n < 10 {
        48 + n
    } else {
        87 + n
    }
}

/// Decode an ASCII hex string into bytes.  Succeeds exactly when the
/// length is even and every byte is a hex digit of either case; each
/// output byte combines two digit values.
pub fn hex_decode_bytes(s: &Vec<u8>) -> (r: Result<Vec<u8>, KemError>)
    ensures
        r is Ok <==> s@.len() % 2 == 0 && (forall|i: int|
            0 <= i < s@.len() ==> is_hex_digit_byte(#[trigger] s@[i])),
        r is Err ==> r == Result::<Vec<u8>, KemError>::Err(KemError::InvalidInputLength),
        r is Ok ==> r->Ok_0@.len() == s@.len() / 2 && (forall|i: int|
            0 <= i < s@.len() / 2 ==> r->Ok_0@[i] == spec_hex_val(s@[2 * i]) * 16 + spec_hex_val(
                s@[2 * i + 1],
            )),
{
    let slen: usize = s.len();
    if slen % 2 != 0 {
        return Err(KemError::InvalidInputLength);
    }
    let mut out: Vec<u8> = Vec::new();
    let mut i: usize = 0;
    while i < slen / 2
        invariant
            slen == s@.len(),
            slen % 2 == 0,
            i <= slen / 2,
            out@.len() == i,
            forall|j: int| 0 <= j < 2 * i ==> is_hex_digit_byte(#[trigger] s@[j]),
            forall|j: int|
                0 <= j < i ==> out@[j] == spec_hex_val(s@[2 * j]) * 16 + spec_hex_val(
                    s@[2 * j + 1],
                ),
        decreases slen / 2 - i,
    {
        let c0: u8 = s[2 * i];
        let c1: u8 = s[2 * i + 1];
        let v0: u8 = match hex_val(c0) {
            Some(v) => v,
            None => { return Err(KemError::InvalidInputLength) },
        };
        let v1: u8 = match hex_val(c1) {
            Some(v) => v,
            None => { return Err(KemError::InvalidInputLength) },
        };
        out.push(v0 * 16 + v1);
        i += 1;
    }
    proof {
        assert forall|j: int| 0 <= j < s@.len() implies is_hex_digit_byte(#[trigger] s@[j]) by {
            assert(j < 2 * (slen / 2));
        }
    }
    Ok(out)
}

/// The value of one digit byte, or nothing for a non-digit.
fn hex_val(c: u8) -> (r: Option<u8>)
    ensures
        r is Some <==> is_hex_digit_byte(c),
        r is Some ==> r == Option::Some(spec_hex_val(c)) && spec_hex_val(c) < 16,
{
    if 48 <= c && c <= 57 {
        Some(c - 48)
    } else if 97 <= c && c <= 102 {
        Some(c - 87)
    } else if 65 <= c && c <= 70 {
        Some(c - 55)
    } else {
        None
    }
}

/// Relies on String::from_utf8: a string of ASCII bytes decodes to the
/// string whose characters are exactly those bytes, and ASCII input never
/// fails to decode.
#[verifier::external_body]
fn ascii_string(v: Vec<u8>) -> (r: String)
    requires
        forall|i: int| 0 <= i < v@.len() ==> v@[i] < 128,
    ensures
        r@.len() == v@.len(),
        forall|i: int| 0 <= i < v@.len() ==> r@[i] == v@[i] as char,
{
    String::from_utf8(v).unwrap()
}

/// Encode bytes as a lowercase hexadecimal string, two digits per byte;
/// every character of the result is a hexadecimal digit.
pub fn hex_encode(b: &Vec<u8>) -> (r: String)
    ensures
        r@.len() == 2 * b@.len(),
        forall|i: int|
            0 <= i < b@.len() ==> r@[2 * i] == spec_hex_digit((b@[i] >> 4) & 0xf) as char && r@[2
                * i + 1] == spec_hex_digit(b@[i] & 0xf) as char,
        forall|i: int| 0 <= i < 2 * b@.len() ==> is_hex_digit_byte(#[trigger] r@[i] as u8),
{
    let enc: Vec<u8> = hex_encode_bytes(b);
    proof {
        assert forall|i: int| 0 <= i < enc@.len() implies enc@[i] < 128 by {
            assert(is_hex_digit_byte(enc@[i]));
        }
    }
    let r: String = ascii_string(enc);
    proof {
        assert forall|i: int| 0 <= i < 2 * b@.len() implies is_hex_digit_byte(
            #[trigger] r@[i] as u8,
        ) by {
            assert(r@[i] == enc@[i] as char);
            assert(is_hex_digit_byte(enc@[i]));
        }
    }
    r
}

/// Decoding the encoding of any byte string gives the bytes back:
/// the textual form is lossless.
pub proof fn lemma_hex_roundtrip(b: Seq<u8>, enc: Seq<u8>, dec: Seq<u8>)
    requires
        enc.len() == 2 * b.len(),
        forall|i: int|
            0 <= i < b.len() ==> enc[2 * i] == spec_hex_digit((b[i] >> 4) & 0xf) && enc[2 * i
                + 1] == spec_hex_digit(b[i] & 0xf),
        dec.len() == enc.len() / 2,
        forall|i: int|
            0 <= i < enc.len() / 2 ==> dec[i] == spec_hex_val(enc[2 * i]) * 16 + spec_hex_val(
                enc[2 * i + 1],
            ),
    ensures
        dec =~= b,
{
    assert forall|i: int| 0 <= i < b.len() implies dec[i] == b[i] by {
        let x = b[i];
        let hi = (x >> 4) & 0xf;
        let lo = x & 0xf;
        assert(hi < 16 && lo < 16 && ((hi * 16 + lo) as u8) == x) by (bit_vector)
            requires
                hi == (x >> 4) & 0xf,
                lo == x & 0xf,
        ;
        assert(spec_hex_val(spec_hex_digit(hi)) == hi);
        assert(spec_hex_val(spec_hex_digit(lo)) == lo);
    }
}

} // verus!
