use vstd::prelude::*;
use vstd::string::StringSliceAdditionalSpecFns;

use crate::digits::{hex_digit_val, is_hex_digit};

verus! {

/// The lowercase base-16 digit character for a value below 16.
pub open spec fn hex_char_of(v: u8) -> char {
    if v == 0 {
        '0'
    } else if v == 1 {
        '1'
    } else if v == 2 {
        '2'
    } else if v == 3 {
        '3'
    } else if v == 4 {
        '4'
    } else if v == 5 {
        '5'
    } else if v == 6 {
        '6'
    } else if v == 7 {
        '7'
    } else if v == 8 {
        '8'
    } else if v == 9 {
        '9'
    } else if v == 10 {
        'a'
    } else if v == 11 {
        'b'
    } else if v == 12 {
        'c'
    } else if v == 13 {
        'd'
    } else if v == 14 {
        'e'
    } else {
        'f'
    }
}

/// The lowercase base-16 digit byte for a value below 16.
pub open spec fn hex_byte_of(v: u8) -> u8 {
    if v < 10 {
        (48 + v) as u8
    } else {
        (87 + v) as u8
    }
}

/// The lowercase hex text of a byte string, two digits per byte, high digit
/// first, as characters.
pub open spec fn hex_chars_of(b: Seq<u8>) -> Seq<char> {
    Seq::new(
        b.len() * 2,
        |i: int|
            if i % 2 == 0 {
                hex_char_of(b[i / 2] / 16)
            } else {
                hex_char_of(b[i / 2] % 16)
            },
    )
}

/// The lowercase hex text of a byte string, as ASCII bytes.
pub open spec fn hex_bytes_of(b: Seq<u8>) -> Seq<u8> {
    Seq::new(
        b.len() * 2,
        |i: int|
            if i % 2 == 0 {
                hex_byte_of(b[i / 2] / 16)
            } else {
                hex_byte_of(b[i / 2] % 16)
            },
    )
}

/// Valid hex text, read as its bytes: even length, base-16 digits throughout,
/// either case.
pub open spec fn is_hex(s: Seq<u8>) -> bool {
    s.len() % 2 == 0 && forall|i: int| 0 <= i < s.len() ==> is_hex_digit(#[trigger] s[i])
}

/// The bytes an even-length string of base-16 digits spells, two digits per
/// byte, high digit first.
pub open spec fn bytes_of_hex(s: Seq<u8>) -> Seq<u8> {
    Seq::new(
        s.len() / 2,
        |k: int| (hex_digit_val(s[2 * k]) * 16 + hex_digit_val(s[2 * k + 1])) as u8,
    )
}

/// Encoding a byte string as hex text and reading that text back yields the
/// original bytes: the two sides of the codec are inverse. The character form
/// of the encoding spells the same ASCII bytes.
pub proof fn lemma_hex_roundtrip(b: Seq<u8>)
    ensures
        is_hex(hex_bytes_of(b)),
        bytes_of_hex(hex_bytes_of(b)) == b,
        hex_chars_of(b).len() == hex_bytes_of(b).len(),
        forall|i: int|
            0 <= i < hex_bytes_of(b).len() ==> (hex_chars_of(b)[i] as u8) == hex_bytes_of(b)[i],
{
    let h = hex_bytes_of(b);
    assert forall|i: int| 0 <= i < h.len() implies is_hex_digit(#[trigger] h[i]) by {
        let v = if i % 2 == 0 {
            b[i / 2] / 16
        } else {
            b[i / 2] % 16
        };
        assert(v < 16);
    }
    assert forall|k: int| 0 <= k < b.len() implies bytes_of_hex(h)[k] == b[k] by {
        let hi = b[k] / 16;
        let lo = b[k] % 16;
        assert(h[2 * k] == hex_byte_of(hi));
        assert(h[2 * k + 1] == hex_byte_of(lo));
        assert(hex_digit_val(hex_byte_of(hi)) == hi);
        assert(hex_digit_val(hex_byte_of(lo)) == lo);
        assert(hi * 16 + lo == b[k]);
    }
    assert(bytes_of_hex(h) =~= b);
}

/// Hex encoding is injective: distinct byte strings read back distinct.
pub proof fn lemma_hex_injective(a: Seq<u8>, b: Seq<u8>)
    requires
        hex_bytes_of(a) == hex_bytes_of(b),
    ensures
        a == b,
{
    lemma_hex_roundtrip(a);
    lemma_hex_roundtrip(b);
}

/// Relies on hex::encode: one pair of lowercase base-16 digits per input
/// byte, high digit first, in input order.
#[verifier::external_body]
pub fn hex_encode(b: &Vec<u8>) -> (r: String)
    ensures
        r@ == hex_chars_of(b@),
{
    hex::encode(&b[..])
}

/// Relies on hex::decode: it accepts exactly the even-length strings of
/// base-16 digits of either case, and returns the bytes they spell.
#[verifier::external_body]
pub fn hex_decode(s: &str) -> (r: Option<Vec<u8>>)
    ensures
        match r {
            Some(v) => is_hex(s.spec_bytes()) && v@ == bytes_of_hex(s.spec_bytes()),
            None => !is_hex(s.spec_bytes()),
        },
{
    hex::decode(s).ok()
}

} // verus!
