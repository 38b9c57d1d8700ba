//! Hex encoding of raw bytes, and recognizing hex strings.
//!
//! The relay hex-encodes a serialized transaction before broadcasting it, and
//! recognizes a broadcast acceptance by the fixed-length hex transaction id
//! the network answers with.

use vstd::prelude::*;

verus! {

/// The lowercase hex digit of a value below 16.
pub open spec fn hex_digit(n: u8) -> char {
    if n == 0 {
        '0'
    } else if n == 1 {
        '1'
    } else if n == 2 {
        '2'
    } else if n == 3 {
        '3'
    } else if n == 4 {
        '4'
    } else if n == 5 {
        '5'
    } else if n == 6 {
        '6'
    } else if n == 7 {
        '7'
    } else if n == 8 {
        '8'
    } else if n == 9 {
        '9'
    } else if n == 10 {
        'a'
    } else if n == 11 {
        'b'
    } else if n == 12 {
        'c'
    } else if n == 13 {
        'd'
    } else if n == 14 {
        'e'
    } else {
        'f'
    }
}

/// The lowercase hex encoding of a byte sequence: two digits per byte, high
/// nibble first.
pub open spec fn hex_of(bytes: Seq<u8>) -> Seq<char> {
    Seq::new(
        2 * bytes.len(),
        |i: int|
            if i % 2 == 0 {
                hex_digit((bytes[i / 2] / 16) as u8)
            } else {
                hex_digit((bytes[i / 2] % 16) as u8)
            },
    )
}

/// Relies on hex::encode: the encoding is two lowercase hex digits per byte,
/// high nibble first.
#[verifier::external_body]
pub(crate) fn to_hex(bytes: &Vec<u8>) -> (r: String)
    ensures
        r@ == hex_of(bytes@),
{
    hex::encode(bytes.as_slice())
}

/// Whether a character is a hex digit (either case).
pub open spec fn is_hex_char(c: char) -> bool {
    ('0' <= c && c <= '9') || ('a' <= c && c <= 'f') || ('A' <= c && c <= 'F')
}

/// Whether a string is a Bitcoin transaction id as the network prints it:
/// exactly 64 hex digits.
pub open spec fn spec_is_txid(s: Seq<char>) -> bool {
    s.len() == 64 && (forall|i: int| 0 <= i < 64 ==> is_hex_char(#[trigger] s[i]))
}

/// Decide whether a string is a 64-digit hex transaction id.
pub fn is_txid_like(s: &str) -> (r: bool)
    ensures
        r == spec_is_txid(s@),
{
    let n = s.unicode_len();
    if n != 64 {
        return false;
    }
    let mut i: usize = 0;
    while i < 64
        invariant
            0 <= i <= 64,
            s@.len() == 64,
            forall|j: int| 0 <= j < i ==> is_hex_char(#[trigger] s@[j]),
        decreases 64 - i,
    {
        let c = s.get_char(i);
        let ok = (('0' <= c && c <= '9') || ('a' <= c && c <= 'f')) || ('A' <= c && c <= 'F');
        if !ok {
            return false;
        }
        i += 1;
    }
    true
}

} // verus!
