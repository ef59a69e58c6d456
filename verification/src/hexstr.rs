//! Hexadecimal names for cache files.
//!
//! Cache files are named by the lowercase-hex encoding of a 32-byte content
//! hash; the evictor decodes such names back into hashes when it scans the
//! cache directory at startup.

use vstd::prelude::*;

verus! {

/// True for the characters that may appear in a hex encoding
/// (both cases are accepted when decoding).
pub open spec fn is_hex_digit(c: char) -> bool {
    ('0' <= c && c <= '9') || ('a' <= c && c <= 'f') || ('A' <= c && c <= 'F')
}

/// The numeric value of a hex digit.
pub open spec fn hex_digit_val(c: char) -> int {
    if '0' <= c && c <= '9' {
        c as int - '0' as int
    } else if 'a' <= c && c <= 'f' {
        c as int - 'a' as int + 10
    } else {
        c as int - 'A' as int + 10
    }
}

/// The lowercase hex digit for a value below 16.
pub open spec fn lower_hex_char(v: int) -> char {
    if v == 0 { '0' } else if v == 1 { '1' } else if v == 2 { '2' } else if v == 3 { '3' }
    else if v == 4 { '4' } else if v == 5 { '5' } else if v == 6 { '6' } else if v == 7 { '7' }
    else if v == 8 { '8' } else if v == 9 { '9' } else if v == 10 { 'a' } else if v == 11 { 'b' }
    else if v == 12 { 'c' } else if v == 13 { 'd' } else if v == 14 { 'e' } else { 'f' }
}

/// The lowercase hex encoding of a byte sequence: two digits per byte,
/// high nibble first.
pub open spec fn hex_encoding_of(bytes: Seq<u8>) -> Seq<char> {
    Seq::new(
        2 * bytes.len(),
        |i: int| if i % 2 == 0 {
            lower_hex_char(bytes[i / 2] as int / 16)
        } else {
            lower_hex_char(bytes[i / 2] as int % 16)
        },
    )
}

/// The byte at position `j` of the decoding of a hex string.
pub open spec fn hex_byte_at(s: Seq<char>, j: int) -> int {
    hex_digit_val(s[2 * j]) * 16 + hex_digit_val(s[2 * j + 1])
}

/// True when a character sequence is exactly one hash worth of hex digits.
pub open spec fn is_hash_hex(s: Seq<char>) -> bool {
    s.len() == 64 && forall|i: int| 0 <= i < 64 ==> is_hex_digit(#[trigger] s[i])
}

/// Relies on hex::encode: the lowercase hex encoding of the input bytes,
/// two digits per byte, high nibble first.
#[verifier::external_body]
pub fn encode_hash_hex(hash: &[u8; 32]) -> (r: String)
    ensures
        r@ == hex_encoding_of(hash@),
{
    hex::encode(hash)
}

/// Relies on hex::decode_to_slice: succeeds exactly on 64 hex digits
/// (either case) and yields the bytes they spell.
#[verifier::external_body]
pub fn decode_hash_hex(stem: &str) -> (r: Option<[u8; 32]>)
    ensures
        r is Some <==> is_hash_hex(stem@),
        match r {
            Some(b) => forall|j: int| 0 <= j < 32 ==> #[trigger] b@[j] as int == hex_byte_at(stem@, j),
            None => true,
        },
{
    let mut bytes: [u8; 32] = [0; 32];
    match hex::decode_to_slice(stem.as_bytes(), &mut bytes) {
        Ok(_) => Some(bytes),
        Err(_) => None,
    }
}

} // verus!
