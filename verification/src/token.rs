//! The token generator: high-entropy, URL-safe session identifiers.
//!
//! A token is a fixed-length string drawn from the 62-character
//! alphanumeric alphabet. The raw entropy comes from the system's secure
//! random source; the mapping from raw bytes to alphabet characters is
//! verified here, position by position.

use vstd::prelude::*;

verus! {

use vstd::utf8::{valid_utf8, encode_utf8, is_ascii_chars};
use vstd::pervasive::unreached;
use crate::codec::string_from_utf8;

/// Whether a character belongs to the token alphabet: a digit, a
/// lowercase letter or an uppercase letter.
pub open spec fn is_token_char(c: char) -> bool {
    ||| '0' <= c && c <= '9'
    ||| 'a' <= c && c <= 'z'
    ||| 'A' <= c && c <= 'Z'
}

/// The alphabet byte a raw entropy byte is mapped to: the remainder
/// modulo 62 picks a digit (0 through 9), a lowercase letter (10 through
/// 35) or an uppercase letter (36 through 61).
pub open spec fn token_ascii_of(b: u8) -> u8 {
    let r = b % 62;
    if r <= 9 {
        (r + 48) as u8
    } else if r <= 35 {
        (r + 87) as u8
    } else {
        (r + 29) as u8
    }
}

/// Relies on ring's `SystemRandom`: `SecureRandom::fill` fills the whole
/// buffer from the system's cryptographically secure random source, or
/// fails without a buffer when that source is unavailable.
#[verifier::external_body]
fn secure_random_bytes(length: usize) -> (r: Option<Vec<u8>>)
    ensures
        r matches Some(b) ==> b@.len() == length,
{
    let rng = ring::rand::SystemRandom::new();
    let mut bytes = vec![0u8; length];
    match ring::rand::SecureRandom::fill(&rng, &mut bytes) {
        Ok(()) => Some(bytes),
        Err(_) => None,
    }
}

/// Map one raw entropy byte into the token alphabet.
fn token_ascii(b: u8) -> (r: u8)
    ensures
        r == token_ascii_of(b),
        48 <= r < 128,
        is_token_char(r as char),
{
    let m = b % 62;
    let r: u8 = if m <= 9 {
        m + 48
    } else if m <= 35 {
        m + 87
    } else {
        m + 29
    };
    r
}

/// Spell a token out of raw entropy bytes: character `i` of the result
/// is exactly the alphabet character that byte `i` maps to.
pub fn token_string_from_bytes(bytes: &Vec<u8>) -> (r: String)
    ensures
        r@.len() == bytes@.len(),
        forall|i: int|
            0 <= i < bytes@.len() ==> #[trigger] r@[i] == token_ascii_of(bytes@[i]) as char,
        forall|i: int| 0 <= i < r@.len() ==> is_token_char(#[trigger] r@[i]),
{
    broadcast use vstd::utf8::encode_utf8_valid_utf8, vstd::utf8::encode_utf8_decode_utf8,
        vstd::utf8::is_ascii_chars_encode_utf8;

    let mut ascii: Vec<u8> = Vec::new();
    let mut i: usize = 0;
    while i < bytes.len()
        invariant
            i <= bytes@.len(),
            ascii@.len() == i,
            forall|j: int|
                0 <= j < i ==> 48 <= #[trigger] ascii@[j] < 128 && ascii@[j] == token_ascii_of(
                    bytes@[j],
                ) && is_token_char(ascii@[j] as char),
        decreases bytes@.len() - i,
    {
        ascii.push(token_ascii(bytes[i]));
        i = i + 1;
    }
    let ghost chars: Seq<char> = Seq::new(ascii@.len(), |j: int| ascii@[j] as char);
    let ghost ascii_bytes = ascii@;
    proof {
        assert(is_ascii_chars(chars));
        assert(encode_utf8(chars) =~= ascii_bytes);
        assert(valid_utf8(ascii_bytes));
    }
    match string_from_utf8(ascii) {
        Some(s) => {
            proof {
                vstd::utf8::encode_utf8_decode_utf8(s@);
                vstd::utf8::encode_utf8_decode_utf8(chars);
                assert(s@ == chars);
            }
            s
        },
        None => unreached(),
    }
}

/// Generate a fresh session token of the given length, drawn from the
/// system's secure random source, or nothing when that source fails.
///
/// Every character of the result lies in the alphanumeric token
/// alphabet; nothing more is promised of the value, which is drawn from
/// fresh entropy on every call.
pub fn generate_secure_random_string(length: usize) -> (r: Option<String>)
    ensures
        r matches Some(s) ==> s@.len() == length && (forall|i: int|
            0 <= i < s@.len() ==> is_token_char(#[trigger] s@[i])),
{
    match secure_random_bytes(length) {
        Some(raw) => Some(token_string_from_bytes(&raw)),
        None => None,
    }
}

} // verus!
