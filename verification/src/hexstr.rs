//! Hex strings: the exact meaning of encoding bytes to lowercase hex and of
//! decoding a hex string (either case), plus wrappers over the `hex` crate
//! that carry those meanings, and the round-trip law connecting them.

use vstd::prelude::*;

verus! {

use crate::ids::hex_digit_byte;

/// The lowercase hex digit (as a char) for a nibble value.
pub open spec fn hex_digit_char(n: u8) -> char
    recommends
        n < 16,
{
    hex_digit_byte(n) as char
}

/// Lowercase hex rendering of a byte sequence as characters: two digits per
/// byte, high nibble first.
pub open spec fn hex_of(b: Seq<u8>) -> Seq<char> {
    Seq::new(
        2 * b.len(),
        |i: int|
            if i % 2 == 0 {
                hex_digit_char(b[i / 2] / 16)
            } else {
                hex_digit_char(b[i / 2] % 16)
            },
    )
}

/// Whether a character is a hex digit, lowercase or uppercase.
pub open spec fn is_hex_digit(c: char) -> bool {
    ('0' <= c && c <= '9') || ('a' <= c && c <= 'f') || ('A' <= c && c <= 'F')
}

/// The value of a hex digit.
pub open spec fn hex_digit_val(c: char) -> u8
    recommends
        is_hex_digit(c),
{
    if '0' <= c && c <= '9' {
        (c as u8 - 0x30) as u8
    } else if 'a' <= c && c <= 'f' {
        (c as u8 - 0x61 + 10) as u8
    } else {
        (c as u8 - 0x41 + 10) as u8
    }
}

/// Whether a character sequence is a well-formed hex string: even length,
/// hex digits throughout.
pub open spec fn is_hex_seq(s: Seq<char>) -> bool {
    s.len() % 2 == 0 && forall|i: int| 0 <= i < s.len() ==> is_hex_digit(#[trigger] s[i])
}

/// The bytes a well-formed hex string decodes to.
pub open spec fn hex_decoded(s: Seq<char>) -> Seq<u8>
    recommends
        is_hex_seq(s),
{
    Seq::new(
        s.len() / 2,
        |i: int| (hex_digit_val(s[2 * i]) * 16 + hex_digit_val(s[2 * i + 1])) as u8,
    )
}

/// An encoded byte sequence is a well-formed hex string of ASCII characters.
pub proof fn lemma_hex_of_is_hex_seq(b: Seq<u8>)
    ensures
        is_hex_seq(hex_of(b)),
        vstd::utf8::is_ascii_chars(hex_of(b)),
{
    assert forall|i: int| 0 <= i < hex_of(b).len() implies is_hex_digit(#[trigger] hex_of(b)[i])
        && (hex_of(b)[i] as nat) < 128 by {
        let v = if i % 2 == 0 {
            b[i / 2] / 16
        } else {
            b[i / 2] % 16
        };
        assert(v < 16) by {
            assert(b[i / 2] / 16 < 16);
            assert(b[i / 2] % 16 < 16);
        }
    }
    assert(vstd::utf8::is_ascii_chars(hex_of(b)));
}

/// Decoding inverts encoding: `hex_decoded(hex_of(b)) == b`.
pub proof fn lemma_hex_round_trip(b: Seq<u8>)
    ensures
        hex_decoded(hex_of(b)) =~= b,
{
    let s = hex_of(b);
    assert forall|i: int| 0 <= i < b.len() implies hex_decoded(s)[i] == b[i] by {
        let hi = b[i] / 16;
        let lo = b[i] % 16;
        assert((2 * i) % 2 == 0);
        assert((2 * i + 1) % 2 == 1);
        assert((2 * i) / 2 == i);
        assert((2 * i + 1) / 2 == i);
        assert(s[2 * i] == hex_digit_char(hi));
        assert(s[2 * i + 1] == hex_digit_char(lo));
        assert(hex_digit_val(hex_digit_char(hi)) == hi);
        assert(hex_digit_val(hex_digit_char(lo)) == lo);
        assert(hi * 16 + lo == b[i]) by {
            assert(b[i] / 16 * 16 + b[i] % 16 == b[i]);
        }
    }
}

/// Relies on `hex::encode`: renders bytes as lowercase hex, two digits per
/// byte, high nibble first.
#[verifier::external_body]
pub(crate) fn hex_encode(b: &Vec<u8>) -> (r: String)
    ensures
        r@ == hex_of(b@),
{
    hex::encode(b)
}

/// Relies on `hex::decode`: accepts exactly the even-length strings of hex
/// digits (either case) and returns the decoded bytes.
#[verifier::external_body]
pub(crate) fn hex_decode(s: &str) -> (r: Option<Vec<u8>>)
    ensures
        r is Some <==> is_hex_seq(s@),
        r is Some ==> r->0@ == hex_decoded(s@),
{
    hex::decode(s).ok()
}

} // verus!
