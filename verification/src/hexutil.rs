//! Hexadecimal text: the spec-level meaning of hex encoding and decoding,
//! and trusted wrappers over the `hex` crate.
use vstd::prelude::*;

verus! {

/// The lowercase hex character for the value `d`.
pub open spec fn hex_digit_char(d: int) -> char
    recommends
        0 <= d < 16,
{
    if d < 10 {
        ((48 + d) as u8) as char
    } else {
        ((87 + d) as u8) as char
    }
}

/// True when `c` is a hex digit of either case.
pub open spec fn is_hex_digit(c: char) -> bool {
    ('0' <= c && c <= '9') || ('a' <= c && c <= 'f') || ('A' <= c && c <= 'F')
}

/// The value of the hex digit `c`.
pub open spec fn hex_digit_val(c: char) -> int
    recommends
        is_hex_digit(c),
{
    if '0' <= c && c <= '9' {
        c as int - 48
    } else if 'a' <= c && c <= 'f' {
        c as int - 87
    } else {
        c as int - 55
    }
}

/// True when every character of `s` is a hex digit.
pub open spec fn all_hex_digits(s: Seq<char>) -> bool {
    forall|i: int| 0 <= i < s.len() ==> is_hex_digit(#[trigger] s[i])
}

/// The lowercase hex text of `b`: two digits for every byte, high nibble
/// first.
pub open spec fn hex_of(b: Seq<u8>) -> Seq<char> {
    Seq::new(
        b.len() * 2,
        |i: int|
            if i % 2 == 0 {
                hex_digit_char((b[i / 2] >> 4u8) as int)
            } else {
                hex_digit_char((b[i / 2] & 15u8) as int)
            },
    )
}

/// The bytes denoted by the hex text `s`, pairing digits high nibble
/// first; meaningful when `s` is even-length hex text.
pub open spec fn hex_val(s: Seq<char>) -> Seq<u8> {
    Seq::new(
        s.len() / 2,
        |i: int| (hex_digit_val(s[2 * i]) * 16 + hex_digit_val(s[2 * i + 1])) as u8,
    )
}

/// Relies on `hex::encode`: every byte becomes two lowercase hex digits,
/// high nibble first.
#[verifier::external_body]
pub(crate) fn hex_encode(data: &Vec<u8>) -> (r: String)
    ensures
        r@ == hex_of(data@),
{
    hex::encode(data)
}

/// Relies on `hex::decode`: it succeeds exactly on even-length text made
/// of hex digits of either case, pairing digits high nibble first.
#[verifier::external_body]
pub(crate) fn hex_decode(s: &str) -> (r: Option<Vec<u8>>)
    ensures
        r is Some <==> (s@.len() % 2 == 0 && all_hex_digits(s@)),
        r matches Some(v) ==> v@ == hex_val(s@),
{
    hex::decode(s).ok()
}

/// Hex encoding loses nothing: decoding the hex text of any bytes gives
/// those bytes back.
pub proof fn lemma_hex_round_trip(b: Seq<u8>)
    ensures
        hex_of(b).len() == b.len() * 2,
        hex_of(b).len() % 2 == 0,
        all_hex_digits(hex_of(b)),
        hex_val(hex_of(b)) =~= b,
{
    let h = hex_of(b);
    assert forall|i: int| 0 <= i < h.len() implies is_hex_digit(#[trigger] h[i]) by {
        let x = b[i / 2];
        assert((x >> 4u8) < 16 && (x & 15u8) < 16) by (bit_vector);
        lemma_hex_digit_char_val((x >> 4u8) as int);
        lemma_hex_digit_char_val((x & 15u8) as int);
    }
    assert forall|i: int| 0 <= i < b.len() implies hex_val(h)[i] == b[i] by {
        let x = b[i];
        assert((2 * i) / 2 == i && (2 * i + 1) / 2 == i);
        assert((2 * i) % 2 == 0 && (2 * i + 1) % 2 == 1);
        assert((x >> 4u8) < 16 && (x & 15u8) < 16) by (bit_vector);
        lemma_hex_digit_char_val((x >> 4u8) as int);
        lemma_hex_digit_char_val((x & 15u8) as int);
        assert(h[2 * i] == hex_digit_char((x >> 4u8) as int));
        assert(h[2 * i + 1] == hex_digit_char((x & 15u8) as int));
        assert(((x >> 4u8) as int) * 16 + ((x & 15u8) as int) == x) by (bit_vector);
    }
}

/// The hex character of a nibble value denotes that value again.
proof fn lemma_hex_digit_char_val(d: int)
    requires
        0 <= d < 16,
    ensures
        is_hex_digit(hex_digit_char(d)),
        hex_digit_val(hex_digit_char(d)) == d,
{
    if d < 10 {
        assert(hex_digit_char(d) as int == 48 + d);
    } else {
        assert(hex_digit_char(d) as int == 87 + d);
    }
}

} // verus!
