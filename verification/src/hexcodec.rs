use vstd::arithmetic::div_mod::lemma_fundamental_div_mod;
use vstd::prelude::*;

verus! {

/// The lowercase hex digit for a nibble value.
pub open spec fn nibble_char(n: u8) -> char
    recommends
        n < 16,
{
    if n == 0 {
        '0'
    } else if n == 1 {
        '1'
    } else if n == 2 {
        '2'
    } else if n == 3 {
        '3'
    } else if n == 4 {
        '4'
    } else if n == 5 {
        '5'
    } else if n == 6 {
        '6'
    } else if n == 7 {
        '7'
    } else if n == 8 {
        '8'
    } else if n == 9 {
        '9'
    } else if n == 10 {
        'a'
    } else if n == 11 {
        'b'
    } else if n == 12 {
        'c'
    } else if n == 13 {
        'd'
    } else if n == 14 {
        'e'
    } else {
        'f'
    }
}

pub open spec fn is_hex_digit(c: char) -> bool {
    let u = c as u32;
    (0x30 <= u && u <= 0x39) || (0x61 <= u && u <= 0x66) || (0x41 <= u && u <= 0x46)
}

/// The nibble value of a hex digit, either case.
pub open spec fn hex_val(c: char) -> u8
    recommends
        is_hex_digit(c),
{
    let u = c as u32;
    if 0x30 <= u && u <= 0x39 {
        (u - 0x30) as u8
    } else if 0x61 <= u && u <= 0x66 {
        (u - 0x61 + 10) as u8
    } else {
        (u - 0x41 + 10) as u8
    }
}

/// Lowercase hex encoding: two digits for each byte, high nibble first.
pub open spec fn hex_encode_spec(b: Seq<u8>) -> Seq<char> {
    Seq::new(
        b.len() * 2,
        |i: int|
            if i % 2 == 0 {
                nibble_char(b[i / 2] / 16)
            } else {
                nibble_char(b[i / 2] % 16)
            },
    )
}

/// A string is well-formed hex when its length is even and every character
/// is a hex digit of either case.
pub open spec fn valid_hex(s: Seq<char>) -> bool {
    s.len() % 2 == 0 && (forall|i: int| 0 <= i < s.len() ==> is_hex_digit(s[i]))
}

/// The bytes a well-formed hex string denotes.
pub open spec fn hex_decode_spec(s: Seq<char>) -> Seq<u8>
    recommends
        valid_hex(s),
{
    Seq::new(s.len() / 2, |i: int| (hex_val(s[2 * i]) * 16 + hex_val(s[2 * i + 1])) as u8)
}

pub proof fn lemma_nibble_char_val(n: u8)
    requires
        n < 16,
    ensures
        is_hex_digit(nibble_char(n)),
        hex_val(nibble_char(n)) == n,
{
}

/// Decoding inverts encoding: every byte sequence survives the trip through
/// its lowercase hex form.
pub proof fn lemma_hex_round_trip(b: Seq<u8>)
    ensures
        valid_hex(hex_encode_spec(b)),
        hex_decode_spec(hex_encode_spec(b)) == b,
{
    let s = hex_encode_spec(b);
    assert forall|i: int| 0 <= i < s.len() implies is_hex_digit(s[i]) by {
        if i % 2 == 0 {
            lemma_nibble_char_val(b[i / 2] / 16);
        } else {
            lemma_nibble_char_val(b[i / 2] % 16);
        }
    }
    assert forall|i: int| 0 <= i < b.len() implies hex_decode_spec(s)[i] == b[i] by {
        assert(s[2 * i] == nibble_char(b[i] / 16));
        assert(s[2 * i + 1] == nibble_char(b[i] % 16));
        lemma_nibble_char_val(b[i] / 16);
        lemma_nibble_char_val(b[i] % 16);
        lemma_fundamental_div_mod(b[i] as int, 16);
    }
    assert(hex_decode_spec(s) =~= b);
}

/// A string that is exactly the lowercase hex form of the bytes it
/// denotes: well-formed hex whose re-encoding reproduces it, which rules
/// out uppercase digits.
pub open spec fn canonical_hex(s: Seq<char>) -> bool {
    &&& valid_hex(s)
    &&& s == hex_encode_spec(hex_decode_spec(s))
}

/// What `hex_encode_spec` produces is canonical: decoding and re-encoding
/// reproduce it.
pub proof fn lemma_hex_encode_canonical(b: Seq<u8>)
    ensures
        canonical_hex(hex_encode_spec(b)),
        hex_decode_spec(hex_encode_spec(b)) == b,
{
    lemma_hex_round_trip(b);
}

/// Relies on hex::encode: lowercase output, two digits for each input byte,
/// high nibble first.
#[verifier::external_body]
pub(crate) fn hex_encode(data: &[u8]) -> (r: String)
    ensures
        r@ == hex_encode_spec(data@),
{
    hex::encode(data)
}

/// Relies on hex::decode: it succeeds exactly when the input has even length
/// and holds only hex digits of either case, and then returns the denoted
/// bytes.
#[verifier::external_body]
pub(crate) fn hex_decode(data: &str) -> (r: Option<Vec<u8>>)
    ensures
        r is Some <==> valid_hex(data@),
        r matches Some(b) ==> b@ == hex_decode_spec(data@),
{
    hex::decode(data).ok()
}

} // verus!
