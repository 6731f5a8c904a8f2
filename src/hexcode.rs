//! Hexadecimal text of byte strings, as the adapter's wire format uses it.
use vstd::prelude::*;

verus! {

/// The sixteen upper-case hex digits, indexed by their value.
pub open spec fn upper_hex_digits() -> Seq<char> {
    seq!['0', '1', '2', '3', '4', '5', '6', '7', '8', '9', 'A', 'B', 'C', 'D', 'E', 'F']
}

/// Two upper-case hex digits per byte, high nibble first.
pub open spec fn hex_upper(b: Seq<u8>) -> Seq<char> {
    Seq::new(
        2 * b.len(),
        |i: int|
            if i % 2 == 0 {
                upper_hex_digits()[b[i / 2] as int / 16]
            } else {
                upper_hex_digits()[b[i / 2] as int % 16]
            },
    )
}

/// The value of a digit in the given radix (digits `0-9`, then letters of
/// either case), if the character is one.
pub open spec fn digit_value(c: char, radix: nat) -> Option<nat> {
    let u = c as u32;
    let v: nat = if 48 <= u <= 57 {
        (u - 48) as nat
    } else if 97 <= u <= 122 {
        (u - 97 + 10) as nat
    } else if 65 <= u <= 90 {
        (u - 65 + 10) as nat
    } else {
        36
    };
    if v < radix {
        Some(v)
    } else {
        None
    }
}

pub open spec fn is_hex_digit(c: char) -> bool {
    digit_value(c, 16) is Some
}

/// The bytes spelt by a hex string of even length, digits of either case;
/// `None` for any other string.
pub open spec fn hex_decode(s: Seq<char>) -> Option<Seq<u8>> {
    if s.len() % 2 == 0 && forall|i: int| 0 <= i < s.len() ==> is_hex_digit(#[trigger] s[i]) {
        Some(
            Seq::new(
                s.len() / 2,
                |i: int|
                    (digit_value(s[2 * i], 16)->Some_0 * 16 + digit_value(
                        s[2 * i + 1],
                        16,
                    )->Some_0) as u8,
            ),
        )
    } else {
        None
    }
}

/// Relies on `hex::encode_upper`: each byte becomes two characters of
/// `0123456789ABCDEF`, high nibble first.
#[verifier::external_body]
pub(crate) fn encode_upper(b: &[u8]) -> (r: String)
    ensures
        r@ == hex_upper(b@),
{
    hex::encode_upper(b)
}

/// Relies on `hex::decode`: an odd length or a byte outside `0-9a-fA-F` is an
/// error; otherwise each pair of digits gives one byte, high nibble first.
#[verifier::external_body]
pub(crate) fn decode(s: &str) -> (r: Result<Vec<u8>, hex::FromHexError>)
    ensures
        r is Ok <==> hex_decode(s@) is Some,
        r is Ok ==> r->Ok_0@ == hex_decode(s@)->Some_0,
{
    hex::decode(s)
}

} // verus!
