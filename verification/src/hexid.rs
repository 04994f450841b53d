//! Hex-encoded identifiers: database row ids appear in descriptors as
//! lowercase hex strings.

use vstd::prelude::*;

verus! {

/// The sixteen lowercase hex digits.
pub open spec fn hex_digit(n: int) -> char {
    seq!['0', '1', '2', '3', '4', '5', '6', '7', '8', '9', 'a', 'b', 'c', 'd', 'e', 'f'][n]
}

/// Two lowercase hex digits per byte, in order.
pub open spec fn spec_hex_encode(b: Seq<u8>) -> Seq<char>
    decreases b.len(),
{
    if b.len() == 0 {
        Seq::empty()
    } else {
        spec_hex_encode(b.drop_last()) + seq![
            hex_digit(b.last() as int / 16),
            hex_digit(b.last() as int % 16),
        ]
    }
}

/// The value of one hex digit, either case; -1 for any other character.
pub open spec fn hex_val(c: char) -> int {
    if '0' as int <= c as int <= '9' as int {
        c as int - '0' as int
    } else if 'a' as int <= c as int <= 'f' as int {
        c as int - 'a' as int + 10
    } else if 'A' as int <= c as int <= 'F' as int {
        c as int - 'A' as int + 10
    } else {
        -1
    }
}

/// Whether the character is a hex digit of either case.
pub open spec fn is_hex_char(c: char) -> bool {
    hex_val(c) >= 0
}

/// Whether the string is a well-formed hex identifier: even length, hex
/// digits only.
pub open spec fn valid_hex(s: Seq<char>) -> bool {
    s.len() % 2 == 0 && forall|i: int| 0 <= i < s.len() ==> is_hex_char(#[trigger] s[i])
}

/// The bytes denoted by a hex string, two digits per byte.
pub open spec fn spec_hex_decode(s: Seq<char>) -> Seq<u8>
    decreases s.len(),
{
    if s.len() < 2 {
        Seq::empty()
    } else {
        spec_hex_decode(s.drop_last().drop_last()) + seq![
            (hex_val(s[s.len() - 2]) * 16 + hex_val(s[s.len() - 1])) as u8,
        ]
    }
}

/// Relies on hex::encode: two lowercase hex digits for each input byte,
/// in input order.
#[verifier::external_body]
pub(crate) fn hex_encode(bytes: &[u8]) -> (r: String)
    ensures
        r@ == spec_hex_encode(bytes@),
{
    hex::encode(bytes)
}

/// Relies on hex::decode: succeeds exactly on an even-length string of
/// hex digits (upper or lower case), yielding the denoted bytes.
#[verifier::external_body]
pub(crate) fn hex_decode(s: &str) -> (r: Option<Vec<u8>>)
    ensures
        r is Some <==> valid_hex(s@),
        r matches Some(v) ==> v@ == spec_hex_decode(s@),
{
    hex::decode(s).ok()
}

/// Every digit the encoder emits is a hex digit with the value it was
/// chosen for.
proof fn lemma_hex_digit_val(n: int)
    requires
        0 <= n < 16,
    ensures
        is_hex_char(hex_digit(n)),
        hex_val(hex_digit(n)) == n,
{
}

/// Encoding then decoding restores the original bytes, and every encoded
/// identifier is well-formed hex.
pub proof fn lemma_hex_round_trip(b: Seq<u8>)
    ensures
        valid_hex(spec_hex_encode(b)),
        spec_hex_decode(spec_hex_encode(b)) == b,
    decreases b.len(),
{
    if b.len() == 0 {
        assert(spec_hex_decode(spec_hex_encode(b)) =~= b);
    } else {
        lemma_hex_round_trip(b.drop_last());
        let e = spec_hex_encode(b.drop_last());
        let x = b.last() as int;
        let d1 = hex_digit(x / 16);
        let d2 = hex_digit(x % 16);
        lemma_hex_digit_val(x / 16);
        lemma_hex_digit_val(x % 16);
        let s = spec_hex_encode(b);
        assert(s == e + seq![d1, d2]);
        assert(s.len() == e.len() + 2);
        assert forall|i: int| 0 <= i < s.len() implies is_hex_char(#[trigger] s[i]) by {
            if i < e.len() {
                assert(s[i] == e[i]);
            } else if i == e.len() {
                assert(s[i] == d1);
            } else {
                assert(s[i] == d2);
            }
        }
        assert(valid_hex(s));
        assert(s.drop_last().drop_last() =~= e);
        assert(s[s.len() - 2] == d1 && s[s.len() - 1] == d2);
        assert((hex_val(d1) * 16 + hex_val(d2)) == x) by {
            assert(x / 16 * 16 + x % 16 == x) by {
                vstd::arithmetic::div_mod::lemma_fundamental_div_mod(x, 16);
            }
        }
        assert(spec_hex_decode(s) =~= b);
    }
}

} // verus!
