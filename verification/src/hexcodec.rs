use vstd::prelude::*;

verus! {

/// Whether `b` is an ASCII hexadecimal digit, either case.
pub open spec fn is_hex_digit(b: u8) -> bool {
    (48 <= b <= 57) || (97 <= b <= 102) || (65 <= b <= 70)
}

/// The numeric value of an ASCII hexadecimal digit.
pub open spec fn hex_val(b: u8) -> u8 {
    if 48 <= b <= 57 {
        (b - 48) as u8
    } else if 97 <= b <= 102 {
        (b - 87) as u8
    } else {
        (b - 55) as u8
    }
}

/// The lowercase ASCII digit for a value below 16.
pub open spec fn hex_digit_lower(v: u8) -> u8 {
    if v < 10 {
        (v + 48) as u8
    } else {
        (v + 87) as u8
    }
}

/// Hex decoding: `Some` exactly when the input has even length and consists of
/// hexadecimal digits; each digit pair becomes one byte.
pub open spec fn hex_decode_spec(s: Seq<u8>) -> Option<Seq<u8>>
    decreases s.len(),
{
    if s.len() % 2 != 0 {
        None
    } else if s.len() == 0 {
        Some(Seq::empty())
    } else if is_hex_digit(s[0]) && is_hex_digit(s[1]) {
        match hex_decode_spec(s.skip(2)) {
            Some(rest) => Some(seq![(hex_val(s[0]) * 16 + hex_val(s[1])) as u8] + rest),
            None => None,
        }
    } else {
        None
    }
}

/// Hex encoding: two lowercase digits per byte, high nibble first.
pub open spec fn hex_encode_spec(b: Seq<u8>) -> Seq<u8>
    decreases b.len(),
{
    if b.len() == 0 {
        Seq::empty()
    } else {
        seq![hex_digit_lower(b[0] >> 4), hex_digit_lower(b[0] & 15)] + hex_encode_spec(
            b.drop_first(),
        )
    }
}

/// Whether `b` is an ASCII byte that hex encoding produces: a decimal digit or
/// a lowercase `a`..`f`.
pub open spec fn is_lower_hex_digit(b: u8) -> bool {
    (48 <= b <= 57) || (97 <= b <= 102)
}

/// Law: hex encoding yields two digits per input byte.
pub proof fn lemma_hex_encode_spec_len(b: Seq<u8>)
    ensures
        hex_encode_spec(b).len() == 2 * b.len(),
    decreases b.len(),
{
    if b.len() > 0 {
        lemma_hex_encode_spec_len(b.drop_first());
    }
}

/// Law: every byte of a hex encoding is a decimal digit or a lowercase letter.
pub proof fn lemma_hex_encode_spec_lower(b: Seq<u8>)
    ensures
        forall|i: int|
            0 <= i < hex_encode_spec(b).len() ==> is_lower_hex_digit(#[trigger] hex_encode_spec(b)[i]),
    decreases b.len(),
{
    if b.len() > 0 {
        lemma_hex_encode_spec_lower(b.drop_first());
        let x = b[0];
        assert(x >> 4 < 16 && x & 15 < 16) by (bit_vector);
        assert forall|i: int| 0 <= i < hex_encode_spec(b).len() implies is_lower_hex_digit(
            hex_encode_spec(b)[i],
        ) by {
            if i >= 2 {
                assert(hex_encode_spec(b)[i] == hex_encode_spec(b.drop_first())[i - 2]);
            }
        }
    }
}

/// Relies on hex::decode: accepts exactly the even-length strings of
/// hexadecimal digits and turns each digit pair into one byte.
#[verifier::external_body]
pub(crate) fn hex_decode(s: &[u8]) -> (r: Option<Vec<u8>>)
    ensures
        r matches Some(v) ==> hex_decode_spec(s@) == Some(v@),
        r is None ==> hex_decode_spec(s@) is None,
{
    hex::decode(s).ok()
}

/// Relies on hex::encode: two lowercase hexadecimal digits per input byte.
#[verifier::external_body]
pub(crate) fn hex_encode(b: &[u8]) -> (r: Vec<u8>)
    ensures
        r@ == hex_encode_spec(b@),
{
    hex::encode(b).into_bytes()
}

} // verus!
