//! Trusted boundary to the SHA-256 and hex capabilities, with the
//! mathematical description of hex decoding that the contracts use.

use vstd::prelude::*;

verus! {

/// The SHA-256 digest of a byte sequence. The digest is named, not defined:
/// computing it is delegated to the `sha2` crate.
pub uninterp spec fn sha256_of(data: Seq<u8>) -> Seq<u8>;

/// Relies on `sha2::Sha256` (through the `Digest` trait): the digest is a
/// function of the input bytes alone and is always 32 bytes long.
#[verifier::external_body]
pub(crate) fn sha256_digest(data: &Vec<u8>) -> (r: Vec<u8>)
    ensures
        r@ == sha256_of(data@),
        r@.len() == 32,
{
    let mut hasher = <sha2::Sha256 as sha2::Digest>::new();
    sha2::Digest::update(&mut hasher, data.as_slice());
    let digest = sha2::Digest::finalize(hasher);
    digest.to_vec()
}

/// The value of a hex digit, upper or lower case, or `-1` for any other
/// character.
pub open spec fn hex_digit_value(c: char) -> int {
    if '0' <= c && c <= '9' {
        c as int - '0' as int
    } else if 'a' <= c && c <= 'f' {
        c as int - 'a' as int + 10
    } else if 'A' <= c && c <= 'F' {
        c as int - 'A' as int + 10
    } else {
        -1
    }
}

/// A string that hex-decodes without error: an even number of characters,
/// all of them hex digits.
pub open spec fn is_hex_string(s: Seq<char>) -> bool {
    &&& s.len() % 2 == 0
    &&& forall|i: int| 0 <= i < s.len() ==> hex_digit_value(#[trigger] s[i]) >= 0
}

/// The bytes a hex string decodes to: each pair of digits becomes one byte,
/// high nibble first. Meaningful only when `is_hex_string(s)` holds.
pub open spec fn hex_decoded(s: Seq<char>) -> Seq<u8> {
    Seq::new((s.len() / 2) as nat, |i: int| (hex_digit_value(s[2 * i]) * 16 + hex_digit_value(s[2 * i + 1])) as u8)
}

/// Every hex digit's value lies below 16, and in a hex string every
/// position holds a digit.
pub proof fn lemma_hex_digit_value_bounds(s: Seq<char>, i: int)
    requires
        is_hex_string(s),
        0 <= i < s.len(),
    ensures
        0 <= hex_digit_value(s[i]) < 16,
{
}

/// Two equally long hex strings that differ in some digit's value decode to
/// different byte sequences. (Two digits that differ only in case share a
/// value and decode alike.)
pub proof fn lemma_hex_decoded_differs(a: Seq<char>, b: Seq<char>, i: int)
    requires
        is_hex_string(a),
        is_hex_string(b),
        a.len() == b.len(),
        0 <= i < a.len(),
        hex_digit_value(a[i]) != hex_digit_value(b[i]),
    ensures
        hex_decoded(a) != hex_decoded(b),
{
    let k = i / 2;
    lemma_hex_digit_value_bounds(a, 2 * k);
    lemma_hex_digit_value_bounds(a, 2 * k + 1);
    lemma_hex_digit_value_bounds(b, 2 * k);
    lemma_hex_digit_value_bounds(b, 2 * k + 1);
    let va = hex_digit_value(a[2 * k]) * 16 + hex_digit_value(a[2 * k + 1]);
    let vb = hex_digit_value(b[2 * k]) * 16 + hex_digit_value(b[2 * k + 1]);
    assert(0 <= va < 256);
    assert(0 <= vb < 256);
    assert(va != vb);
    assert(hex_decoded(a)[k] == va as u8);
    assert(hex_decoded(b)[k] == vb as u8);
}

#[verifier::external_type_specification]
#[verifier::external_body]
pub struct ExFromHexError(hex::FromHexError);

/// Relies on `hex::decode`: every pair of hex digits (either case) becomes
/// one byte; a string of odd length or with a non-digit character is
/// rejected.
#[verifier::external_body]
pub(crate) fn hex_decode(s: &String) -> (r: Result<Vec<u8>, hex::FromHexError>)
    ensures
        r is Ok <==> is_hex_string(s@),
        r matches Ok(v) ==> v@ == hex_decoded(s@),
{
    hex::decode(s.as_str())
}

} // verus!
