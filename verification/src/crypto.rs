//! Message authentication and hexadecimal notation.

use hmac::Mac;
use vstd::prelude::*;
use vstd::string::*;

verus! {

/// The HMAC-SHA256 tag of a message under a key.
pub uninterp spec fn hmac_sha256(key: Seq<u8>, message: Seq<u8>) -> Seq<u8>;

/// The message of the error that `hex::decode` reports on a text.
pub uninterp spec fn hex_error(text: Seq<char>) -> Seq<char>;

/// The lower-case hexadecimal digit of a number below sixteen.
pub open spec fn hex_digit(n: nat) -> char {
    if n < 10 {
        (48 + n) as u8 as char
    } else {
        (87 + n) as u8 as char
    }
}

/// The value of a hexadecimal digit of either case.
pub open spec fn hex_value(c: char) -> Option<nat> {
    let u = c as u32;
    if 48 <= u <= 57 {
        Some((u - 48) as nat)
    } else if 97 <= u <= 102 {
        Some((u - 87) as nat)
    } else if 65 <= u <= 70 {
        Some((u - 55) as nat)
    } else {
        None
    }
}

/// The hexadecimal notation of bytes, two lower-case digits for each.
pub open spec fn hex_encoded(b: Seq<u8>) -> Seq<char> {
    Seq::new(
        2 * b.len(),
        |i: int|
            if i % 2 == 0 {
                hex_digit((b[i / 2] / 16) as nat)
            } else {
                hex_digit((b[i / 2] % 16) as nat)
            },
    )
}

/// Whether a text is made of pairs of hexadecimal digits.
pub open spec fn is_hex(s: Seq<char>) -> bool {
    &&& s.len() % 2 == 0
    &&& forall|i: int| 0 <= i < s.len() ==> hex_value(#[trigger] s[i]) is Some
}

/// The bytes that a text of hexadecimal digits denotes.
pub open spec fn hex_decoded(s: Seq<char>) -> Seq<u8> {
    Seq::new(
        s.len() / 2,
        |i: int| (16 * hex_value(s[2 * i])->Some_0 + hex_value(s[2 * i + 1])->Some_0) as u8,
    )
}

/// Decoding what was encoded gives the bytes back.
pub proof fn law_hex_round_trip(b: Seq<u8>)
    ensures
        is_hex(hex_encoded(b)),
        hex_decoded(hex_encoded(b)) == b,
{
    let s = hex_encoded(b);
    assert forall|i: int| 0 <= i < s.len() implies hex_value(#[trigger] s[i]) is Some by {}
    assert forall|i: int| 0 <= i < b.len() implies hex_decoded(s)[i] == b[i] by {
        let hi = (b[i] / 16) as nat;
        let lo = (b[i] % 16) as nat;
        assert((2 * i) % 2 == 0 && (2 * i) / 2 == i);
        assert((2 * i + 1) % 2 == 1 && (2 * i + 1) / 2 == i);
        assert(s[2 * i] == hex_digit(hi));
        assert(s[2 * i + 1] == hex_digit(lo));
        assert(hex_value(hex_digit(hi)) == Some(hi));
        assert(hex_value(hex_digit(lo)) == Some(lo));
    }
    assert(hex_decoded(s) =~= b);
}

/// `hex::encode` writes each byte as two lower-case digits.
#[verifier::external_body]
pub(crate) fn hex_encode(data: &[u8]) -> (s: String)
    ensures
        s@ == hex_encoded(data@),
{
    hex::encode(data)
}

/// `hex::decode` reads pairs of digits of either case and reports an error on
/// anything else.
#[verifier::external_body]
pub(crate) fn hex_decode(text: &str) -> (r: Result<Vec<u8>, String>)
    ensures
        r is Ok <==> is_hex(text@),
        r is Ok ==> r->Ok_0@ == hex_decoded(text@),
        r is Err ==> r->Err_0@ == hex_error(text@),
{
    hex::decode(text).map_err(|e| e.to_string())
}

/// `Hmac::<Sha256>` over a whole message; a key of any length is accepted.
#[verifier::external_body]
pub(crate) fn hmac_tag(key: &[u8], message: &[u8]) -> (tag: Vec<u8>)
    ensures
        tag@ == hmac_sha256(key@, message@),
{
    let mut mac = hmac::Hmac::<sha2::Sha256>::new_from_slice(key).expect("any key length");
    mac.update(message);
    mac.finalize().into_bytes().to_vec()
}

/// `Mac::verify_slice` accepts exactly the whole tag of the message.
#[verifier::external_body]
pub(crate) fn hmac_verify(key: &[u8], message: &[u8], tag: &[u8]) -> (ok: bool)
    ensures
        ok <==> tag@ == hmac_sha256(key@, message@),
{
    let mut mac = hmac::Hmac::<sha2::Sha256>::new_from_slice(key).expect("any key length");
    mac.update(message);
    mac.verify_slice(tag).is_ok()
}

/// The notation of bytes has two digits for each, and these are the decimal ones
/// and the first six small letters.
pub proof fn law_hex_digits_are_small(b: Seq<u8>, i: int)
    requires
        0 <= i < hex_encoded(b).len(),
    ensures
        hex_encoded(b).len() == 2 * b.len(),
        ('0' as u32) <= (hex_encoded(b)[i] as u32) <= ('9' as u32) || ('a' as u32) <= (
        hex_encoded(b)[i] as u32) <= ('f' as u32),
{
}

/// A digit has the same value in either case, and only digits have one.
pub proof fn law_hex_values(n: nat, c: char)
    requires
        n < 16,
    ensures
        hex_value(hex_digit(n)) == Some(n),
        hex_value(c) is Some ==> hex_value(c)->0 < 16,
        'A' <= c <= 'F' ==> hex_value(c) == Some((c as u32 - 55) as nat),
        hex_value('g') is None,
{
}

} // verus!
