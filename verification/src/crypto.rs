//! Calls of the cryptographic crates, each with what it is relied on for.
use hkdf::Hkdf;
use hmac::digest::KeyInit;
use hmac::{Hmac, Mac};
use sha2::Sha256;
use subtle::ConstantTimeEq;
use vstd::prelude::*;

verus! {

/// The 32 bytes that HKDF-SHA256 derives from `secret`, without a salt, for the purpose `info`.
pub uninterp spec fn hkdf_sha256(secret: Seq<u8>, info: Seq<u8>) -> Seq<u8>;

/// The HMAC-SHA256 of `message` under `key`.
pub uninterp spec fn hmac_sha256(key: Seq<u8>, message: Seq<u8>) -> Seq<u8>;

/// `Hkdf::<Sha256>::new` without a salt, then `Hkdf::expand` to 32 bytes: a function of the secret
/// and the purpose. `expand` fails on more than 255 hash lengths only, and 32 bytes are one.
#[verifier::external_body]
pub(crate) fn derive_key(secret: &[u8], info: &[u8]) -> (r: [u8; 32])
    ensures
        r@ == hkdf_sha256(secret@, info@),
{
    let mut okm = [0u8; 32];
    Hkdf::<Sha256>::new(None, secret)
        .expand(info, &mut okm)
        .expect("32 bytes is a valid HKDF-SHA256 output length");
    okm
}

/// `Hmac::<Sha256>::new_from_slice`, `update` and `finalize`: a function of the key and the
/// message. A key of any length is accepted.
#[verifier::external_body]
pub(crate) fn authenticate(key: &[u8], message: &[u8]) -> (r: [u8; 32])
    ensures
        r@ == hmac_sha256(key@, message@),
{
    let mut mac = <Hmac<Sha256> as KeyInit>::new_from_slice(key)
        .expect("HMAC accepts a key of any length");
    mac.update(message);
    mac.finalize().into_bytes().into()
}

/// `ConstantTimeEq::ct_eq` of two byte slices: whether they are equal, in a time that depends on
/// their lengths only.
#[verifier::external_body]
pub(crate) fn equal_in_constant_time(a: &[u8], b: &[u8]) -> (r: bool)
    ensures
        r == (a@ == b@),
{
    a.ct_eq(b).into()
}

/// `getrandom::fill`: four bytes from the operating system, or nothing if it has none to give.
/// Which bytes rests on chance, so nothing is said of them.
#[verifier::external_body]
pub(crate) fn random_bytes() -> (r: Option<[u8; 4]>) {
    let mut bytes = [0u8; 4];
    getrandom::fill(&mut bytes).ok().map(|_| bytes)
}

/// A byte as two hexadecimal digits, in lower case.
pub open spec fn hex_of_byte(b: u8) -> Seq<char> {
    seq![crate::text::hex_digit(b as int / 16), crate::text::hex_digit(b as int % 16)]
}

/// Bytes as hexadecimal digits, two each, in lower case.
pub open spec fn hex_text(bytes: Seq<u8>) -> Seq<char> {
    Seq::new(
        2 * bytes.len(),
        |i: int| hex_of_byte(bytes[i / 2])[i % 2],
    )
}

/// The value of a hexadecimal digit, in either case.
pub open spec fn digit_value(c: char) -> Option<int> {
    if '0' <= c <= '9' {
        Some(c as int - '0' as int)
    } else if 'a' <= c <= 'f' {
        Some(c as int - 'a' as int + 10)
    } else if 'A' <= c <= 'F' {
        Some(c as int - 'A' as int + 10)
    } else {
        None
    }
}

/// All characters are hexadecimal digits, and there is an even number of them.
pub open spec fn is_hex(s: Seq<char>) -> bool {
    &&& s.len() % 2 == 0
    &&& forall|i: int| 0 <= i < s.len() ==> (#[trigger] digit_value(s[i])) is Some
}

/// The bytes that hexadecimal digits stand for.
pub open spec fn hex_bytes(s: Seq<char>) -> Seq<u8> {
    Seq::new(
        s.len() / 2,
        |i: int| (16 * digit_value(s[2 * i])->0 + digit_value(s[2 * i + 1])->0) as u8,
    )
}

/// `hex::encode`: two lower-case digits for each byte, the upper half first.
#[verifier::external_body]
pub(crate) fn hex_encode(bytes: &[u8]) -> (r: String)
    ensures
        r@ == hex_text(bytes@),
{
    hex::encode(bytes)
}

/// `hex::decode`: the bytes that the digits stand for, in either case; nothing if their number is
/// odd or one of them is no digit.
#[verifier::external_body]
pub(crate) fn hex_decode(s: &str) -> (r: Option<Vec<u8>>)
    ensures
        match r {
            Some(bytes) => is_hex(s@) && bytes@ == hex_bytes(s@),
            None => !is_hex(s@),
        },
{
    hex::decode(s).ok()
}

/// Decoding undoes encoding.
pub proof fn decoding_undoes_encoding(bytes: Seq<u8>)
    ensures
        is_hex(hex_text(bytes)),
        hex_bytes(hex_text(bytes)) == bytes,
{
    let s = hex_text(bytes);
    assert forall|i: int| 0 <= i < s.len() implies (#[trigger] digit_value(s[i])) is Some by {
        lemma_digit_round_trip(bytes[i / 2] as int / 16);
        lemma_digit_round_trip(bytes[i / 2] as int % 16);
    }
    assert forall|i: int| 0 <= i < bytes.len() implies hex_bytes(s)[i] == bytes[i] by {
        lemma_digit_round_trip(bytes[i] as int / 16);
        lemma_digit_round_trip(bytes[i] as int % 16);
        assert((2 * i) / 2 == i && (2 * i) % 2 == 0);
        assert((2 * i + 1) / 2 == i && (2 * i + 1) % 2 == 1);
    }
    assert(hex_bytes(s) =~= bytes);
}

proof fn lemma_digit_round_trip(d: int)
    requires
        0 <= d < 16,
    ensures
        digit_value(crate::text::hex_digit(d)) == Some(d),
{
}

} // verus!
