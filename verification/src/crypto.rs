//! Keys, signatures, digests and hex: the calls into `ed25519-dalek`, `sha2`
//! and `hex`, with the contracts that the rest of the library relies on.
//!
//! A signing key is held as its 32 secret bytes (the ed25519 seed); a public
//! key as its 32 compressed bytes; a signature as its 64 bytes.

use vstd::prelude::*;

use ed25519_dalek::{Signature, Signer, SigningKey, Verifier, VerifyingKey};
use sha2::{Digest, Sha256};
use vstd::string::StringSliceAdditionalSpecFns;

verus! {

/// The public key that `ed25519_dalek::SigningKey::from_bytes(seed).verifying_key()`
/// yields, as its 32 compressed bytes.
pub uninterp spec fn ed25519_public_key(seed: Seq<u8>) -> Seq<u8>;

/// The 64-byte signature that `ed25519_dalek` computes with the key made from
/// `seed` over `msg` (ed25519 signing is deterministic).
pub uninterp spec fn ed25519_signature(seed: Seq<u8>, msg: Seq<u8>) -> Seq<u8>;

/// Whether `ed25519_dalek::VerifyingKey::from_bytes` accepts these 32 bytes
/// (they decompress to a curve point).
pub uninterp spec fn ed25519_key_accepted(public: Seq<u8>) -> bool;

/// Whether `ed25519_dalek::VerifyingKey::verify` accepts `sig` over `msg`
/// under the (accepted) public key `public`.
pub uninterp spec fn ed25519_signature_accepted(public: Seq<u8>, msg: Seq<u8>, sig: Seq<u8>) -> bool;

/// The SHA-256 digest that `sha2::Sha256::digest` computes.
pub uninterp spec fn sha256(data: Seq<u8>) -> Seq<u8>;

/// `ed25519_dalek::SigningKey::from_bytes(seed).verifying_key().to_bytes()`.
/// Trusted: the result is the named public key of the seed, and
/// `VerifyingKey::from_bytes` accepts it (it is a compressed multiple of the
/// base point).
#[verifier::external_body]
pub(crate) fn public_key_of(seed: &[u8; 32]) -> (r: [u8; 32])
    ensures
        r@ == ed25519_public_key(seed@),
        ed25519_key_accepted(r@),
{
    SigningKey::from_bytes(seed).verifying_key().to_bytes()
}

/// `ed25519_dalek::SigningKey::from_bytes(seed).sign(msg).to_bytes()`.
/// Trusted: the result is the named signature of `msg` under the seed, and it
/// verifies under the seed's public key (ed25519 signatures made by a key are
/// accepted by `verify` with that key's public half).
#[verifier::external_body]
pub(crate) fn sign_bytes(seed: &[u8; 32], msg: &[u8]) -> (r: [u8; 64])
    ensures
        r@ == ed25519_signature(seed@, msg@),
        ed25519_signature_accepted(ed25519_public_key(seed@), msg@, r@),
{
    let sig: Signature = SigningKey::from_bytes(seed).sign(msg);
    sig.to_bytes()
}

/// `ed25519_dalek::VerifyingKey::from_bytes(key).is_ok()`.
/// Trusted: the result is the named acceptance of the key bytes.
#[verifier::external_body]
pub(crate) fn public_key_accepted(key: &[u8; 32]) -> (r: bool)
    ensures
        r == ed25519_key_accepted(key@),
{
    VerifyingKey::from_bytes(key).is_ok()
}

/// `VerifyingKey::from_bytes(key)` then `verify(msg, &Signature::from_bytes(sig))`.
/// Trusted: for a key that `from_bytes` accepts, the result is the named
/// acceptance of the signature.
#[verifier::external_body]
pub(crate) fn signature_accepted(key: &[u8; 32], msg: &[u8], sig: &[u8; 64]) -> (r: bool)
    requires
        ed25519_key_accepted(key@),
    ensures
        r == ed25519_signature_accepted(key@, msg@, sig@),
{
    match VerifyingKey::from_bytes(key) {
        Ok(k) => k.verify(msg, &Signature::from_bytes(sig)).is_ok(),
        Err(_) => false,
    }
}

/// `sha2::Sha256::digest(data)`.
/// Trusted: the result is the named digest of `data`.
#[verifier::external_body]
pub(crate) fn sha256_digest(data: &[u8]) -> (r: [u8; 32])
    ensures
        r@ == sha256(data@),
{
    Sha256::digest(data).into()
}

/// The lower-case hex digit for `n < 16`.
pub open spec fn hex_digit(n: u8) -> char {
    seq!['0', '1', '2', '3', '4', '5', '6', '7', '8', '9', 'a', 'b', 'c', 'd', 'e', 'f'][n as int]
}

/// Lower-case hex text of `bytes`: two digits per byte, high nibble first.
pub open spec fn hex_text(bytes: Seq<u8>) -> Seq<char> {
    Seq::new(
        2 * bytes.len(),
        |i: int|
            if i % 2 == 0 {
                hex_digit(bytes[i / 2] / 16)
            } else {
                hex_digit(bytes[i / 2] % 16)
            },
    )
}

/// The value of a hex digit byte (either case), if it is one.
pub open spec fn hex_value(b: u8) -> Option<u8> {
    if 48 <= b <= 57 {
        Some((b - 48) as u8)
    } else if 97 <= b <= 102 {
        Some((b - 87) as u8)
    } else if 65 <= b <= 70 {
        Some((b - 55) as u8)
    } else {
        None
    }
}

/// `hex::decode` over the bytes of a text: even length, every byte a hex digit.
pub open spec fn hex_decodable(text: Seq<u8>) -> bool {
    text.len() % 2 == 0 && forall|i: int| 0 <= i < text.len() ==> (#[trigger] hex_value(text[i])) is Some
}

/// The bytes that `hex::decode` yields from decodable text.
pub open spec fn hex_decoded(text: Seq<u8>) -> Seq<u8> {
    Seq::new(
        text.len() / 2,
        |i: int| (hex_value(text[2 * i])->0 * 16 + hex_value(text[2 * i + 1])->0) as u8,
    )
}

/// `hex::encode(bytes)`.
/// Trusted: the result is the lower-case hex text of `bytes`, two digits per
/// byte, high nibble first (the crate encodes with the table "0123456789abcdef").
#[verifier::external_body]
pub(crate) fn hex_encode(bytes: &[u8]) -> (r: String)
    ensures
        r@ == hex_text(bytes@),
{
    hex::encode(bytes)
}

/// `hex::decode(text)`, with the crate's error turned into `None`.
/// Trusted: it succeeds exactly on text of even byte length made of hex digits
/// of either case, and yields one byte per pair of digits.
#[verifier::external_body]
pub(crate) fn hex_decode(text: &str) -> (r: Option<Vec<u8>>)
    ensures
        r is Some <==> hex_decodable(text.spec_bytes()),
        r matches Some(v) ==> v@ == hex_decoded(text.spec_bytes()),
{
    hex::decode(text).ok()
}

/// Copies a 32-byte slice into an array.
pub fn to_array32(v: &[u8]) -> (r: [u8; 32])
    requires
        v@.len() == 32,
    ensures
        r@ == v@,
{
    let mut a = [0u8; 32];
    let mut i: usize = 0;
    while i < 32
        invariant
            v@.len() == 32,
            i <= 32,
            forall|j: int| 0 <= j < i ==> a@[j] == v@[j],
        decreases 32 - i,
    {
        a[i] = v[i];
        i = i + 1;
    }
    assert(a@ =~= v@);
    a
}

/// Copies a 64-byte slice into an array.
pub fn to_array64(v: &[u8]) -> (r: [u8; 64])
    requires
        v@.len() == 64,
    ensures
        r@ == v@,
{
    let mut a = [0u8; 64];
    let mut i: usize = 0;
    while i < 64
        invariant
            v@.len() == 64,
            i <= 64,
            forall|j: int| 0 <= j < i ==> a@[j] == v@[j],
        decreases 64 - i,
    {
        a[i] = v[i];
        i = i + 1;
    }
    assert(a@ =~= v@);
    a
}

proof fn lemma_hex_digit(n: u8)
    requires
        n < 16,
    ensures
        '\0' <= hex_digit(n) <= '\u{7f}',
        hex_value(hex_digit(n) as u8) == Some(n),
{
    assert(hex_digit(n) == seq!['0', '1', '2', '3', '4', '5', '6', '7', '8', '9', 'a', 'b', 'c', 'd', 'e', 'f'][n as int]);
    if n == 0 { } else if n == 1 { } else if n == 2 { } else if n == 3 { } else if n == 4 { }
    else if n == 5 { } else if n == 6 { } else if n == 7 { } else if n == 8 { } else if n == 9 { }
    else if n == 10 { } else if n == 11 { } else if n == 12 { } else if n == 13 { } else if n == 14 { }
    else { }
}

/// Hex text is ASCII, so its UTF-8 bytes are its characters; decoding them
/// gives back the encoded bytes.
pub proof fn lemma_hex_roundtrip(bytes: Seq<u8>)
    ensures
        vstd::utf8::is_ascii_chars(hex_text(bytes)),
        hex_decodable(vstd::utf8::encode_utf8(hex_text(bytes))),
        hex_decoded(vstd::utf8::encode_utf8(hex_text(bytes))) == bytes,
{
    let t = hex_text(bytes);
    assert forall|i: int| 0 <= i < t.len() implies '\0' <= #[trigger] t[i] <= '\u{7f}'
        && hex_value(t[i] as u8) is Some by {
        lemma_hex_digit(bytes[i / 2] / 16);
        lemma_hex_digit(bytes[i / 2] % 16);
    }
    vstd::utf8::is_ascii_chars_encode_utf8(t);
    let e = vstd::utf8::encode_utf8(t);
    assert forall|i: int| 0 <= i < e.len() implies (#[trigger] hex_value(e[i])) is Some by {
        assert(t[i] as u8 == e[i]);
    }
    let d = hex_decoded(e);
    assert forall|k: int| 0 <= k < bytes.len() implies d[k] == bytes[k] by {
        let b = bytes[k];
        lemma_hex_digit(b / 16);
        lemma_hex_digit(b % 16);
        assert(t[2 * k] as u8 == e[2 * k]);
        assert(t[2 * k + 1] as u8 == e[2 * k + 1]);
        assert((2 * k) / 2 == k);
        assert((2 * k + 1) / 2 == k);
        assert((2 * k) % 2 == 0);
        assert((2 * k + 1) % 2 == 1);
        assert(hex_value(e[2 * k]) == Some(b / 16));
        assert(hex_value(e[2 * k + 1]) == Some(b % 16));
        assert((b / 16) * 16 + b % 16 == b);
    }
    assert(d =~= bytes);
}

} // verus!
