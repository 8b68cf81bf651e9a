//! Checking ed25519 signatures on payloads whose signer is named by a public
//! key, given either as hex text or as raw bytes.

use vstd::prelude::*;
use vstd::string::StringSliceAdditionalSpecFns;

use crate::crypto::{
    ed25519_key_accepted, ed25519_public_key, ed25519_signature, ed25519_signature_accepted,
    hex_decodable, hex_decode, hex_decoded, hex_text, lemma_hex_roundtrip, public_key_accepted,
    signature_accepted, to_array32, to_array64,
};

verus! {

/// Why a signature on a payload was not accepted.
#[derive(Debug, Clone, Copy, PartialEq, Eq)]
pub enum VerifyError {
    /// The public key text is not hex.
    PubkeyNotHex,
    /// The public key is not 32 bytes long.
    PubkeyLength,
    /// The public key bytes are not an ed25519 point.
    BadPubkey,
    /// The signature is not 64 bytes long.
    SignatureLength,
    /// The signature does not verify.
    BadSignature,
}

/// The outcome of checking `sig` over `payload` against raw public-key bytes,
/// in the order of the checks: key length, key validity, signature length,
/// signature validity.
pub open spec fn raw_signed_check(pubkey: Seq<u8>, payload: Seq<u8>, sig: Seq<u8>) -> Result<
    (),
    VerifyError,
> {
    if pubkey.len() != 32 {
        Err(VerifyError::PubkeyLength)
    } else if !ed25519_key_accepted(pubkey) {
        Err(VerifyError::BadPubkey)
    } else if sig.len() != 64 {
        Err(VerifyError::SignatureLength)
    } else if !ed25519_signature_accepted(pubkey, payload, sig) {
        Err(VerifyError::BadSignature)
    } else {
        Ok(())
    }
}

/// The outcome of checking `sig` over `payload` against a hex-encoded public
/// key: the text is first decoded (as `hex::decode` does on its UTF-8 bytes).
pub open spec fn hex_signed_check(pubkey_hex: Seq<char>, payload: Seq<u8>, sig: Seq<u8>) -> Result<
    (),
    VerifyError,
> {
    let text = vstd::utf8::encode_utf8(pubkey_hex);
    if !hex_decodable(text) {
        Err(VerifyError::PubkeyNotHex)
    } else {
        raw_signed_check(hex_decoded(text), payload, sig)
    }
}

/// Checks `sig` over `payload` against raw public-key bytes.
pub fn verify_raw_signed(pubkey: &[u8], payload: &[u8], sig: &[u8]) -> (r: Result<(), VerifyError>)
    ensures
        r == raw_signed_check(pubkey@, payload@, sig@),
{
    if pubkey.len() != 32 {
        return Err(VerifyError::PubkeyLength);
    }
    let key = to_array32(pubkey);
    if !public_key_accepted(&key) {
        return Err(VerifyError::BadPubkey);
    }
    if sig.len() != 64 {
        return Err(VerifyError::SignatureLength);
    }
    let s = to_array64(sig);
    if !signature_accepted(&key, payload, &s) {
        return Err(VerifyError::BadSignature);
    }
    Ok(())
}

/// Checks `sig` over `payload` against a hex-encoded public key.
pub fn verify_hex_signed(pubkey_hex: &str, payload: &[u8], sig: &[u8]) -> (r: Result<
    (),
    VerifyError,
>)
    ensures
        r == hex_signed_check(pubkey_hex@, payload@, sig@),
{
    match hex_decode(pubkey_hex) {
        None => Err(VerifyError::PubkeyNotHex),
        Some(bytes) => verify_raw_signed(bytes.as_slice(), payload, sig),
    }
}

/// A payload signed with a seed passes the check against the hex text of the
/// seed's public key, given the facts that `public_key_of` and `sign_bytes`
/// establish about that key and signature.
pub proof fn lemma_signed_by_seed(seed: Seq<u8>, payload: Seq<u8>)
    requires
        ed25519_public_key(seed).len() == 32,
        ed25519_key_accepted(ed25519_public_key(seed)),
        ed25519_signature(seed, payload).len() == 64,
        ed25519_signature_accepted(
            ed25519_public_key(seed),
            payload,
            ed25519_signature(seed, payload),
        ),
    ensures
        hex_signed_check(hex_text(ed25519_public_key(seed)), payload, ed25519_signature(seed, payload))
            == Ok::<(), VerifyError>(()),
        raw_signed_check(ed25519_public_key(seed), payload, ed25519_signature(seed, payload))
            == Ok::<(), VerifyError>(()),
{
    lemma_hex_roundtrip(ed25519_public_key(seed));
}

} // verus!
