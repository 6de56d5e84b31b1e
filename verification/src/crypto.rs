//! The cryptographic primitives the node relies on: SHA-256 (`sha2`),
//! Ed25519 keys, signatures and verification (`ed25519_dalek`), fresh secret
//! keys from the system's random source (`getrandom`) and the wall clock
//! (`chrono`). Each is a trusted wrapper whose contract is stated over a
//! named result.

use ed25519_dalek::{Signer, Verifier};
use sha2::digest::common::Generate;
use sha2::Digest;
use vstd::prelude::*;

verus! {

/// The SHA-256 digest of `data`.
pub uninterp spec fn sha256_digest(data: Seq<u8>) -> Seq<u8>;

/// The Ed25519 public key (compressed point) belonging to a 32-byte secret key.
pub uninterp spec fn ed25519_public_key(secret: Seq<u8>) -> Seq<u8>;

/// The Ed25519 signature of `message` under a 32-byte secret key.
pub uninterp spec fn ed25519_signature(secret: Seq<u8>, message: Seq<u8>) -> Seq<u8>;

/// Whether `signature` is an Ed25519 signature of `message` that verifies
/// under the public key `public` (false where `public` is not a valid point).
pub uninterp spec fn ed25519_verify(public: Seq<u8>, message: Seq<u8>, signature: Seq<u8>) -> bool;

/// SHA-256 of `data`.
///
/// Trusted: calls `sha2::Sha256` (`new`, `update`, `finalize`). The result is
/// the digest named `sha256_digest`; its length is the 32-byte output size of
/// `Sha256`.
#[verifier::external_body]
pub(crate) fn sha256(data: &[u8]) -> (res: Vec<u8>)
    ensures
        res@ == sha256_digest(data@),
        res@.len() == 32,
{
    let mut hasher = sha2::Sha256::new();
    hasher.update(data);
    hasher.finalize().to_vec()
}

/// The public key of a secret key.
///
/// Trusted: calls `ed25519_dalek::SigningKey::from_bytes`, `verifying_key` and
/// `VerifyingKey::to_bytes`; the result is the named `ed25519_public_key`.
#[verifier::external_body]
pub(crate) fn public_key_of(secret: &[u8; 32]) -> (res: [u8; 32])
    ensures
        res@ == ed25519_public_key(secret@),
{
    ed25519_dalek::SigningKey::from_bytes(secret).verifying_key().to_bytes()
}

/// Signs `message` with a secret key.
///
/// Trusted: calls `ed25519_dalek::SigningKey::from_bytes`, `Signer::sign` and
/// `Signature::to_bytes`. The result is the named `ed25519_signature`, and,
/// as Ed25519 (RFC 8032) and the crate's documentation promise, it verifies
/// under the secret key's own public key.
#[verifier::external_body]
pub(crate) fn sign(secret: &[u8; 32], message: &[u8]) -> (res: [u8; 64])
    ensures
        res@ == ed25519_signature(secret@, message@),
        ed25519_verify(ed25519_public_key(secret@), message@, res@),
{
    ed25519_dalek::SigningKey::from_bytes(secret).sign(message).to_bytes()
}

/// Verifies a signature.
///
/// Trusted: calls `ed25519_dalek::VerifyingKey::from_bytes` (an invalid point
/// gives `false`), `Signature::from_bytes` and `Verifier::verify`; the result
/// is the named `ed25519_verify`.
#[verifier::external_body]
pub(crate) fn verify(public: &[u8; 32], message: &[u8], signature: &[u8; 64]) -> (res: bool)
    ensures
        res == ed25519_verify(public@, message@, signature@),
{
    match ed25519_dalek::VerifyingKey::from_bytes(public) {
        Ok(key) => key.verify(message, &ed25519_dalek::Signature::from_bytes(signature)).is_ok(),
        Err(_) => false,
    }
}

/// The secret key of a freshly generated signing key, or `None` where the
/// system's random source fails.
///
/// Trusted: calls `Generate::try_generate_from_rng` for
/// `ed25519_dalek::SigningKey` with `getrandom::SysRng`, then
/// `SigningKey::to_bytes`. Nothing is stated of the key: it comes from the
/// operating system's random source.
#[verifier::external_body]
pub(crate) fn generate_secret_key() -> (res: Option<[u8; 32]>) {
    match ed25519_dalek::SigningKey::try_generate_from_rng(&mut getrandom::SysRng) {
        Ok(key) => Some(key.to_bytes()),
        Err(_) => None,
    }
}

/// The current time in RFC 3339 form, or `None` where the system clock
/// reads before the Unix epoch or outside the dates `chrono` represents.
///
/// Trusted: calls `SystemTime::now`, `SystemTime::duration_since` with
/// `UNIX_EPOCH`, `chrono::DateTime::from_timestamp` and
/// `DateTime::to_rfc3339`. Nothing is stated of the text: it depends on the
/// clock.
#[verifier::external_body]
pub(crate) fn now_rfc3339() -> (res: Option<String>) {
    let elapsed = std::time::SystemTime::now().duration_since(std::time::UNIX_EPOCH).ok()?;
    let seconds = i64::try_from(elapsed.as_secs()).ok()?;
    match chrono::DateTime::from_timestamp(seconds, elapsed.subsec_nanos()) {
        Some(time) => Some(time.to_rfc3339()),
        None => None,
    }
}

} // verus!
