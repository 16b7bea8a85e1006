//! The outside cryptography the audit chain rests on: BLAKE3 hashing and
//! Ed25519 signing and verification. Each result is named, since each is a
//! function of its arguments alone that takes pages to state.

use vstd::prelude::*;
use ed25519_dalek::Signer as _;
use ed25519_dalek::Verifier as _;

verus! {

/// The 32-byte BLAKE3 digest of `data`.
pub uninterp spec fn blake3_digest(data: Seq<u8>) -> Seq<u8>;

/// The Ed25519 public key (compressed point) derived from a 32-byte secret seed.
pub uninterp spec fn ed25519_public_key(seed: Seq<u8>) -> Seq<u8>;

/// The deterministic Ed25519 signature of `msg` under the secret seed `seed`.
pub uninterp spec fn ed25519_signature(seed: Seq<u8>, msg: Seq<u8>) -> Seq<u8>;

/// Whether the encoded public key decodes to a curve point and the signature
/// verifies for `msg` under it.
pub uninterp spec fn ed25519_verifies(public_key: Seq<u8>, msg: Seq<u8>, sig: Seq<u8>) -> bool;

/// `blake3::hash`: claims that the digest is `blake3_digest` of the input
/// bytes. Nothing further (such as collision resistance) is claimed.
#[verifier::external_body]
pub(crate) fn blake3_hash(data: &[u8]) -> (h: [u8; 32])
    ensures
        h@ == blake3_digest(data@),
{
    *blake3::hash(data).as_bytes()
}

/// `ed25519_dalek::SigningKey::verifying_key` (the seed converted with
/// `SigningKey::from_bytes`, the key to bytes with `VerifyingKey::to_bytes`):
/// claims that the public key is `ed25519_public_key` of the seed.
#[verifier::external_body]
pub(crate) fn ed25519_public_key_of(seed: &[u8; 32]) -> (pk: [u8; 32])
    ensures
        pk@ == ed25519_public_key(seed@),
{
    ed25519_dalek::SigningKey::from_bytes(seed).verifying_key().to_bytes()
}

/// `<ed25519_dalek::SigningKey as Signer>::sign` (the seed converted with
/// `SigningKey::from_bytes`, the signature to bytes with `to_bytes`): claims
/// that the signature is `ed25519_signature` of the seed and the message,
/// which the source shows is deterministic (RFC 8032 signing), and that it
/// verifies for the message under the seed's public key, as the crate's
/// documentation shows (`verifying_key().verify(message, &signature)` is
/// `Ok`; the key and the signature survive `to_bytes` and `from_bytes`).
#[verifier::external_body]
pub(crate) fn ed25519_sign(seed: &[u8; 32], msg: &[u8]) -> (sig: [u8; 64])
    ensures
        sig@ == ed25519_signature(seed@, msg@),
        ed25519_verifies(ed25519_public_key(seed@), msg@, sig@),
{
    ed25519_dalek::SigningKey::from_bytes(seed).sign(msg).to_bytes()
}

/// `<ed25519_dalek::VerifyingKey as Verifier>::verify` (the key converted with
/// `VerifyingKey::from_bytes`, whose error means "does not verify", the
/// signature with `Signature::from_bytes`): claims that the answer is
/// `ed25519_verifies` of the three byte strings.
#[verifier::external_body]
pub(crate) fn ed25519_verify(public_key: &[u8; 32], msg: &[u8], sig: &[u8; 64]) -> (ok: bool)
    ensures
        ok == ed25519_verifies(public_key@, msg@, sig@),
{
    match ed25519_dalek::VerifyingKey::from_bytes(public_key) {
        Ok(vk) => vk.verify(msg, &ed25519_dalek::Signature::from_bytes(sig)).is_ok(),
        Err(_) => false,
    }
}

} // verus!
