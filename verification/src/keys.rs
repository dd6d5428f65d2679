//! Ed25519 key operations.
//!
//! Key generation, signing and signature verification are performed by
//! the ed25519_dalek crate; the wrappers here state only what its
//! documentation promises.  Sensitive key material is zeroized on drop.

use vstd::prelude::*;
use ed25519_dalek::{Signer, Verifier};
use rand::RngCore;

verus! {

#[verifier::external_type_specification]
#[verifier::external_body]
pub struct ExSigningKey(ed25519_dalek::SigningKey);

#[verifier::external_type_specification]
#[verifier::external_body]
pub struct ExVerifyingKey(ed25519_dalek::VerifyingKey);

/// Generate an Ed25519 keypair from the system's cryptographically
/// secure random number generator.  The keys depend on the random bytes
/// drawn, so nothing is promised of their value.
///
/// Relies on rand's `OsRng` and on ed25519_dalek's
/// `SigningKey::from_bytes` and `SigningKey::verifying_key`.
#[verifier::external_body]
pub fn generate_keypair() -> (ed25519_dalek::SigningKey, ed25519_dalek::VerifyingKey) {
    let mut csprng = rand::rngs::OsRng;
    let mut secret_bytes = zeroize::Zeroizing::new([0u8; ed25519_dalek::SECRET_KEY_LENGTH]);
    csprng.fill_bytes(&mut *secret_bytes);
    let signing_key = ed25519_dalek::SigningKey::from_bytes(&secret_bytes);
    let verifying_key = signing_key.verifying_key();
    (signing_key, verifying_key)
}

/// Sign a message with a private key.
///
/// Relies on ed25519_dalek's `Signer::sign` and `Signature::to_bytes`:
/// an Ed25519 signature is exactly 64 bytes.
#[verifier::external_body]
pub fn sign_message(signing_key: &ed25519_dalek::SigningKey, message: &[u8]) -> (r: Vec<u8>)
    ensures
        r@.len() == 64,
{
    let signature = signing_key.sign(message);
    signature.to_bytes().to_vec()
}

/// Relies on ed25519_dalek's `Signature::from_slice` and
/// `Verifier::verify`.  Whether a 64-byte signature verifies depends on
/// the key, the message and the signature together, so nothing is
/// promised of the outcome.
#[verifier::external_body]
fn dalek_verify(
    verifying_key: &ed25519_dalek::VerifyingKey,
    message: &[u8],
    signature: &[u8],
) -> bool
    requires
        signature@.len() == 64,
{
    let sig = match ed25519_dalek::Signature::from_slice(signature) {
        Ok(s) => s,
        Err(_) => return false,
    };
    verifying_key.verify(message, &sig).is_ok()
}

/// Combine a byte string with a repeating key stream: each byte is
/// exclusive-ored with the key byte at its position modulo the key
/// length.  Applying the same key again restores the original bytes.
pub fn xor_bytes(data: &[u8], key: &[u8]) -> (r: Vec<u8>)
    requires
        key@.len() > 0,
    ensures
        r@.len() == data@.len(),
        forall|i: int|
            0 <= i < data@.len() ==> r@[i] == (data@[i] ^ key@[i % key@.len() as int]),
{
    let mut r: Vec<u8> = Vec::new();
    let mut i: usize = 0;
    while i < data.len()
        invariant
            i <= data@.len(),
            key@.len() > 0,
            r@.len() == i,
            forall|j: int|
                0 <= j < i ==> r@[j] == (data@[j] ^ key@[j % key@.len() as int]),
        decreases data@.len() - i,
    {
        let b = *vstd::slice::slice_index_get(data, i) ^ *vstd::slice::slice_index_get(
            key,
            i % key.len(),
        );
        r.push(b);
        i = i + 1;
    }
    r
}

/// Exclusive-or with the same byte twice restores the original byte, so
/// applying [`xor_bytes`] with the same key twice restores the data.
pub proof fn lemma_xor_involutive(a: u8, k: u8)
    ensures
        ((a ^ k) ^ k) == a,
{
    assert(((a ^ k) ^ k) == a) by (bit_vector);
}

/// Check an Ed25519 signature over a message with a public key.
/// A signature that is not exactly 64 bytes is rejected outright.
pub fn verify_signature(
    verifying_key: &ed25519_dalek::VerifyingKey,
    message: &[u8],
    signature: &[u8],
) -> (r: bool)
    ensures
        signature@.len() != 64 ==> r == false,
{
    if signature.len() != 64 {
        return false;
    }
    dalek_verify(verifying_key, message, signature)
}

} // verus!
