//! Ed25519 keys and signatures as plain bytes, and the operations on them
//! that the crate takes from `ed25519_dalek`.

use ed25519_dalek::Signature;
use ed25519_dalek::Signer;
use ed25519_dalek::SigningKey;
use ed25519_dalek::Verifier;
use ed25519_dalek::VerifyingKey;
use vstd::prelude::*;

verus! {

/// The bytes of a public key.
pub type PublicKeyBytes = [u8; 32];

/// The bytes of a secret key.
pub type SecretKeyBytes = [u8; 32];

/// The bytes of a signature.
pub type SignatureBytes = [u8; 64];

/// Whether `signature` is a valid Ed25519 signature of `message` under
/// `public_key`, as `ed25519_dalek` judges it.
pub uninterp spec fn signature_is_valid(
    public_key: Seq<u8>,
    message: Seq<u8>,
    signature: Seq<u8>,
) -> bool;

/// The public key that belongs to a secret key.
pub uninterp spec fn public_key_of(secret_key: Seq<u8>) -> Seq<u8>;

/// The signature of `message` under `secret_key`.
pub uninterp spec fn signature_of(secret_key: Seq<u8>, message: Seq<u8>) -> Seq<u8>;

/// `VerifyingKey::from_bytes` and, on the key it gives, `Verifier::verify`.
///
/// Claimed of it: the verdict depends on the three byte strings alone. Bytes
/// that are no public key verify nothing.
#[verifier::external_body]
pub(crate) fn verify_signature(
    public_key: &PublicKeyBytes,
    message: &[u8],
    signature: &SignatureBytes,
) -> (valid: bool)
    ensures
        valid == signature_is_valid(public_key@, message@, signature@),
{
    match VerifyingKey::from_bytes(public_key) {
        Ok(key) => key.verify(message, &Signature::from_bytes(signature)).is_ok(),
        Err(_) => false,
    }
}

/// `SigningKey::generate` with the operating system's random number
/// generator, the key read back as bytes. Nothing is claimed of the key: it
/// is random.
#[verifier::external_body]
pub(crate) fn generate_secret_key() -> (secret_key: SecretKeyBytes) {
    SigningKey::generate(&mut rand::rngs::OsRng).to_bytes()
}

/// `SigningKey::from_bytes` and `verifying_key`, the key read back as bytes.
///
/// Claimed of it: the public key depends on the secret key alone.
#[verifier::external_body]
pub(crate) fn derive_public_key(secret_key: &SecretKeyBytes) -> (public_key: PublicKeyBytes)
    ensures
        public_key@ == public_key_of(secret_key@),
{
    SigningKey::from_bytes(secret_key).verifying_key().to_bytes()
}

/// `SigningKey::from_bytes` and, on the key it gives, `Signer::sign`, the
/// signature read back as bytes.
///
/// Claimed of it: the signature depends on the secret key and the message
/// alone, and it is valid under the public key that belongs to the secret
/// key.
#[verifier::external_body]
pub(crate) fn sign_message(secret_key: &SecretKeyBytes, message: &[u8]) -> (signature:
    SignatureBytes)
    ensures
        signature@ == signature_of(secret_key@, message@),
        signature_is_valid(public_key_of(secret_key@), message@, signature@),
{
    SigningKey::from_bytes(secret_key).sign(message).to_bytes()
}

} // verus!
