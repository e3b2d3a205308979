//! Authenticated encryption of byte strings with AES-128-GCM.
//!
//! An encrypted message is the nonce, 12 bytes, followed by what the cipher
//! made of the data under that nonce.

use aes_gcm::aead::Aead;
use aes_gcm::Aes128Gcm;
use aes_gcm::Key;
use aes_gcm::KeyInit;
use aes_gcm::Nonce;
use rand::Rng;
use vstd::prelude::*;
use vstd::slice::slice_subrange;

verus! {

/// The length of a key, in bytes.
pub const KEY_LENGTH: usize = 16;

/// The length of a nonce, in bytes.
pub const NONCE_LENGTH: usize = 12;

/// What AES-128-GCM makes of `plaintext` under `key` and `nonce`: the
/// ciphertext with its tag, or nothing where the cipher refuses.
pub uninterp spec fn sealed(key: Seq<u8>, nonce: Seq<u8>, plaintext: Seq<u8>) -> Option<Seq<u8>>;

/// What AES-128-GCM recovers from `ciphertext` under `key` and `nonce`:
/// the plaintext, or nothing where the ciphertext is not authentic.
pub uninterp spec fn opened(key: Seq<u8>, nonce: Seq<u8>, ciphertext: Seq<u8>) -> Option<Seq<u8>>;

/// The bytes of a byte vector that may be missing.
pub open spec fn bytes_of(r: Option<Vec<u8>>) -> Option<Seq<u8>> {
    match r {
        Some(v) => Some(v@),
        None => None,
    }
}

/// `Aes128Gcm::new` on the key and, on the cipher it gives, `Aead::encrypt`
/// with no associated data.
///
/// Claimed of it: the answer depends on the key, the nonce and the plaintext
/// alone.
#[verifier::external_body]
fn seal(key: &[u8], nonce: &[u8], plaintext: &[u8]) -> (r: Option<Vec<u8>>)
    requires
        key@.len() == KEY_LENGTH,
        nonce@.len() == NONCE_LENGTH,
    ensures
        bytes_of(r) == sealed(key@, nonce@, plaintext@),
{
    let cipher = Aes128Gcm::new(Key::<Aes128Gcm>::from_slice(key));
    match cipher.encrypt(Nonce::from_slice(nonce), plaintext) {
        Ok(ciphertext) => Some(ciphertext),
        Err(_) => None,
    }
}

/// `Aes128Gcm::new` on the key and, on the cipher it gives, `Aead::decrypt`
/// with no associated data.
///
/// Claimed of it: the answer depends on the key, the nonce and the
/// ciphertext alone, and what was sealed under a key and a nonce is opened
/// by them to what it was.
#[verifier::external_body]
fn open(key: &[u8], nonce: &[u8], ciphertext: &[u8]) -> (r: Option<Vec<u8>>)
    requires
        key@.len() == KEY_LENGTH,
        nonce@.len() == NONCE_LENGTH,
    ensures
        bytes_of(r) == opened(key@, nonce@, ciphertext@),
        forall|plaintext: Seq<u8>|
            sealed(key@, nonce@, plaintext) == Some(ciphertext@) ==> bytes_of(r) == Some(
                plaintext,
            ),
{
    let cipher = Aes128Gcm::new(Key::<Aes128Gcm>::from_slice(key));
    match cipher.decrypt(Nonce::from_slice(nonce), ciphertext) {
        Ok(plaintext) => Some(plaintext),
        Err(_) => None,
    }
}

/// `Rng::fill` of the thread's random number generator on 12 bytes. Nothing
/// is claimed of the bytes: they are random.
#[verifier::external_body]
fn random_nonce() -> (nonce: [u8; 12]) {
    let mut nonce = [0u8; 12];
    rand::thread_rng().fill(&mut nonce);
    nonce
}

/// Whether `r` is what encrypting `data` under `key` with `nonce` gives.
pub open spec fn encrypted_as(
    r: Result<Vec<u8>, String>,
    data: Seq<u8>,
    key: Seq<u8>,
    nonce: Seq<u8>,
) -> bool {
    if key.len() != KEY_LENGTH {
        r matches Err(e) && e@ == "Key must be 16 bytes long for AES-128."@
    } else {
        match sealed(key, nonce, data) {
            Some(ciphertext) => r matches Ok(message) && message@ == nonce + ciphertext,
            None => r matches Err(e) && e@ == "Encryption failed."@,
        }
    }
}

/// Encrypts `data` under `key` with the given nonce.
pub fn encrypt_with_nonce(data: &[u8], key: &[u8], nonce: &[u8; 12]) -> (r: Result<
    Vec<u8>,
    String,
>)
    ensures
        encrypted_as(r, data@, key@, nonce@),
{
    if key.len() != KEY_LENGTH {
        return Err("Key must be 16 bytes long for AES-128.".to_string());
    }
    match seal(key, nonce.as_slice(), data) {
        Some(ciphertext) => {
            let mut message: Vec<u8> = Vec::new();
            message.extend_from_slice(nonce.as_slice());
            message.extend_from_slice(ciphertext.as_slice());
            assert(message@ =~= nonce@ + ciphertext@);
            Ok(message)
        },
        None => Err("Encryption failed.".to_string()),
    }
}

/// Encrypts `data` under `key` with a fresh random nonce. The key must be 16
/// bytes long.
pub fn encrypt(data: &[u8], key: &[u8]) -> (r: Result<Vec<u8>, String>)
    ensures
        exists|nonce: Seq<u8>| nonce.len() == NONCE_LENGTH && encrypted_as(r, data@, key@, nonce),
{
    let nonce = random_nonce();
    let r = encrypt_with_nonce(data, key, &nonce);
    assert(nonce@.len() == NONCE_LENGTH && encrypted_as(r, data@, key@, nonce@));
    r
}

/// Decrypts a message that `encrypt` made under `key`.
///
/// The key must be 16 bytes long, and the message must hold at least its
/// nonce. A message that is not authentic under the key is refused. What
/// was encrypted under the key comes back as it was.
pub fn decrypt(data: &[u8], key: &[u8]) -> (r: Result<Vec<u8>, String>)
    requires
        key@.len() == KEY_LENGTH ==> data@.len() >= NONCE_LENGTH,
    ensures
        key@.len() != KEY_LENGTH ==> {
            &&& r matches Err(e)
            &&& e@ == "Key must be 16 bytes long for AES-128."@
        },
        key@.len() == KEY_LENGTH ==> match opened(
            key@,
            data@.take(NONCE_LENGTH as int),
            data@.skip(NONCE_LENGTH as int),
        ) {
            Some(plaintext) => r matches Ok(p) && p@ == plaintext,
            None => r matches Err(e) && e@ == "Decryption failed."@,
        },
        forall|plaintext: Seq<u8>|
            key@.len() == KEY_LENGTH && sealed(key@, data@.take(NONCE_LENGTH as int), plaintext)
                == Some(data@.skip(NONCE_LENGTH as int)) ==> (r matches Ok(p) && p@ == plaintext),
{
    if key.len() != KEY_LENGTH {
        return Err("Key must be 16 bytes long for AES-128.".to_string());
    }
    let nonce = slice_subrange(data, 0, NONCE_LENGTH);
    let ciphertext = slice_subrange(data, NONCE_LENGTH, data.len());
    proof {
        assert(nonce@ =~= data@.take(NONCE_LENGTH as int));
        assert(ciphertext@ =~= data@.skip(NONCE_LENGTH as int));
    }
    match open(key, nonce, ciphertext) {
        Some(plaintext) => Ok(plaintext),
        None => Err("Decryption failed.".to_string()),
    }
}

} // verus!
