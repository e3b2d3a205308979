//! A stand-in cipher: it holds a key and hands data through unchanged.

use vstd::prelude::*;

verus! {

/// The key that a new `CryptoUtilsImpl` holds: the bytes 1 to 16.
pub open spec fn default_key() -> Seq<u8> {
    seq![1u8, 2u8, 3u8, 4u8, 5u8, 6u8, 7u8, 8u8, 9u8, 10u8, 11u8, 12u8, 13u8, 14u8, 15u8, 16u8]
}

/// What a cipher offers.
pub trait CryptoUtils: Sized {
    /// The key in use.
    spec fn key(&self) -> Seq<u8>;

    /// What `data` is turned into by encryption under `key`.
    spec fn encrypted(key: Seq<u8>, data: Seq<u8>) -> Seq<u8>;

    /// What `data` is turned into by decryption under `key`.
    spec fn decrypted(key: Seq<u8>, data: Seq<u8>) -> Seq<u8>;

    fn new() -> (c: Self)
        ensures
            c.key() == default_key(),
    ;

    fn encrypt_data(&self, data: Vec<u8>) -> (out: Vec<u8>)
        ensures
            out@ == Self::encrypted(self.key(), data@),
    ;

    fn decrypt_data(&self, data: Vec<u8>) -> (out: Vec<u8>)
        ensures
            out@ == Self::decrypted(self.key(), data@),
    ;
}

/// The stand-in cipher: its key.
pub struct CryptoUtilsImpl {
    key: Vec<u8>,
}

impl CryptoUtilsImpl {
    /// A cipher with the default key.
    pub fn new() -> (c: Self)
        ensures
            c.key() == default_key(),
    {
        let mut key: Vec<u8> = Vec::new();
        let mut b: u8 = 1;
        while b <= 16
            invariant
                1 <= b <= 17,
                key@.len() == b - 1,
                forall|i: int| 0 <= i < key@.len() ==> key@[i] == i + 1,
            decreases 17 - b,
        {
            key.push(b);
            b += 1;
        }
        assert(key@ =~= default_key());
        CryptoUtilsImpl { key }
    }
}

impl CryptoUtils for CryptoUtilsImpl {
    closed spec fn key(&self) -> Seq<u8> {
        self.key@
    }

    open spec fn encrypted(key: Seq<u8>, data: Seq<u8>) -> Seq<u8> {
        data
    }

    open spec fn decrypted(key: Seq<u8>, data: Seq<u8>) -> Seq<u8> {
        data
    }

    fn new() -> (c: Self) {
        CryptoUtilsImpl::new()
    }

    fn encrypt_data(&self, data: Vec<u8>) -> (out: Vec<u8>) {
        data
    }

    fn decrypt_data(&self, data: Vec<u8>) -> (out: Vec<u8>) {
        data
    }
}

/// Decrypting what was encrypted gives the data back.
pub proof fn lemma_decrypt_inverts_encrypt(key: Seq<u8>, data: Seq<u8>)
    ensures
        CryptoUtilsImpl::decrypted(key, CryptoUtilsImpl::encrypted(key, data)) == data,
{
}

} // verus!
