//! A wallet that authorises a message once enough distinct keys have put a
//! valid signature on it.

use crate::ordered_map::Key;
use crate::security::ed25519::{
    signature_is_valid, verify_signature, PublicKeyBytes, SignatureBytes,
};
use vstd::prelude::*;

verus! {

/// The number of the first `n` signatures that are valid for `message`, each
/// under the key it was added with.
pub open spec fn valid_among(
    signers: Seq<PublicKeyBytes>,
    signatures: Seq<SignatureBytes>,
    message: Seq<u8>,
    n: nat,
) -> nat
    decreases n,
{
    if n == 0 {
        0
    } else {
        let rest = valid_among(signers, signatures, message, (n - 1) as nat);
        if signature_is_valid(signers[n - 1]@, message, signatures[n - 1]@) {
            rest + 1
        } else {
            rest
        }
    }
}

/// The wallet: its keys, its threshold, and the signatures gathered so far.
pub struct MultiSigWallet {
    threshold: u32,
    public_keys: Vec<PublicKeyBytes>,
    signers: Vec<PublicKeyBytes>,
    signatures: Vec<SignatureBytes>,
}

impl MultiSigWallet {
    /// The number of valid signatures that authorisation asks for.
    pub closed spec fn threshold(&self) -> u32 {
        self.threshold
    }

    /// The keys that the wallet was made for.
    pub closed spec fn public_keys(&self) -> Seq<PublicKeyBytes> {
        self.public_keys@
    }

    /// The keys that signatures were added for, in the order of adding.
    pub closed spec fn signers(&self) -> Seq<PublicKeyBytes> {
        self.signers@
    }

    /// The signatures, each at the index of its key.
    pub closed spec fn signatures(&self) -> Seq<SignatureBytes> {
        self.signatures@
    }

    /// Whether a signature was added for `public_key`.
    pub open spec fn has_signed(&self, public_key: PublicKeyBytes) -> bool {
        exists|i: int| 0 <= i < self.signers().len() && (#[trigger] self.signers()[i])@ == public_key@
    }

    /// The invariant: the threshold is between one and the number of keys,
    /// and each key has at most one signature.
    pub open spec fn wf(&self) -> bool {
        &&& 1 <= self.threshold() <= self.public_keys().len()
        &&& self.signers().len() == self.signatures().len()
        &&& forall|i: int, j: int|
            0 <= i < j < self.signers().len() ==> (#[trigger] self.signers()[i])@ != (
            #[trigger] self.signers()[j])@
    }

    /// A wallet with no signatures. The threshold must be at least one and
    /// at most the number of keys.
    pub fn new(threshold: u32, public_keys: Vec<PublicKeyBytes>) -> (wallet: Self)
        requires
            1 <= threshold <= public_keys@.len(),
        ensures
            wallet.wf(),
            wallet.threshold() == threshold,
            wallet.public_keys() == public_keys@,
            wallet.signers() == Seq::<PublicKeyBytes>::empty(),
            wallet.signatures() == Seq::<SignatureBytes>::empty(),
    {
        MultiSigWallet { threshold, public_keys, signers: Vec::new(), signatures: Vec::new() }
    }

    /// A wallet with no signatures; nothing where the threshold is zero or
    /// above the number of keys.
    pub fn try_new(threshold: u32, public_keys: Vec<PublicKeyBytes>) -> (r: Option<Self>)
        ensures
            r is Some <==> 1 <= threshold <= public_keys@.len(),
            r matches Some(wallet) ==> {
                &&& wallet.wf()
                &&& wallet.threshold() == threshold
                &&& wallet.public_keys() == public_keys@
                &&& wallet.signers() == Seq::<PublicKeyBytes>::empty()
                &&& wallet.signatures() == Seq::<SignatureBytes>::empty()
            },
    {
        if threshold == 0 || threshold as usize > public_keys.len() {
            None
        } else {
            Some(Self::new(threshold, public_keys))
        }
    }

    /// Whether a signature was added for `public_key`.
    pub fn has_signature_of(&self, public_key: &PublicKeyBytes) -> (found: bool)
        ensures
            found == self.has_signed(*public_key),
    {
        let mut i: usize = 0;
        while i < self.signers.len()
            invariant
                i <= self.signers@.len(),
                forall|j: int| 0 <= j < i ==> (#[trigger] self.signers@[j])@ != public_key@,
            decreases self.signers@.len() - i,
        {
            if self.signers[i].same(public_key) {
                assert(self.signers()[i as int]@ == public_key@);
                return true;
            }
            i += 1;
        }
        false
    }

    /// Adds the signature of `public_key`. A second signature for the same
    /// key is refused.
    pub fn add_signature(&mut self, public_key: PublicKeyBytes, signature: SignatureBytes) -> (r:
        Result<(), String>)
        requires
            old(self).wf(),
        ensures
            final(self).wf(),
            final(self).threshold() == old(self).threshold(),
            final(self).public_keys() == old(self).public_keys(),
            old(self).has_signed(public_key) ==> {
                &&& r matches Err(e)
                &&& e@ == "Signature from this public key has already been added."@
                &&& final(self).signers() == old(self).signers()
                &&& final(self).signatures() == old(self).signatures()
            },
            !old(self).has_signed(public_key) ==> {
                &&& r is Ok
                &&& final(self).signers() == old(self).signers().push(public_key)
                &&& final(self).signatures() == old(self).signatures().push(signature)
            },
    {
        if self.has_signature_of(&public_key) {
            return Err("Signature from this public key has already been added.".to_string());
        }
        self.signers.push(public_key);
        self.signatures.push(signature);
        Ok(())
    }

    /// Whether at least `threshold` of the signatures are valid signatures
    /// of `message`, each under the key it was added with.
    pub fn verify(&self, message: &[u8]) -> (authorised: bool)
        requires
            self.wf(),
        ensures
            authorised == (valid_among(
                self.signers(),
                self.signatures(),
                message@,
                self.signers().len(),
            ) >= self.threshold()),
    {
        let mut valid: usize = 0;
        let mut i: usize = 0;
        while i < self.signers.len()
            invariant
                self.signers@.len() == self.signatures@.len(),
                i <= self.signers@.len(),
                valid <= i,
                valid == valid_among(self.signers@, self.signatures@, message@, i as nat),
            decreases self.signers@.len() - i,
        {
            if verify_signature(&self.signers[i], message, &self.signatures[i]) {
                valid += 1;
            }
            i += 1;
        }
        valid >= self.threshold as usize
    }

    /// The number of signatures added so far, valid or not.
    pub fn valid_signature_count(&self) -> (n: usize)
        ensures
            n == self.signers().len(),
    {
        self.signers.len()
    }

    /// The keys that the wallet was made for.
    pub fn get_public_keys(&self) -> (keys: &Vec<PublicKeyBytes>)
        ensures
            keys@ == self.public_keys(),
    {
        &self.public_keys
    }
}

} // verus!
