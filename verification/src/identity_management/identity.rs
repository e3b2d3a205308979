//! Identities, each with an Ed25519 key pair of its own that signs for it.

use crate::security::ed25519::{
    derive_public_key, generate_secret_key, public_key_of, sign_message, signature_is_valid,
    signature_of, verify_signature, PublicKeyBytes, SecretKeyBytes, SignatureBytes,
};
use crate::ordered_map::StringMap;
use crate::text::{join3, join4, text_of};
use std::collections::HashMap;
use vstd::prelude::*;

verus! {

/// What can go wrong with an identity.
#[derive(Debug)]
pub enum IdentityError {
    /// No identity has this id.
    NotFound(String),
    SigningError(String),
    VerificationError(String),
    Other(String),
}

/// An identity as others see it: an id, a public key and what else is known
/// of it.
pub struct Identity {
    pub id: String,
    pub public_key: Vec<u8>,
    pub metadata: HashMap<String, String>,
}

/// What an identity is, mathematically.
pub ghost struct IdentityView {
    pub id: Seq<char>,
    pub public_key: Seq<u8>,
    pub metadata: Map<String, String>,
}

impl View for Identity {
    type V = IdentityView;

    open spec fn view(&self) -> IdentityView {
        IdentityView { id: self.id@, public_key: self.public_key@, metadata: self.metadata@ }
    }
}

/// An identity together with the secret key that signs for it.
struct Record {
    identity: Identity,
    secret_key: SecretKeyBytes,
}

/// The identities on file, each with the secret key that signs for it.
pub struct IdentityManager {
    identities: StringMap<Record>,
}

/// The line that reports a revocation.
pub open spec fn revocation_line(id: Seq<char>, reason: Option<Seq<char>>) -> Seq<char> {
    match reason {
        Some(reason) => "Identity "@ + id + " revoked: "@ + reason,
        None => "Identity "@ + id + " revoked."@,
    }
}

fn key_to_vec(key: &PublicKeyBytes) -> (v: Vec<u8>)
    ensures
        v@ == key@,
{
    let mut v: Vec<u8> = Vec::new();
    v.extend_from_slice(key.as_slice());
    assert(v@ =~= key@);
    v
}

impl IdentityManager {
    /// The identities by their ids.
    pub closed spec fn identities(&self) -> Map<Seq<char>, IdentityView> {
        Map::new(
            |id: Seq<char>| self.identities@.contains_key(id),
            |id: Seq<char>| self.identities@[id].identity@,
        )
    }

    /// The secret key of each identity.
    pub closed spec fn secret_keys(&self) -> Map<Seq<char>, Seq<u8>> {
        Map::new(
            |id: Seq<char>| self.identities@.contains_key(id),
            |id: Seq<char>| self.identities@[id].secret_key@,
        )
    }

    /// The invariant: each id occurs once, and each identity shows the
    /// public key that belongs to its secret key.
    pub closed spec fn wf(&self) -> bool {
        &&& self.identities.wf()
        &&& forall|i: int|
            0 <= i < self.identities.values().len() ==> (
            #[trigger] self.identities.values()[i]).identity.public_key@ == public_key_of(
                self.identities.values()[i].secret_key@,
            )
    }

    /// Each identity shows the public key that belongs to its secret key.
    pub proof fn lemma_keys_belong_together(&self)
        requires
            self.wf(),
        ensures
            self.identities().dom() == self.secret_keys().dom(),
            forall|id: Seq<char>| #[trigger]
                self.identities().contains_key(id) ==> self.identities()[id].public_key
                    == public_key_of(self.secret_keys()[id]),
    {
        assert(self.identities().dom() =~= self.secret_keys().dom());
        assert forall|id: Seq<char>| #[trigger]
            self.identities().contains_key(id) implies self.identities()[id].public_key
            == public_key_of(self.secret_keys()[id]) by {
            let i = self.identities.keys().index_of(id);
            assert(0 <= i < self.identities.keys().len() && self.identities.keys()[i] == id);
            self.identities.lemma_view_at(i);
        }
    }

    /// A manager with no identities.
    pub fn new() -> (m: Self)
        ensures
            m.wf(),
            m.identities() == Map::<Seq<char>, IdentityView>::empty(),
    {
        let m = IdentityManager { identities: StringMap::new() };
        assert(m.identities() =~= Map::<Seq<char>, IdentityView>::empty());
        m
    }

    /// Files an identity under `id` with the given secret key, in place of
    /// any identity that had the id before, and returns a copy of it.
    pub fn create_identity_with_key(
        &mut self,
        id: String,
        metadata: HashMap<String, String>,
        secret_key: SecretKeyBytes,
    ) -> (identity: Identity)
        requires
            old(self).wf(),
        ensures
            final(self).wf(),
            identity@ == (IdentityView {
                id: id@,
                public_key: public_key_of(secret_key@),
                metadata: metadata@,
            }),
            final(self).identities() == old(self).identities().insert(id@, identity@),
            final(self).secret_keys() == old(self).secret_keys().insert(id@, secret_key@),
    {
        let public_key = derive_public_key(&secret_key);
        let identity = Identity {
            id: id.clone(),
            public_key: key_to_vec(&public_key),
            metadata: metadata.clone(),
        };
        let copy = Identity { id: id.clone(), public_key: key_to_vec(&public_key), metadata };
        self.identities.insert(id, Record { identity, secret_key });
        proof {
            assert(self.identities() =~= old(self).identities().insert(id@, copy@));
            assert(self.secret_keys() =~= old(self).secret_keys().insert(id@, secret_key@));
        }
        copy
    }

    /// Files an identity under `id` with a freshly generated key pair, in
    /// place of any identity that had the id before, and returns a copy of
    /// it.
    pub fn create_identity(&mut self, id: String, metadata: HashMap<String, String>) -> (r: Result<
        Identity,
        IdentityError,
    >)
        requires
            old(self).wf(),
        ensures
            final(self).wf(),
            r matches Ok(identity) && {
                &&& identity@.id == id@
                &&& identity@.metadata == metadata@
                &&& final(self).identities() == old(self).identities().insert(id@, identity@)
                &&& final(self).secret_keys().contains_key(id@)
                &&& identity@.public_key == public_key_of(final(self).secret_keys()[id@])
            },
    {
        let secret_key = generate_secret_key();
        Ok(self.create_identity_with_key(id, metadata, secret_key))
    }

    /// Signs `message` with the key of the identity filed under `id`. The
    /// signature is valid under the identity's public key.
    pub fn sign_message(&self, id: &str, message: &[u8]) -> (r: Result<
        SignatureBytes,
        IdentityError,
    >)
        requires
            self.wf(),
        ensures
            !self.identities().contains_key(id@) ==> {
                &&& r matches Err(IdentityError::NotFound(who))
                &&& who@ == id@
            },
            self.identities().contains_key(id@) ==> {
                &&& r matches Ok(signature)
                &&& signature@ == signature_of(self.secret_keys()[id@], message@)
                &&& signature_is_valid(self.identities()[id@].public_key, message@, signature@)
            },
    {
        let key = id.to_string();
        match self.identities.position(&key) {
            Some(i) => {
                proof {
                    self.identities.lemma_view_at(i as int);
                }
                let record = self.identities.value_at(i);
                Ok(sign_message(&record.secret_key, message))
            },
            None => Err(IdentityError::NotFound(key)),
        }
    }

    /// Whether `signature` is a valid signature of `message` under the
    /// public key of the identity filed under `id`.
    pub fn verify_identity(&self, id: &str, signature: &SignatureBytes, message: &[u8]) -> (r:
        Result<bool, IdentityError>)
        requires
            self.wf(),
        ensures
            !self.identities().contains_key(id@) ==> {
                &&& r matches Err(IdentityError::NotFound(who))
                &&& who@ == id@
            },
            self.identities().contains_key(id@) ==> {
                &&& r matches Ok(valid)
                &&& valid == signature_is_valid(
                    self.identities()[id@].public_key,
                    message@,
                    signature@,
                )
            },
    {
        let key = id.to_string();
        match self.identities.position(&key) {
            Some(i) => {
                proof {
                    self.identities.lemma_view_at(i as int);
                }
                let record = self.identities.value_at(i);
                let public_key = derive_public_key(&record.secret_key);
                Ok(verify_signature(&public_key, message, signature))
            },
            None => Err(IdentityError::NotFound(key)),
        }
    }

    /// Takes the identity filed under `id` off the books and returns the
    /// line that reports it, with the reason if one is given.
    pub fn revoke_identity(&mut self, id: &str, reason: Option<String>) -> (r: Result<
        String,
        IdentityError,
    >)
        requires
            old(self).wf(),
        ensures
            final(self).wf(),
            final(self).identities() == old(self).identities().remove(id@),
            final(self).secret_keys() == old(self).secret_keys().remove(id@),
            !old(self).identities().contains_key(id@) ==> {
                &&& r matches Err(IdentityError::NotFound(who))
                &&& who@ == id@
            },
            old(self).identities().contains_key(id@) ==> {
                &&& r matches Ok(line)
                &&& line@ == revocation_line(id@, text_of(reason))
            },
    {
        let key = id.to_string();
        let removed = self.identities.remove(&key);
        proof {
            assert(self.identities() =~= old(self).identities().remove(id@));
            assert(self.secret_keys() =~= old(self).secret_keys().remove(id@));
            assert forall|i: int| 0 <= i < self.identities.values().len() implies (
            #[trigger] self.identities.values()[i]).identity.public_key@ == public_key_of(
                self.identities.values()[i].secret_key@,
            ) by {
                if removed is Some {
                    let gone = old(self).identities.keys().index_of(key@);
                    let i0 = if i < gone {
                        i
                    } else {
                        i + 1
                    };
                    assert(self.identities.values()[i] == old(self).identities.values()[i0]);
                }
            }
        }
        match removed {
            Some(_) => Ok(
                match reason {
                    Some(reason) => join4("Identity ", id, " revoked: ", reason.as_str()),
                    None => join3("Identity ", id, " revoked."),
                },
            ),
            None => Err(IdentityError::NotFound(key)),
        }
    }

    /// The identity filed under `id`, if there is one.
    pub fn get_identity(&self, id: &str) -> (r: Option<&Identity>)
        requires
            self.wf(),
        ensures
            match r {
                Some(identity) => self.identities().contains_key(id@) && identity@
                    == self.identities()[id@],
                None => !self.identities().contains_key(id@),
            },
    {
        let key = id.to_string();
        match self.identities.position(&key) {
            Some(i) => {
                proof {
                    self.identities.lemma_view_at(i as int);
                }
                Some(&self.identities.value_at(i).identity)
            },
            None => None,
        }
    }
}

} // verus!
