//! The multi-signature authoriser: a named transaction may be executed once
//! enough distinct owners have signed it.
//!
//! The wallet only gates authorisation. What an executed transaction does is
//! the caller's business, and so is remembering that it was executed.

use crate::ordered_map::StringMap;
use crate::string_set::StringSet;
use vstd::prelude::*;

verus! {

/// A proposed transaction and the owners who have signed it.
pub struct Transaction {
    description: String,
    signatures: StringSet,
}

/// What a transaction is, mathematically.
pub ghost struct TransactionView {
    pub description: Seq<char>,
    pub signatures: Set<Seq<char>>,
}

impl View for Transaction {
    type V = TransactionView;

    closed spec fn view(&self) -> TransactionView {
        TransactionView { description: self.description@, signatures: self.signatures@ }
    }
}

impl Transaction {
    /// The signers are kept without repetition.
    pub closed spec fn wf(&self) -> bool {
        self.signatures.wf()
    }

    /// The signers, in the order in which they signed.
    pub closed spec fn signers(&self) -> Seq<Seq<char>> {
        self.signatures.members()
    }

    /// The signers are listed once each: their number is the number of
    /// signatures.
    pub proof fn lemma_signers(&self)
        requires
            self.wf(),
        ensures
            self@.signatures.finite(),
            self@.signatures.len() == self.signers().len(),
            self@.signatures == self.signers().to_set(),
            self.signers().no_duplicates(),
    {
        self.signatures.lemma_len();
    }

    /// What the transaction is about.
    pub fn description(&self) -> (d: &String)
        ensures
            d@ == self@.description,
    {
        &self.description
    }

    /// The number of distinct owners who have signed.
    pub fn signature_count(&self) -> (n: usize)
        requires
            self.wf(),
        ensures
            n == self@.signatures.len(),
    {
        self.signatures.len()
    }

    /// Copies of the signers, in the order in which they signed.
    pub fn get_signers(&self) -> (list: Vec<String>)
        requires
            self.wf(),
        ensures
            Seq::new(list@.len(), |i: int| list@[i]@) == self.signers(),
    {
        self.signatures.to_vec()
    }

    /// Whether `owner` has signed.
    pub fn is_signed_by(&self, owner: &str) -> (b: bool)
        requires
            self.wf(),
        ensures
            b == self@.signatures.contains(owner@),
    {
        let key = owner.to_string();
        self.signatures.contains(&key)
    }
}

/// The wallet: its owners, its threshold and the proposed transactions.
pub struct MultiSigWallet {
    owners: StringSet,
    required_signatures: usize,
    transactions: StringMap<Transaction>,
}

impl MultiSigWallet {
    /// The owners, fixed when the wallet was made.
    pub closed spec fn owners(&self) -> Set<Seq<char>> {
        self.owners@
    }

    /// The number of signatures that execution asks for.
    pub closed spec fn required_signatures(&self) -> usize {
        self.required_signatures
    }

    /// The proposed transactions by their ids.
    pub closed spec fn transactions(&self) -> Map<Seq<char>, TransactionView> {
        Map::new(
            |id: Seq<char>| self.transactions@.contains_key(id),
            |id: Seq<char>| self.transactions@[id]@,
        )
    }

    /// How the transactions on file may change: none is lost or reworded,
    /// and no signature is taken back.
    pub open spec fn follows(
        before: Map<Seq<char>, TransactionView>,
        after: Map<Seq<char>, TransactionView>,
    ) -> bool {
        forall|id: Seq<char>| #[trigger]
            before.contains_key(id) ==> {
                &&& after.contains_key(id)
                &&& after[id].description == before[id].description
                &&& before[id].signatures.subset_of(after[id].signatures)
            }
    }

    /// The wallet's invariant: the threshold is at least one and at most the
    /// number of owners; owners and transaction ids are kept without
    /// repetition, and so are each transaction's signers, who are all owners.
    pub closed spec fn wf(&self) -> bool {
        &&& self.owners.wf()
        &&& 1 <= self.required_signatures <= self.owners.members().len()
        &&& self.transactions.wf()
        &&& forall|i: int|
            0 <= i < self.transactions.values().len() ==> {
                &&& (#[trigger] self.transactions.values()[i]).wf()
                &&& self.transactions.values()[i]@.signatures.subset_of(self.owners@)
            }
    }

    /// In a well-formed wallet every recorded signer is an owner, and every
    /// signature set is finite.
    pub proof fn lemma_signers_are_owners(&self)
        requires
            self.wf(),
        ensures
            self.owners().finite(),
            1 <= self.required_signatures() <= self.owners().len(),
            forall|id: Seq<char>| #[trigger]
                self.transactions().contains_key(id) ==> self.transactions()[id].signatures.finite()
                    && self.transactions()[id].signatures.subset_of(self.owners()),
    {
        self.owners.lemma_len();
        assert forall|id: Seq<char>| #[trigger]
            self.transactions().contains_key(id) implies self.transactions()[id].signatures.finite()
            && self.transactions()[id].signatures.subset_of(self.owners()) by {
            let i = self.transactions.keys().index_of(id);
            assert(0 <= i < self.transactions.keys().len() && self.transactions.keys()[i] == id);
            self.transactions.lemma_view_at(i);
            self.transactions.values()[i].lemma_signers();
        }
    }

    /// The owners that a list names, each once.
    pub open spec fn named(owners: Seq<String>) -> Set<Seq<char>> {
        Seq::new(owners.len(), |i: int| owners[i]@).to_set()
    }

    /// A wallet of the given owners with no transactions. An owner named more
    /// than once counts once. The threshold must be at least one and at most
    /// the number of owners.
    pub fn new(owners: Vec<String>, required_signatures: usize) -> (wallet: Self)
        requires
            1 <= required_signatures <= Self::named(owners@).len(),
        ensures
            wallet.wf(),
            wallet.owners() == Self::named(owners@),
            wallet.required_signatures() == required_signatures,
            wallet.transactions() == Map::<Seq<char>, TransactionView>::empty(),
    {
        let owners = StringSet::from_vec(owners);
        proof {
            owners.lemma_len();
        }
        let wallet = MultiSigWallet { owners, required_signatures, transactions: StringMap::new() };
        assert(wallet.transactions() =~= Map::<Seq<char>, TransactionView>::empty());
        wallet
    }

    /// A wallet of the given owners with no transactions; nothing where the
    /// threshold is zero or above the number of owners.
    pub fn try_new(owners: Vec<String>, required_signatures: usize) -> (r: Option<Self>)
        ensures
            r is Some <==> 1 <= required_signatures <= Self::named(owners@).len(),
            r matches Some(wallet) ==> {
                &&& wallet.wf()
                &&& wallet.owners() == Self::named(owners@)
                &&& wallet.required_signatures() == required_signatures
                &&& wallet.transactions() == Map::<Seq<char>, TransactionView>::empty()
            },
    {
        let owners = StringSet::from_vec(owners);
        if required_signatures == 0 || required_signatures > owners.len() {
            return None;
        }
        let wallet = MultiSigWallet { owners, required_signatures, transactions: StringMap::new() };
        assert(wallet.transactions() =~= Map::<Seq<char>, TransactionView>::empty());
        Some(wallet)
    }

    /// Records a new transaction with no signatures. An id that is already in
    /// use is refused.
    pub fn propose_transaction(&mut self, transaction_id: String, description: String) -> (r:
        Result<(), String>)
        requires
            old(self).wf(),
        ensures
            final(self).wf(),
            final(self).owners() == old(self).owners(),
            final(self).required_signatures() == old(self).required_signatures(),
            Self::follows(old(self).transactions(), final(self).transactions()),
            old(self).transactions().contains_key(transaction_id@) ==> {
                &&& r matches Err(e)
                &&& e@ == "Transaction already exists"@
                &&& final(self).transactions() == old(self).transactions()
            },
            !old(self).transactions().contains_key(transaction_id@) ==> {
                &&& r is Ok
                &&& final(self).transactions() == old(self).transactions().insert(
                    transaction_id@,
                    TransactionView { description: description@, signatures: Set::empty() },
                )
            },
    {
        if self.transactions.contains_key(&transaction_id) {
            return Err("Transaction already exists".to_string());
        }
        let transaction = Transaction { description, signatures: StringSet::new() };
        self.transactions.push_new(transaction_id, transaction);
        proof {
            assert(self.transactions() =~= old(self).transactions().insert(
                transaction_id@,
                TransactionView { description: description@, signatures: Set::empty() },
            ));
        }
        Ok(())
    }

    /// Adds `signer`'s signature to a transaction.
    ///
    /// Refused, in this order: for a signer who is no owner, for an unknown
    /// transaction, and for an owner who has signed it before. A refusal
    /// changes nothing.
    pub fn sign_transaction(&mut self, transaction_id: &str, signer: String) -> (r: Result<
        (),
        String,
    >)
        requires
            old(self).wf(),
        ensures
            final(self).wf(),
            final(self).owners() == old(self).owners(),
            final(self).required_signatures() == old(self).required_signatures(),
            Self::follows(old(self).transactions(), final(self).transactions()),
            r is Err ==> final(self).transactions() == old(self).transactions(),
            !old(self).owners().contains(signer@) ==> {
                &&& r matches Err(e)
                &&& e@ == "Signer is not an owner"@
            },
            old(self).owners().contains(signer@) && !old(self).transactions().contains_key(
                transaction_id@,
            ) ==> {
                &&& r matches Err(e)
                &&& e@ == "Transaction not found"@
            },
            old(self).owners().contains(signer@) && old(self).transactions().contains_key(
                transaction_id@,
            ) && old(self).transactions()[transaction_id@].signatures.contains(signer@) ==> {
                &&& r matches Err(e)
                &&& e@ == "Transaction already signed by this owner"@
            },
            old(self).owners().contains(signer@) && old(self).transactions().contains_key(
                transaction_id@,
            ) && !old(self).transactions()[transaction_id@].signatures.contains(signer@) ==> {
                &&& r is Ok
                &&& final(self).transactions() == old(self).transactions().insert(
                    transaction_id@,
                    TransactionView {
                        description: old(self).transactions()[transaction_id@].description,
                        signatures: old(self).transactions()[transaction_id@].signatures.insert(
                            signer@,
                        ),
                    },
                )
            },
    {
        if !self.owners.contains(&signer) {
            return Err("Signer is not an owner".to_string());
        }
        let key = transaction_id.to_string();
        match self.transactions.position(&key) {
            Some(i) => {
                proof {
                    self.transactions.lemma_view_at(i as int);
                }
                let transaction = self.transactions.value_at_mut(i);
                let added = transaction.signatures.insert(signer);
                proof {
                    assert(self.transactions.values()[i as int]@.signatures.subset_of(
                        self.owners@,
                    ));
                    assert(self.wf());
                    if added {
                        assert(self.transactions() =~= old(self).transactions().insert(
                            transaction_id@,
                            TransactionView {
                                description: old(self).transactions()[transaction_id@].description,
                                signatures: old(
                                    self,
                                ).transactions()[transaction_id@].signatures.insert(signer@),
                            },
                        ));
                    } else {
                        assert(self.transactions.values()[i as int]@ == old(
                            self,
                        ).transactions.values()[i as int]@);
                        assert(self.transactions() =~= old(self).transactions());
                    }
                }
                if added {
                    Ok(())
                } else {
                    Err("Transaction already signed by this owner".to_string())
                }
            },
            None => Err("Transaction not found".to_string()),
        }
    }

    /// Says whether a transaction may be executed: it may once at least
    /// `required_signatures` distinct owners have signed it.
    pub fn execute_transaction(&self, transaction_id: &str) -> (r: Result<bool, String>)
        requires
            self.wf(),
        ensures
            !self.transactions().contains_key(transaction_id@) ==> {
                &&& r matches Err(e)
                &&& e@ == "Transaction not found"@
            },
            self.transactions().contains_key(transaction_id@)
                && self.transactions()[transaction_id@].signatures.len()
                < self.required_signatures() ==> {
                &&& r matches Err(e)
                &&& e@ == "Not enough signatures to execute transaction."@
            },
            self.transactions().contains_key(transaction_id@)
                && self.transactions()[transaction_id@].signatures.len()
                >= self.required_signatures() ==> r == Ok::<bool, String>(true),
    {
        let key = transaction_id.to_string();
        match self.transactions.position(&key) {
            Some(i) => {
                proof {
                    self.transactions.lemma_view_at(i as int);
                }
                let transaction = self.transactions.value_at(i);
                if transaction.signature_count() >= self.required_signatures {
                    Ok(true)
                } else {
                    Err("Not enough signatures to execute transaction.".to_string())
                }
            },
            None => Err("Transaction not found".to_string()),
        }
    }

    /// Copies of the owners, each once.
    pub fn get_owners(&self) -> (list: Vec<String>)
        requires
            self.wf(),
        ensures
            Seq::new(list@.len(), |i: int| list@[i]@).to_set() == self.owners(),
            Seq::new(list@.len(), |i: int| list@[i]@).no_duplicates(),
    {
        self.owners.to_vec()
    }

    /// The number of signatures that execution asks for.
    pub fn get_required_signatures(&self) -> (n: usize)
        ensures
            n == self.required_signatures(),
    {
        self.required_signatures
    }

    /// Copies of the ids of the proposed transactions, each once, in the
    /// order of proposal.
    pub fn get_transaction_ids(&self) -> (list: Vec<String>)
        requires
            self.wf(),
        ensures
            Seq::new(list@.len(), |i: int| list@[i]@).to_set() == self.transactions().dom(),
            Seq::new(list@.len(), |i: int| list@[i]@).no_duplicates(),
    {
        let n = self.transactions.len();
        let mut list: Vec<String> = Vec::new();
        let mut i: usize = 0;
        while i < n
            invariant
                self.transactions.wf(),
                n == self.transactions.keys().len(),
                i <= n,
                list@.len() == i,
                forall|k: int| 0 <= k < i ==> (#[trigger] list@[k])@ == self.transactions.keys()[k],
            decreases n - i,
        {
            list.push(self.transactions.key_at(i).clone());
            i += 1;
        }
        proof {
            let ids = Seq::new(list@.len(), |i: int| list@[i]@);
            assert(ids =~= self.transactions.keys());
            assert(ids.to_set() =~= self.transactions().dom());
        }
        list
    }

    /// Looks a transaction up. Changes nothing.
    pub fn get_transaction_status(&self, transaction_id: &str) -> (r: Option<&Transaction>)
        requires
            self.wf(),
        ensures
            match r {
                Some(t) => self.transactions().contains_key(transaction_id@) && t@
                    == self.transactions()[transaction_id@] && t.wf(),
                None => !self.transactions().contains_key(transaction_id@),
            },
    {
        let key = transaction_id.to_string();
        match self.transactions.position(&key) {
            Some(i) => {
                proof {
                    self.transactions.lemma_view_at(i as int);
                }
                Some(self.transactions.value_at(i))
            },
            None => None,
        }
    }
}

} // verus!
