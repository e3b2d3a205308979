//! A token contract: balances by account, moved by the account that calls.
//!
//! The host that runs the contract tells it who is calling; here the caller
//! is an argument.

use crate::ordered_map::OrderedMap;
use vstd::prelude::*;

verus! {

/// The address of an account.
pub type AccountId = [u8; 32];

/// An amount of tokens.
pub type Balance = u128;

/// The contract: its owner and the balances.
pub struct MyContract {
    owner: AccountId,
    balances: OrderedMap<AccountId, Balance>,
}

/// What an account holds according to `balances`: nothing, if it is not
/// listed.
pub open spec fn held(balances: Map<Seq<u8>, Balance>, account: Seq<u8>) -> Balance {
    if balances.contains_key(account) {
        balances[account]
    } else {
        0
    }
}

/// The balances after `value` has left `from` and reached `to`: first the
/// debit, then the credit on top of it.
pub open spec fn after_transfer(
    balances: Map<Seq<u8>, Balance>,
    from: Seq<u8>,
    to: Seq<u8>,
    value: Balance,
) -> Map<Seq<u8>, Balance> {
    let debited = balances.insert(from, (held(balances, from) - value) as Balance);
    debited.insert(to, (held(debited, to) + value) as Balance)
}

impl MyContract {
    /// The account that deployed the contract.
    pub closed spec fn owner_id(&self) -> AccountId {
        self.owner
    }

    /// The balances of the accounts that ever took part in a transfer or
    /// were credited.
    pub closed spec fn balances(&self) -> Map<Seq<u8>, Balance> {
        self.balances@
    }

    /// The invariant: each account is listed once.
    pub closed spec fn wf(&self) -> bool {
        self.balances.wf()
    }

    /// A contract with no balances, owned by the account that deploys it.
    pub fn new(caller: AccountId) -> (contract: Self)
        ensures
            contract.wf(),
            contract.owner_id() == caller,
            contract.balances() == Map::<Seq<u8>, Balance>::empty(),
    {
        MyContract { owner: caller, balances: OrderedMap::new() }
    }

    /// Sets what `account` holds.
    pub fn set_balance(&mut self, account: AccountId, value: Balance)
        requires
            old(self).wf(),
        ensures
            final(self).wf(),
            final(self).owner_id() == old(self).owner_id(),
            final(self).balances() == old(self).balances().insert(account@, value),
    {
        self.balances.insert(account, value);
    }

    /// Moves `value` tokens from the caller to `to`. Refused where the
    /// caller holds less. Balances are 128 bits wide; the recipient's must
    /// not pass `u128::MAX`.
    pub fn transfer(&mut self, caller: AccountId, to: AccountId, value: Balance) -> (r: Result<
        (),
        &'static str,
    >)
        requires
            old(self).wf(),
            caller@ != to@ ==> held(old(self).balances(), to@) + value <= u128::MAX,
        ensures
            final(self).wf(),
            final(self).owner_id() == old(self).owner_id(),
            held(old(self).balances(), caller@) < value ==> {
                &&& r matches Err(e)
                &&& e@ == "Insufficient balance"@
                &&& final(self).balances() == old(self).balances()
            },
            held(old(self).balances(), caller@) >= value ==> {
                &&& r is Ok
                &&& final(self).balances() == after_transfer(
                    old(self).balances(),
                    caller@,
                    to@,
                    value,
                )
            },
    {
        let caller_balance = self.balance_of(caller);
        if caller_balance < value {
            return Err("Insufficient balance");
        }
        self.balances.insert(caller, caller_balance - value);
        let recipient_balance = self.balance_of(to);
        self.balances.insert(to, recipient_balance + value);
        Ok(())
    }

    /// What `account` holds; nothing, if it is not listed.
    pub fn balance_of(&self, account: AccountId) -> (balance: Balance)
        requires
            self.wf(),
        ensures
            balance == held(self.balances(), account@),
    {
        match self.balances.get(&account) {
            Some(b) => *b,
            None => 0,
        }
    }

    /// The account that deployed the contract.
    pub fn owner(&self) -> (owner: AccountId)
        ensures
            owner == self.owner_id(),
    {
        self.owner
    }
}

} // verus!
