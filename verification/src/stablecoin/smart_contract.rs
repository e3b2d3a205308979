//! The balance ledger: who holds how many coins, and how many exist.

use crate::stablecoin::events::EventLogger;
use crate::ordered_map::StringMap;
use crate::text::{decimal_digits, decimal_text, join3, join4};
use vstd::prelude::*;

verus! {

/// The sum of a sequence of balances.
pub open spec fn sum(values: Seq<u64>) -> nat
    decreases values.len(),
{
    if values.len() == 0 {
        0
    } else {
        sum(values.drop_last()) + values.last() as nat
    }
}

/// Appending a balance adds it to the sum.
pub proof fn lemma_sum_push(values: Seq<u64>, v: u64)
    ensures
        sum(values.push(v)) == sum(values) + v,
{
    assert(values.push(v).drop_last() =~= values);
}

/// Replacing a balance changes the sum by the difference; no balance
/// exceeds the sum.
pub proof fn lemma_sum_update(values: Seq<u64>, i: int, v: u64)
    requires
        0 <= i < values.len(),
    ensures
        sum(values.update(i, v)) == sum(values) - values[i] + v,
        values[i] <= sum(values),
    decreases values.len(),
{
    if i == values.len() - 1 {
        assert(values.update(i, v).drop_last() =~= values.drop_last());
    } else {
        lemma_sum_update(values.drop_last(), i, v);
        assert(values.update(i, v).drop_last() =~= values.drop_last().update(i, v));
    }
}

/// The sum of the first balances is at most the sum of all.
pub proof fn lemma_sum_prefix(values: Seq<u64>, n: int)
    requires
        0 <= n <= values.len(),
    ensures
        sum(values.take(n)) <= sum(values),
    decreases values.len() - n,
{
    if n < values.len() {
        lemma_sum_prefix(values, n + 1);
        assert(values.take(n + 1).drop_last() =~= values.take(n));
    } else {
        assert(values.take(n) =~= values);
    }
}

/// The record of a successful mint.
pub open spec fn mint_message(amount: nat, user: Seq<char>) -> Seq<char> {
    "Minted "@ + decimal_digits(amount) + " Pi Coins for "@ + user
}

/// The record of a successful burn.
pub open spec fn burn_message(amount: nat, user: Seq<char>) -> Seq<char> {
    "Burned "@ + decimal_digits(amount) + " Pi Coins from "@ + user
}

/// The record of a successful transfer.
pub open spec fn transfer_message(amount: nat, from: Seq<char>, to: Seq<char>) -> Seq<char> {
    "Transferred "@ + decimal_digits(amount) + " Pi Coins from "@ + from + " to "@ + to
}

/// The price of one coin at launch, in whole dollars.
pub const INITIAL_PI_VALUE: u64 = 314_159;

/// The ledger: the balances, the total supply, and the log of changes. A
/// user who was credited once stays on the ledger, also with a balance of
/// zero.
pub struct SmartContract {
    balances: StringMap<u64>,
    total_supply: u64,
    pi_value: u64,
    event_logger: EventLogger,
}

impl SmartContract {
    /// The balance of every user that was ever credited.
    pub closed spec fn balances(&self) -> Map<Seq<char>, u64> {
        self.balances@
    }

    /// The users that were ever credited, in order of their first credit.
    pub closed spec fn holders(&self) -> Seq<Seq<char>> {
        self.balances.keys()
    }

    /// The balances, each at the index of its holder.
    pub closed spec fn holdings(&self) -> Seq<u64> {
        self.balances.values()
    }

    /// The number of coins in existence.
    pub closed spec fn total_supply(&self) -> u64 {
        self.total_supply
    }

    /// The messages logged so far, oldest first.
    pub closed spec fn event_log(&self) -> Seq<Seq<char>> {
        self.event_logger.messages()
    }

    /// What `user` holds: nothing, if the ledger has never heard of them.
    pub open spec fn balance_of(&self, user: Seq<char>) -> u64 {
        if self.balances().contains_key(user) {
            self.balances()[user]
        } else {
            0
        }
    }

    /// All the coins that users hold, added up.
    pub open spec fn sum_of_balances(&self) -> nat {
        sum(self.holdings())
    }

    /// The ledger's invariant: each holder is listed once with one balance,
    /// and the total supply is the sum of all balances.
    pub closed spec fn wf(&self) -> bool {
        &&& self.balances.wf()
        &&& self.pi_value == INITIAL_PI_VALUE
        &&& self.total_supply == sum(self.balances.values())
    }

    /// In a well-formed ledger the total supply is the sum of the balances,
    /// the holders are distinct, and nobody holds more than the total supply.
    pub proof fn lemma_supply_is_sum(&self)
        requires
            self.wf(),
        ensures
            self.total_supply() == self.sum_of_balances(),
            self.holders().no_duplicates(),
            self.holders().len() == self.holdings().len(),
            forall|i: int|
                0 <= i < self.holders().len() ==> self.balances().contains_key(
                    #[trigger] self.holders()[i],
                ) && self.balances()[self.holders()[i]] == self.holdings()[i],
            forall|user: Seq<char>|
                self.balances().contains_key(user) <==> self.holders().contains(user),
            forall|user: Seq<char>| #[trigger] self.balance_of(user) <= self.total_supply(),
    {
        assert forall|i: int| 0 <= i < self.holders().len() implies self.balances().contains_key(
            #[trigger] self.holders()[i],
        ) && self.balances()[self.holders()[i]] == self.holdings()[i] by {
            self.balances.lemma_view_at(i);
        }
        assert forall|user: Seq<char>| #[trigger] self.balance_of(user) <= self.total_supply() by {
            if self.balances().contains_key(user) {
                let i = self.holders().index_of(user);
                assert(0 <= i < self.holders().len() && self.holders()[i] == user);
                self.balances.lemma_view_at(i);
                lemma_sum_update(self.holdings(), i, 0);
            }
        }
    }

    /// An empty ledger.
    pub fn new() -> (ledger: Self)
        ensures
            ledger.wf(),
            ledger.total_supply() == ledger.sum_of_balances(),
            ledger.balances() == Map::<Seq<char>, u64>::empty(),
            ledger.total_supply() == 0,
            ledger.event_log() == Seq::<Seq<char>>::empty(),
    {
        SmartContract {
            balances: StringMap::new(),
            total_supply: 0,
            pi_value: INITIAL_PI_VALUE,
            event_logger: EventLogger::new(),
        }
    }

    /// A ledger with the given balances and no log; nothing where a user is
    /// listed twice or the balances add up to more than 64 bits hold.
    pub fn from_balances(users: Vec<String>, amounts: Vec<u64>) -> (r: Option<Self>)
        requires
            users@.len() == amounts@.len(),
        ensures
            r is Some <==> Seq::new(users@.len(), |i: int| users@[i]@).no_duplicates() && sum(
                amounts@,
            ) <= u64::MAX,
            r matches Some(ledger) ==> {
                &&& ledger.wf()
                &&& ledger.holders() == Seq::new(users@.len(), |i: int| users@[i]@)
                &&& ledger.holdings() == amounts@
                &&& ledger.total_supply() == sum(amounts@)
                &&& ledger.event_log() == Seq::<Seq<char>>::empty()
            },
    {
        let ghost names = Seq::new(users@.len(), |i: int| users@[i]@);
        let mut ledger = SmartContract {
            balances: StringMap::new(),
            total_supply: 0,
            pi_value: INITIAL_PI_VALUE,
            event_logger: EventLogger::new(),
        };
        let mut i: usize = 0;
        assert(names.take(0) =~= Seq::<Seq<char>>::empty());
        assert(amounts@.take(0) =~= Seq::<u64>::empty());
        while i < users.len()
            invariant
                users@.len() == amounts@.len(),
                names == Seq::new(users@.len(), |i: int| users@[i]@),
                i <= users@.len(),
                ledger.balances.wf(),
                ledger.pi_value == INITIAL_PI_VALUE,
                ledger.balances.keys() == names.take(i as int),
                ledger.balances.values() == amounts@.take(i as int),
                ledger.total_supply == sum(amounts@.take(i as int)),
                ledger.event_logger.messages() == Seq::<Seq<char>>::empty(),
            decreases users@.len() - i,
        {
            proof {
                assert(names.take(i + 1) =~= names.take(i as int).push(names[i as int]));
                assert(amounts@.take(i + 1) =~= amounts@.take(i as int).push(amounts@[i as int]));
                lemma_sum_push(amounts@.take(i as int), amounts@[i as int]);
                lemma_sum_prefix(amounts@, i + 1);
            }
            if ledger.balances.contains_key(&users[i]) {
                proof {
                    let j = ledger.balances.keys().index_of(names[i as int]);
                    assert(0 <= j < i && names[j] == names[i as int]);
                }
                return None;
            }
            if amounts[i] > u64::MAX - ledger.total_supply {
                return None;
            }
            ledger.balances.push_new(users[i].clone(), amounts[i]);
            ledger.total_supply = ledger.total_supply + amounts[i];
            i += 1;
        }
        proof {
            assert(names.take(users@.len() as int) =~= names);
            assert(amounts@.take(users@.len() as int) =~= amounts@);
        }
        Some(ledger)
    }

    /// Creates `amount` coins and credits them to `user`.
    ///
    /// Minting nothing is refused. The supply is counted in 64 bits, so the
    /// caller must not mint past `u64::MAX`.
    pub fn mint(&mut self, user: String, amount: u64) -> (r: Result<(), String>)
        requires
            old(self).wf(),
            old(self).total_supply() + amount <= u64::MAX,
        ensures
            final(self).wf(),
            final(self).total_supply() == final(self).sum_of_balances(),
            old(self).balances().dom().subset_of(final(self).balances().dom()),
            amount != 0 && !old(self).balances().contains_key(user@) ==> final(self).balance_of(
                user@,
            ) == amount,
            amount == 0 ==> {
                &&& r matches Err(e)
                &&& e@ == "Cannot mint zero coins"@
                &&& final(self).balances() == old(self).balances()
                &&& final(self).total_supply() == old(self).total_supply()
                &&& final(self).event_log() == old(self).event_log()
            },
            amount != 0 ==> {
                &&& r is Ok
                &&& final(self).balances() == old(self).balances().insert(
                    user@,
                    (old(self).balance_of(user@) + amount) as u64,
                )
                &&& final(self).balance_of(user@) == old(self).balance_of(user@) + amount
                &&& final(self).total_supply() == old(self).total_supply() + amount
                &&& final(self).event_log() == old(self).event_log().push(
                    mint_message(amount as nat, user@),
                )
            },
    {
        if amount == 0 {
            return Err("Cannot mint zero coins".to_string());
        }
        let message = join4("Minted ", decimal_text(amount).as_str(), " Pi Coins for ", user.as_str());
        match self.balances.position(&user) {
            Some(i) => {
                let balance = *self.balances.value_at(i);
                proof {
                    lemma_sum_update(self.balances.values(), i as int, 0);
                    lemma_sum_update(self.balances.values(), i as int, (balance + amount) as u64);
                }
                self.balances.set_value(i, balance + amount);
            },
            None => {
                proof {
                    lemma_sum_push(self.balances.values(), amount);
                }
                self.balances.push_new(user, amount);
            },
        }
        self.total_supply = self.total_supply + amount;
        self.event_logger.log_event(message);
        Ok(())
    }

    /// Destroys `amount` of the coins that `user` holds.
    ///
    /// Fails for a user the ledger has never credited, and for an amount
    /// larger than the user's balance. A failure changes nothing.
    pub fn burn(&mut self, user: String, amount: u64) -> (r: Result<(), String>)
        requires
            old(self).wf(),
        ensures
            final(self).wf(),
            final(self).total_supply() == final(self).sum_of_balances(),
            old(self).balances().dom().subset_of(final(self).balances().dom()),
            !old(self).balances().contains_key(user@) ==> {
                &&& r matches Err(e)
                &&& e@ == "User  not found"@
                &&& final(self).balances() == old(self).balances()
                &&& final(self).total_supply() == old(self).total_supply()
                &&& final(self).event_log() == old(self).event_log()
            },
            old(self).balances().contains_key(user@) && old(self).balance_of(user@) < amount ==> {
                &&& r matches Err(e)
                &&& e@ == "Insufficient balance"@
                &&& final(self).balances() == old(self).balances()
                &&& final(self).total_supply() == old(self).total_supply()
                &&& final(self).event_log() == old(self).event_log()
            },
            old(self).balances().contains_key(user@) && old(self).balance_of(user@) >= amount ==> {
                &&& r is Ok
                &&& final(self).balances() == old(self).balances().insert(
                    user@,
                    (old(self).balance_of(user@) - amount) as u64,
                )
                &&& final(self).balance_of(user@) == old(self).balance_of(user@) - amount
                &&& final(self).total_supply() == old(self).total_supply() - amount
                &&& final(self).event_log() == old(self).event_log().push(
                    burn_message(amount as nat, user@),
                )
            },
    {
        match self.balances.position(&user) {
            Some(i) => {
                let balance = *self.balances.value_at(i);
                if balance >= amount {
                    let message = join4(
                        "Burned ",
                        decimal_text(amount).as_str(),
                        " Pi Coins from ",
                        user.as_str(),
                    );
                    proof {
                        lemma_sum_update(self.balances.values(), i as int, (balance - amount) as u64);
                    }
                    self.balances.set_value(i, balance - amount);
                    self.total_supply = self.total_supply - amount;
                    self.event_logger.log_event(message);
                    Ok(())
                } else {
                    Err("Insufficient balance".to_string())
                }
            },
            None => Err("User  not found".to_string()),
        }
    }

    /// Moves `amount` coins from `from` to `to`.
    ///
    /// Fails for a sender the ledger has never credited, and for an amount
    /// larger than the sender's balance. A failure changes nothing. On
    /// success the debit and the credit happen together, and the total supply
    /// does not change. A transfer to oneself changes no balance.
    pub fn transfer(&mut self, from: String, to: String, amount: u64) -> (r: Result<(), String>)
        requires
            old(self).wf(),
        ensures
            final(self).wf(),
            final(self).total_supply() == old(self).total_supply(),
            final(self).total_supply() == final(self).sum_of_balances(),
            old(self).balances().dom().subset_of(final(self).balances().dom()),
            old(self).balance_of(from@) < amount ==> r is Err && final(self).balances() == old(
                self,
            ).balances(),
            !old(self).balances().contains_key(from@) ==> {
                &&& r matches Err(e)
                &&& e@ == "Sender not found"@
                &&& final(self).balances() == old(self).balances()
                &&& final(self).event_log() == old(self).event_log()
            },
            old(self).balances().contains_key(from@) && old(self).balance_of(from@) < amount ==> {
                &&& r matches Err(e)
                &&& e@ == "Insufficient balance"@
                &&& final(self).balances() == old(self).balances()
                &&& final(self).event_log() == old(self).event_log()
            },
            old(self).balances().contains_key(from@) && old(self).balance_of(from@) >= amount ==> {
                &&& r is Ok
                &&& final(self).balances() == Self::balances_after_transfer(
                    old(self).balances(),
                    from@,
                    to@,
                    amount,
                )
                &&& from@ != to@ ==> final(self).balance_of(from@) == old(self).balance_of(from@)
                    - amount && final(self).balance_of(to@) == old(self).balance_of(to@) + amount
                &&& from@ == to@ ==> final(self).balance_of(from@) == old(self).balance_of(from@)
                &&& final(self).event_log() == old(self).event_log().push(
                    transfer_message(amount as nat, from@, to@),
                )
            },
    {
        match self.balances.position(&from) {
            Some(i) => {
                let balance_from = *self.balances.value_at(i);
                if balance_from >= amount {
                    let sent = join4(
                        "Transferred ",
                        decimal_text(amount).as_str(),
                        " Pi Coins from ",
                        from.as_str(),
                    );
                    let message = join3(sent.as_str(), " to ", to.as_str());
                    proof {
                        lemma_sum_update(
                            self.balances.values(),
                            i as int,
                            (balance_from - amount) as u64,
                        );
                        assert(message@ =~= transfer_message(amount as nat, from@, to@));
                    }
                    self.balances.set_value(i, balance_from - amount);
                    match self.balances.position(&to) {
                        Some(j) => {
                            let balance_to = *self.balances.value_at(j);
                            proof {
                                lemma_sum_update(self.balances.values(), j as int, 0);
                                lemma_sum_update(
                                    self.balances.values(),
                                    j as int,
                                    (balance_to + amount) as u64,
                                );
                            }
                            self.balances.set_value(j, balance_to + amount);
                        },
                        None => {
                            proof {
                                lemma_sum_push(self.balances.values(), amount);
                            }
                            self.balances.push_new(to, amount);
                        },
                    }
                    self.event_logger.log_event(message);
                    Ok(())
                } else {
                    Err("Insufficient balance".to_string())
                }
            },
            None => Err("Sender not found".to_string()),
        }
    }

    /// The balances after `amount` has left `from` and reached `to`: first the
    /// debit, then the credit on top of it.
    pub open spec fn balances_after_transfer(
        before: Map<Seq<char>, u64>,
        from: Seq<char>,
        to: Seq<char>,
        amount: u64,
    ) -> Map<Seq<char>, u64> {
        let debited = before.insert(from, (before[from] - amount) as u64);
        let held = if debited.contains_key(to) {
            debited[to]
        } else {
            0
        };
        debited.insert(to, (held + amount) as u64)
    }

    /// The messages logged so far, oldest first.
    pub fn get_event_log(&self) -> (log: Vec<String>)
        ensures
            log@.len() == self.event_log().len(),
            forall|i: int| 0 <= i < log@.len() ==> (#[trigger] log@[i])@ == self.event_log()[i],
    {
        let mut log: Vec<String> = Vec::new();
        let n = self.event_logger.len();
        let mut i: usize = 0;
        while i < n
            invariant
                n == self.event_logger.events().len(),
                i <= n,
                log@.len() == i,
                forall|k: int| 0 <= k < i ==> (#[trigger] log@[k])@ == self.event_logger.messages()[k],
            decreases n - i,
        {
            log.push(self.event_logger.message_at(i).clone());
            i += 1;
        }
        log
    }

    /// What `user` holds; zero for a user the ledger has never credited.
    pub fn get_balance(&self, user: &str) -> (balance: u64)
        requires
            self.wf(),
        ensures
            balance == self.balance_of(user@),
    {
        let key = user.to_string();
        match self.balances.get(&key) {
            Some(b) => *b,
            None => 0,
        }
    }

    /// Copies of the names of all users that were ever credited, in order of
    /// their first credit.
    pub fn get_holders(&self) -> (list: Vec<String>)
        requires
            self.wf(),
        ensures
            Seq::new(list@.len(), |i: int| list@[i]@) == self.holders(),
    {
        let n = self.balances.len();
        let mut list: Vec<String> = Vec::new();
        let mut i: usize = 0;
        while i < n
            invariant
                self.balances.wf(),
                n == self.balances.keys().len(),
                i <= n,
                list@.len() == i,
                forall|k: int| 0 <= k < i ==> (#[trigger] list@[k])@ == self.balances.keys()[k],
            decreases n - i,
        {
            list.push(self.balances.key_at(i).clone());
            i += 1;
        }
        proof {
            assert(Seq::new(list@.len(), |i: int| list@[i]@) =~= self.holders());
        }
        list
    }

    /// The number of coins in existence.
    pub fn get_total_supply(&self) -> (supply: u64)
        ensures
            supply == self.total_supply(),
    {
        self.total_supply
    }

    /// The price of one coin at launch, in whole dollars.
    pub fn get_pi_value(&self) -> (value: u64)
        requires
            self.wf(),
        ensures
            value == INITIAL_PI_VALUE,
    {
        self.pi_value
    }
}

} // verus!
