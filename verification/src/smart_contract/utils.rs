use vstd::prelude::*;

verus! {

/// The fee charged on a transaction: one percent of the amount, rounded down.
pub open spec fn fee_of(amount: nat) -> nat {
    amount / 100
}

/// Computes the fee owed on `amount`.
pub fn calculate_fee(amount: u128) -> (fee: u128)
    ensures
        fee == fee_of(amount as nat),
        fee <= amount,
{
    amount / 100
}

} // verus!
