//! The collateral tracker: what has been posted against the coin, and
//! whether it covers the coin's reference value.
//!
//! Amounts are whole numbers of hundredths of a dollar. Amounts that come in
//! are signed, so that a negative one can be told apart and refused.

use vstd::prelude::*;

verus! {

/// The reference value of the stablecoin: 314159.00 dollars, in hundredths.
pub const STABLECOIN_VALUE: u64 = 31_415_900;

/// The number of coins that the tracker reports as the coin's total supply.
pub const TOTAL_SUPPLY: u64 = 100_000_000_000;

/// The ratio of collateral to reference value is reported in millionths.
pub const RATIO_SCALE: u64 = 1_000_000;

/// The ratio of `collateral` to `value` in millionths, rounded down; zero
/// where `value` is zero.
pub open spec fn ratio_of(collateral: nat, value: nat) -> nat {
    if value == 0 {
        0
    } else {
        collateral * (RATIO_SCALE as nat) / value
    }
}

/// The tracker: the collateral posted, and what it is measured against.
pub struct Collateralization {
    collateral: u64,
    stablecoin_value: u64,
    symbol: String,
    total_supply: u64,
}

impl Collateralization {
    /// The collateral posted so far.
    pub closed spec fn collateral(&self) -> u64 {
        self.collateral
    }

    /// The value that the collateral is measured against.
    pub closed spec fn stablecoin_value(&self) -> u64 {
        self.stablecoin_value
    }

    /// The coin's ticker symbol.
    pub closed spec fn symbol(&self) -> Seq<char> {
        self.symbol@
    }

    /// The coin's total supply as the tracker reports it.
    pub closed spec fn total_supply(&self) -> u64 {
        self.total_supply
    }

    /// Whether the collateral covers the reference value.
    pub open spec fn is_collateralized(&self) -> bool {
        self.collateral() >= self.stablecoin_value()
    }

    /// A tracker with no collateral, measured against `STABLECOIN_VALUE`.
    pub fn new() -> (tracker: Self)
        ensures
            tracker.collateral() == 0,
            tracker.stablecoin_value() == STABLECOIN_VALUE,
            tracker.symbol() == "Pi"@,
            tracker.total_supply() == TOTAL_SUPPLY,
    {
        Collateralization {
            collateral: 0,
            stablecoin_value: STABLECOIN_VALUE,
            symbol: "Pi".to_string(),
            total_supply: TOTAL_SUPPLY,
        }
    }

    /// Posts `amount` more collateral. A negative amount is refused.
    ///
    /// The collateral is counted in 64 bits: the caller must not post past
    /// `u64::MAX`.
    pub fn add_collateral(&mut self, amount: i64) -> (r: Result<(), String>)
        requires
            old(self).collateral() + amount <= u64::MAX,
        ensures
            final(self).stablecoin_value() == old(self).stablecoin_value(),
            final(self).symbol() == old(self).symbol(),
            final(self).total_supply() == old(self).total_supply(),
            amount < 0 ==> {
                &&& r matches Err(e)
                &&& e@ == "Cannot add negative collateral"@
                &&& final(self).collateral() == old(self).collateral()
            },
            amount >= 0 ==> {
                &&& r is Ok
                &&& final(self).collateral() == old(self).collateral() + amount
            },
    {
        if amount < 0 {
            return Err("Cannot add negative collateral".to_string());
        }
        self.collateral = self.collateral + (amount as u64);
        Ok(())
    }

    /// Withdraws `amount` of the collateral. A negative amount is refused,
    /// and so is one larger than what is posted.
    pub fn remove_collateral(&mut self, amount: i64) -> (r: Result<(), String>)
        ensures
            final(self).stablecoin_value() == old(self).stablecoin_value(),
            final(self).symbol() == old(self).symbol(),
            final(self).total_supply() == old(self).total_supply(),
            amount < 0 ==> {
                &&& r matches Err(e)
                &&& e@ == "Cannot remove negative collateral"@
                &&& final(self).collateral() == old(self).collateral()
            },
            amount >= 0 && amount > old(self).collateral() ==> {
                &&& r matches Err(e)
                &&& e@ == "Insufficient collateral to remove"@
                &&& final(self).collateral() == old(self).collateral()
            },
            0 <= amount <= old(self).collateral() ==> {
                &&& r is Ok
                &&& final(self).collateral() == old(self).collateral() - amount
            },
    {
        if amount < 0 {
            return Err("Cannot remove negative collateral".to_string());
        }
        let wanted = amount as u64;
        if wanted > self.collateral {
            return Err("Insufficient collateral to remove".to_string());
        }
        self.collateral = self.collateral - wanted;
        Ok(())
    }

    /// Whether the collateral covers the reference value. Changes nothing.
    pub fn check_collateralization(&self) -> (covered: bool)
        ensures
            covered == self.is_collateralized(),
    {
        self.collateral >= self.stablecoin_value
    }

    /// The collateral posted so far.
    pub fn get_collateral(&self) -> (amount: u64)
        ensures
            amount == self.collateral(),
    {
        self.collateral
    }

    /// The value that the collateral is measured against.
    pub fn get_stablecoin_value(&self) -> (value: u64)
        ensures
            value == self.stablecoin_value(),
    {
        self.stablecoin_value
    }

    /// The coin's ticker symbol.
    pub fn get_symbol(&self) -> (symbol: String)
        ensures
            symbol@ == self.symbol(),
    {
        self.symbol.clone()
    }

    /// The coin's total supply as the tracker reports it.
    pub fn get_total_supply(&self) -> (supply: u64)
        ensures
            supply == self.total_supply(),
    {
        self.total_supply
    }

    /// The collateral as a fraction of the reference value, in millionths
    /// and rounded down; zero where the reference value is zero.
    pub fn collateral_ratio(&self) -> (ratio: u128)
        ensures
            ratio == ratio_of(self.collateral() as nat, self.stablecoin_value() as nat),
    {
        if self.stablecoin_value == 0 {
            return 0;
        }
        assert(self.collateral * 1_000_000 <= 0xffff_ffff_ffff_ffff * 1_000_000) by (nonlinear_arith)
            requires
                self.collateral <= 0xffff_ffff_ffff_ffff,
        ;
        let scaled: u128 = (self.collateral as u128) * (RATIO_SCALE as u128);
        scaled / (self.stablecoin_value as u128)
    }
}

} // verus!
