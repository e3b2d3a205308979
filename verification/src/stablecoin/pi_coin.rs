//! The stabiliser: the coin's price, its peg, and the step that nudges the
//! price back toward the peg.
//!
//! The price and the adjustment factor are decimal numbers; their products
//! are computed by the decimal arithmetic. The supply is a whole number of
//! coins and the reserve a whole number of dollars.

use crate::stablecoin::decimal::{
    exceeds, is_valid, lemma_pow10_adds, lemma_pow10_positive, multiply, pow10, product,
    DecimalNumber, MAX_MANTISSA,
};
use vstd::prelude::*;

verus! {

/// The peg: the price that one coin is meant to have, in dollars.
pub const TARGET_PRICE: u64 = 314_159;

/// The largest supply that the compliance rules of a new coin allow.
pub const MAX_SUPPLY: u64 = 100_000_000_000;

/// Reserve ratios are given in millionths.
pub const RATIO_SCALE: u32 = 1_000_000;

/// The smallest reserve ratio that the compliance rules of a new coin allow:
/// one half.
pub const MINIMUM_RESERVE_RATIO: u32 = 500_000;

/// The peg as a decimal number.
pub open spec fn target_price() -> DecimalNumber {
    DecimalNumber { mantissa: TARGET_PRICE as i128, scale: 0 }
}

/// The factor that lowers a price that is too high: 0.99.
pub open spec fn contraction() -> DecimalNumber {
    DecimalNumber { mantissa: 99, scale: 2 }
}

/// The factor that raises a price that is too low: 1.01.
pub open spec fn expansion() -> DecimalNumber {
    DecimalNumber { mantissa: 101, scale: 2 }
}

/// Whether `current` lies more than one percent above `target`: whether
/// the deviation `(current - target) / target` exceeds 0.01, for a target
/// above zero.
pub open spec fn is_above_band(current: DecimalNumber, target: DecimalNumber) -> bool {
    100 * (current.mantissa * pow10(target.scale as nat) - target.mantissa * pow10(
        current.scale as nat,
    )) > target.mantissa * pow10(current.scale as nat)
}

/// Whether `current` lies more than one percent below `target`: whether
/// the deviation `(current - target) / target` is less than -0.01, for a
/// target above zero.
pub open spec fn is_below_band(current: DecimalNumber, target: DecimalNumber) -> bool {
    100 * (current.mantissa * pow10(target.scale as nat) - target.mantissa * pow10(
        current.scale as nat,
    )) < -(target.mantissa * pow10(current.scale as nat))
}

/// Whether `current` is `percent` hundredths of the peg.
pub open spec fn is_percent_of_peg(current: DecimalNumber, percent: int) -> bool {
    current.mantissa * 100 == percent * TARGET_PRICE * pow10(current.scale as nat)
}

/// The band in percent of the peg: a price of more than 101 percent lies
/// above it, one of less than 99 percent below it, and every price between
/// them, the peg itself among them, inside it.
pub proof fn lemma_band_in_percent(current: DecimalNumber, percent: int)
    requires
        is_percent_of_peg(current, percent),
    ensures
        percent > 101 ==> is_above_band(current, target_price()),
        percent < 99 ==> is_below_band(current, target_price()),
        99 <= percent <= 101 ==> !is_above_band(current, target_price()) && !is_below_band(
            current,
            target_price(),
        ),
        current.same_value(target_price()) <==> percent == 100,
{
    let unit = pow10(current.scale as nat);
    lemma_pow10_positive(current.scale as nat);
    assert(pow10(0) == 1);
    assert(current.mantissa * pow10(0) == current.mantissa) by (nonlinear_arith)
        requires
            pow10(0) == 1,
    ;
    let peg = 314_159 * unit;
    assert(percent * 314_159 * unit == percent * peg) by (nonlinear_arith)
        requires
            peg == 314_159 * unit,
    ;
    assert(percent > 101 ==> percent * peg > 101 * peg) by (nonlinear_arith)
        requires
            peg > 0,
    ;
    assert(percent < 99 ==> percent * peg < 99 * peg) by (nonlinear_arith)
        requires
            peg > 0,
    ;
    assert(99 <= percent <= 101 ==> 99 * peg <= percent * peg <= 101 * peg) by (nonlinear_arith)
        requires
            peg > 0,
    ;
    assert(percent * peg == 100 * peg <==> percent == 100) by (nonlinear_arith)
        requires
            peg > 0,
    ;
}

/// A rule that the reserve and the supply must keep.
#[derive(Clone, Copy, Debug, PartialEq, Eq, Structural)]
pub enum ComplianceRule {
    /// The reserve must be at least this fraction, in millionths, of the
    /// supply's value at the peg.
    MinimumReserveRatio(u32),
    /// The supply must not exceed this number of coins.
    MaximumSupplyLimit(u64),
    /// A stability window, in seconds. It is recorded and never violated.
    StabilityWindowCheck(u64),
}

/// Whether a reserve and a supply break a rule.
pub open spec fn violates(rule: ComplianceRule, reserve: int, supply: nat) -> bool {
    match rule {
        ComplianceRule::MinimumReserveRatio(minimum) => reserve * RATIO_SCALE < minimum * supply
            * TARGET_PRICE,
        ComplianceRule::MaximumSupplyLimit(limit) => supply > limit,
        ComplianceRule::StabilityWindowCheck(_) => false,
    }
}

/// The first rule of the list that the reserve and the supply break.
pub open spec fn first_violation(rules: Seq<ComplianceRule>, reserve: int, supply: nat) -> Option<
    ComplianceRule,
>
    decreases rules.len(),
{
    if rules.len() == 0 {
        None
    } else if violates(rules[0], reserve, supply) {
        Some(rules[0])
    } else {
        first_violation(rules.drop_first(), reserve, supply)
    }
}

/// How the breach of a rule is reported.
pub open spec fn violation_message(rule: ComplianceRule) -> Seq<char> {
    match rule {
        ComplianceRule::MinimumReserveRatio(_) => "Reserve ratio violation"@,
        ComplianceRule::MaximumSupplyLimit(_) => "Maximum supply limit exceeded"@,
        ComplianceRule::StabilityWindowCheck(_) => "Stability window violation"@,
    }
}

/// Whether `r` reports the first breach among `rules`, or success if there
/// is none.
pub open spec fn reports(
    r: Result<(), String>,
    rules: Seq<ComplianceRule>,
    reserve: int,
    supply: nat,
) -> bool {
    match first_violation(rules, reserve, supply) {
        None => r is Ok,
        Some(rule) => r matches Err(e) && e@ == violation_message(rule),
    }
}

/// The coin: its peg, its price, its supply and reserve, the adjustment
/// factor, and the compliance rules.
pub struct PiCoin {
    target_value: DecimalNumber,
    current_value: DecimalNumber,
    total_supply: u64,
    reserve_backing: i128,
    algorithmic_adjustment_factor: DecimalNumber,
    compliance_checks: Vec<ComplianceRule>,
}

/// Checks one rule against a reserve and a supply.
fn rule_is_violated(rule: &ComplianceRule, reserve: i128, supply: u64) -> (v: bool)
    requires
        -(MAX_MANTISSA + 0xFFFF_FFFF_FFFF_FFFF * 314_159) <= reserve <= MAX_MANTISSA
            + 0xFFFF_FFFF_FFFF_FFFF * 314_159,
    ensures
        v == violates(*rule, reserve as int, supply as nat),
{
    match rule {
        ComplianceRule::MinimumReserveRatio(minimum) => {
            let value_at_peg: i128 = (supply as i128) * 314_159;
            assert((*minimum as int) * (supply as int * 314_159) <= 0xFFFF_FFFF * (
            0xFFFF_FFFF_FFFF_FFFF * 314_159)) by (nonlinear_arith)
                requires
                    0 <= *minimum <= 0xFFFF_FFFF,
                    0 <= supply <= 0xFFFF_FFFF_FFFF_FFFF,
            ;
            assert((*minimum as int) * (supply as int * 314_159) >= 0) by (nonlinear_arith)
                requires
                    0 <= *minimum,
                    0 <= supply,
            ;
            assert((*minimum as int) * (supply as int * 314_159) == *minimum * supply * 314_159)
                by (nonlinear_arith);
            let required: i128 = (*minimum as i128) * value_at_peg;
            reserve * 1_000_000 < required
        },
        ComplianceRule::MaximumSupplyLimit(limit) => supply > *limit,
        ComplianceRule::StabilityWindowCheck(_) => false,
    }
}

impl PiCoin {
    /// The peg.
    pub closed spec fn target_value(&self) -> DecimalNumber {
        self.target_value
    }

    /// The current price.
    pub closed spec fn current_value(&self) -> DecimalNumber {
        self.current_value
    }

    /// The number of coins in existence.
    pub closed spec fn total_supply(&self) -> u64 {
        self.total_supply
    }

    /// The reserve, in whole dollars.
    pub closed spec fn reserve_backing(&self) -> i128 {
        self.reserve_backing
    }

    /// The product of all corrections applied so far.
    pub closed spec fn adjustment_factor(&self) -> DecimalNumber {
        self.algorithmic_adjustment_factor
    }

    /// The compliance rules, in the order in which they are checked.
    pub closed spec fn compliance_rules(&self) -> Seq<ComplianceRule> {
        self.compliance_checks@
    }

    /// The invariant: the peg is 314159, the price and the factor are valid
    /// decimal numbers, and the reserve differs from the supply's value at
    /// the peg by what fits 96 bits.
    pub open spec fn wf(&self) -> bool {
        &&& self.target_value() == target_price()
        &&& self.current_value().valid()
        &&& self.adjustment_factor().valid()
        &&& -MAX_MANTISSA <= self.reserve_backing() - self.total_supply() * TARGET_PRICE
            <= MAX_MANTISSA
    }

    /// The factor that the next stabilisation step applies: 0.99 above the
    /// band of one percent around the peg, 1.01 below it, none inside it.
    pub open spec fn multiplier(&self) -> Option<DecimalNumber> {
        if is_above_band(self.current_value(), self.target_value()) {
            Some(contraction())
        } else if is_below_band(self.current_value(), self.target_value()) {
            Some(expansion())
        } else {
            None
        }
    }

    /// What the next stabilisation step turns `x` into; nothing where the
    /// product is too large for a decimal number.
    pub open spec fn adjusted(&self, x: DecimalNumber) -> Option<DecimalNumber> {
        match self.multiplier() {
            Some(m) => product(x, m),
            None => Some(x),
        }
    }

    /// Whether the next stabilisation step can compute its products.
    pub open spec fn adjustment_defined(&self) -> bool {
        &&& self.adjusted(self.current_value()) is Some
        &&& self.adjusted(self.adjustment_factor()) is Some
    }

    /// A coin at its peg with the given supply, fully backed, an adjustment
    /// factor of one, and two rules: a reserve ratio of at least one half
    /// and a supply of at most `MAX_SUPPLY`.
    pub fn new(initial_supply: u64) -> (coin: Self)
        ensures
            coin.wf(),
            coin.current_value() == target_price(),
            coin.total_supply() == initial_supply,
            coin.reserve_backing() == initial_supply * TARGET_PRICE,
            coin.adjustment_factor() == (DecimalNumber { mantissa: 1, scale: 0 }),
            coin.compliance_rules() == seq![
                ComplianceRule::MinimumReserveRatio(MINIMUM_RESERVE_RATIO),
                ComplianceRule::MaximumSupplyLimit(MAX_SUPPLY),
            ],
    {
        let mut rules: Vec<ComplianceRule> = Vec::new();
        rules.push(ComplianceRule::MinimumReserveRatio(MINIMUM_RESERVE_RATIO));
        rules.push(ComplianceRule::MaximumSupplyLimit(MAX_SUPPLY));
        let coin = PiCoin {
            target_value: DecimalNumber { mantissa: 314_159, scale: 0 },
            current_value: DecimalNumber { mantissa: 314_159, scale: 0 },
            total_supply: initial_supply,
            reserve_backing: (initial_supply as i128) * 314_159,
            algorithmic_adjustment_factor: DecimalNumber { mantissa: 1, scale: 0 },
            compliance_checks: rules,
        };
        assert(coin.compliance_rules() =~= seq![
            ComplianceRule::MinimumReserveRatio(MINIMUM_RESERVE_RATIO),
            ComplianceRule::MaximumSupplyLimit(MAX_SUPPLY),
        ]);
        coin
    }

    /// Checks the compliance rules in order against the reserve and the
    /// supply, and reports the first that is broken.
    pub fn validate_compliance_rules(&self) -> (r: Result<(), String>)
        requires
            self.wf(),
        ensures
            reports(
                r,
                self.compliance_rules(),
                self.reserve_backing() as int,
                self.total_supply() as nat,
            ),
    {
        let ghost rules = self.compliance_checks@;
        let ghost reserve = self.reserve_backing as int;
        let ghost supply = self.total_supply as nat;
        let mut i: usize = 0;
        assert(rules.skip(0) =~= rules);
        while i < self.compliance_checks.len()
            invariant
                self.wf(),
                rules == self.compliance_checks@,
                reserve == self.reserve_backing,
                supply == self.total_supply,
                i <= rules.len(),
                first_violation(rules, reserve, supply) == first_violation(
                    rules.skip(i as int),
                    reserve,
                    supply,
                ),
            decreases rules.len() - i,
        {
            let rule = &self.compliance_checks[i];
            proof {
                assert(rules.skip(i as int)[0] == rules[i as int]);
                assert(rules.skip(i as int).drop_first() =~= rules.skip(i + 1));
            }
            if rule_is_violated(rule, self.reserve_backing, self.total_supply) {
                return Err(
                    match rule {
                        ComplianceRule::MinimumReserveRatio(_) => {
                            "Reserve ratio violation".to_string()
                        },
                        ComplianceRule::MaximumSupplyLimit(_) => {
                            "Maximum supply limit exceeded".to_string()
                        },
                        ComplianceRule::StabilityWindowCheck(_) => {
                            "Stability window violation".to_string()
                        },
                    },
                );
            }
            i += 1;
        }
        Ok(())
    }

    /// A coin with the given price, supply, reserve, adjustment factor and
    /// rules; nothing where the price or the factor is no valid decimal
    /// number, or the reserve is further from the supply's value at the peg
    /// than fits 96 bits.
    pub fn restore(
        current_value: DecimalNumber,
        total_supply: u64,
        reserve_backing: i128,
        adjustment_factor: DecimalNumber,
        compliance_rules: Vec<ComplianceRule>,
    ) -> (r: Option<Self>)
        ensures
            r is Some <==> {
                &&& current_value.valid()
                &&& adjustment_factor.valid()
                &&& -MAX_MANTISSA <= reserve_backing - total_supply * TARGET_PRICE <= MAX_MANTISSA
            },
            r matches Some(coin) ==> {
                &&& coin.wf()
                &&& coin.current_value() == current_value
                &&& coin.total_supply() == total_supply
                &&& coin.reserve_backing() == reserve_backing
                &&& coin.adjustment_factor() == adjustment_factor
                &&& coin.compliance_rules() == compliance_rules@
            },
    {
        let value_at_peg: i128 = (total_supply as i128) * 314_159;
        if !is_valid(current_value) || !is_valid(adjustment_factor) {
            return None;
        }
        if reserve_backing < value_at_peg - MAX_MANTISSA || reserve_backing > value_at_peg
            + MAX_MANTISSA {
            return None;
        }
        Some(
            PiCoin {
                target_value: DecimalNumber { mantissa: 314_159, scale: 0 },
                current_value,
                total_supply,
                reserve_backing,
                algorithmic_adjustment_factor: adjustment_factor,
                compliance_checks: compliance_rules,
            },
        )
    }

    /// Whether the price lies more than one percent above the peg.
    fn price_is_above_band(&self) -> (above: bool)
        requires
            self.wf(),
        ensures
            above == is_above_band(self.current_value(), self.target_value()),
    {
        proof {
            reveal_with_fuel(pow10, 3);
            assert(pow10(0) == 1 && pow10(2) == 100);
            let m = self.current_value().mantissa;
            assert(self.target_value().mantissa == 314_159 && self.target_value().scale == 0);
            assert(m * pow10(0) == m && m * pow10(2) == m * 100) by (nonlinear_arith)
                requires
                    pow10(0) == 1,
                    pow10(2) == 100,
            ;
        }
        // 1.01 times the peg
        exceeds(self.current_value, DecimalNumber { mantissa: 31_730_059, scale: 2 })
    }

    /// Whether the price lies more than one percent below the peg.
    fn price_is_below_band(&self) -> (below: bool)
        requires
            self.wf(),
        ensures
            below == is_below_band(self.current_value(), self.target_value()),
    {
        proof {
            reveal_with_fuel(pow10, 3);
            assert(pow10(0) == 1 && pow10(2) == 100);
            let m = self.current_value().mantissa;
            assert(self.target_value().mantissa == 314_159 && self.target_value().scale == 0);
            assert(m * pow10(0) == m && m * pow10(2) == m * 100) by (nonlinear_arith)
                requires
                    pow10(0) == 1,
                    pow10(2) == 100,
            ;
        }
        // 0.99 times the peg
        exceeds(DecimalNumber { mantissa: 31_101_741, scale: 2 }, self.current_value)
    }

    /// One stabilisation step.
    ///
    /// Where the price lies more than one percent above the peg, the price
    /// and the adjustment factor are multiplied by 0.99; where it lies more
    /// than one percent below, by 1.01; inside the band nothing changes.
    /// Then the compliance rules are checked, and the first breach is
    /// reported. A breach does not undo the adjustment.
    ///
    /// The products must exist: see `try_stabilize_value`.
    pub fn stabilize_value(&mut self) -> (r: Result<(), String>)
        requires
            old(self).wf(),
            old(self).adjustment_defined(),
        ensures
            final(self).wf(),
            final(self).target_value() == old(self).target_value(),
            final(self).total_supply() == old(self).total_supply(),
            final(self).reserve_backing() == old(self).reserve_backing(),
            final(self).compliance_rules() == old(self).compliance_rules(),
            Some(final(self).current_value()) == old(self).adjusted(old(self).current_value()),
            Some(final(self).adjustment_factor()) == old(self).adjusted(
                old(self).adjustment_factor(),
            ),
            reports(
                r,
                old(self).compliance_rules(),
                old(self).reserve_backing() as int,
                old(self).total_supply() as nat,
            ),
            old(self).multiplier() is None ==> {
                &&& final(self).current_value() == old(self).current_value()
                &&& final(self).adjustment_factor() == old(self).adjustment_factor()
            },
            old(self).multiplier() == Some(contraction()) ==> {
                &&& old(self).current_value().multiplies_exactly(contraction())
                    ==> final(self).current_value().less_than(old(self).current_value())
                &&& old(self).adjustment_factor().is_positive()
                    && old(self).adjustment_factor().multiplies_exactly(contraction())
                    ==> final(self).adjustment_factor().less_than(old(self).adjustment_factor())
            },
            old(self).multiplier() == Some(expansion()) ==> {
                &&& old(self).current_value().is_positive()
                    && old(self).current_value().multiplies_exactly(expansion())
                    ==> old(self).current_value().less_than(final(self).current_value())
                &&& old(self).adjustment_factor().is_positive()
                    && old(self).adjustment_factor().multiplies_exactly(expansion())
                    ==> old(self).adjustment_factor().less_than(final(self).adjustment_factor())
            },
    {
        let multiplier = if self.price_is_above_band() {
            Some(DecimalNumber { mantissa: 99, scale: 2 })
        } else if self.price_is_below_band() {
            Some(DecimalNumber { mantissa: 101, scale: 2 })
        } else {
            None
        };
        match multiplier {
            Some(m) => {
                let value = multiply(self.current_value, m);
                let factor = multiply(self.algorithmic_adjustment_factor, m);
                proof {
                    reveal_with_fuel(pow10, 3);
                    let price = old(self).current_value();
                    let scale = old(self).adjustment_factor();
                    if price.is_positive() && price.multiplies_exactly(m) {
                        lemma_scaling(price, m);
                    }
                    if scale.is_positive() && scale.multiplies_exactly(m) {
                        lemma_scaling(scale, m);
                    }
                    if m == contraction() {
                        lemma_pow10_positive(price.scale as nat);
                        assert(pow10(0) == 1);
                        assert(price.mantissa * pow10(0) == price.mantissa) by (nonlinear_arith)
                            requires
                                pow10(0) == 1,
                        ;
                        assert(price.is_positive());
                    }
                }
                self.current_value = value.unwrap();
                self.algorithmic_adjustment_factor = factor.unwrap();
            },
            None => {},
        }
        self.validate_compliance_rules()
    }

    /// One stabilisation step, where its products exist; nothing, and no
    /// change, where one of them is too large for a decimal number.
    pub fn try_stabilize_value(&mut self) -> (r: Option<Result<(), String>>)
        requires
            old(self).wf(),
        ensures
            final(self).wf(),
            r is Some <==> old(self).adjustment_defined(),
            r is None ==> *final(self) == *old(self),
            r matches Some(outcome) ==> {
                &&& final(self).target_value() == old(self).target_value()
                &&& final(self).total_supply() == old(self).total_supply()
                &&& final(self).reserve_backing() == old(self).reserve_backing()
                &&& final(self).compliance_rules() == old(self).compliance_rules()
                &&& Some(final(self).current_value()) == old(self).adjusted(
                    old(self).current_value(),
                )
                &&& Some(final(self).adjustment_factor()) == old(self).adjusted(
                    old(self).adjustment_factor(),
                )
                &&& reports(
                    outcome,
                    old(self).compliance_rules(),
                    old(self).reserve_backing() as int,
                    old(self).total_supply() as nat,
                )
            },
    {
        let multiplier = if self.price_is_above_band() {
            Some(DecimalNumber { mantissa: 99, scale: 2 })
        } else if self.price_is_below_band() {
            Some(DecimalNumber { mantissa: 101, scale: 2 })
        } else {
            None
        };
        let defined = match multiplier {
            Some(m) => multiply(self.current_value, m).is_some() && multiply(
                self.algorithmic_adjustment_factor,
                m,
            ).is_some(),
            None => true,
        };
        if defined {
            Some(self.stabilize_value())
        } else {
            None
        }
    }

    /// The current price.
    pub fn get_current_price(&self) -> (price: DecimalNumber)
        ensures
            price == self.current_value(),
    {
        self.current_value
    }

    /// The product of all corrections applied so far.
    pub fn get_adjustment_factor(&self) -> (factor: DecimalNumber)
        ensures
            factor == self.adjustment_factor(),
    {
        self.algorithmic_adjustment_factor
    }

    /// The number of coins in existence.
    pub fn get_total_supply(&self) -> (supply: u64)
        ensures
            supply == self.total_supply(),
    {
        self.total_supply
    }

    /// A copy of the compliance rules, in the order in which they are
    /// checked.
    pub fn get_compliance_rules(&self) -> (rules: Vec<ComplianceRule>)
        ensures
            rules@ == self.compliance_rules(),
    {
        let mut rules: Vec<ComplianceRule> = Vec::new();
        let mut i: usize = 0;
        while i < self.compliance_checks.len()
            invariant
                i <= self.compliance_checks@.len(),
                rules@ == self.compliance_checks@.take(i as int),
            decreases self.compliance_checks@.len() - i,
        {
            rules.push(self.compliance_checks[i]);
            assert(rules@ =~= self.compliance_checks@.take(i + 1));
            i += 1;
        }
        assert(self.compliance_checks@.take(self.compliance_checks@.len() as int)
            =~= self.compliance_checks@);
        rules
    }

    /// The reserve, in whole dollars.
    pub fn get_reserve_backing(&self) -> (reserve: i128)
        ensures
            reserve == self.reserve_backing(),
    {
        self.reserve_backing
    }

    /// Creates `amount` coins and adds their value at the peg to the
    /// reserve. Refused where the supply would exceed `MAX_SUPPLY`.
    pub fn mint(&mut self, amount: u64) -> (r: Result<(), String>)
        requires
            old(self).wf(),
        ensures
            final(self).wf(),
            final(self).target_value() == old(self).target_value(),
            final(self).current_value() == old(self).current_value(),
            final(self).adjustment_factor() == old(self).adjustment_factor(),
            final(self).compliance_rules() == old(self).compliance_rules(),
            old(self).total_supply() + amount > MAX_SUPPLY ==> {
                &&& r matches Err(e)
                &&& e@ == "Mint would exceed maximum supply"@
                &&& final(self).total_supply() == old(self).total_supply()
                &&& final(self).reserve_backing() == old(self).reserve_backing()
            },
            old(self).total_supply() + amount <= MAX_SUPPLY ==> {
                &&& r is Ok
                &&& final(self).total_supply() == old(self).total_supply() + amount
                &&& final(self).reserve_backing() == old(self).reserve_backing() + amount
                    * TARGET_PRICE
            },
    {
        if amount > MAX_SUPPLY || self.total_supply > MAX_SUPPLY - amount {
            return Err("Mint would exceed maximum supply".to_string());
        }
        self.total_supply = self.total_supply + amount;
        self.reserve_backing = self.reserve_backing + (amount as i128) * 314_159;
        Ok(())
    }

    /// Destroys `amount` coins and takes their value at the peg out of the
    /// reserve. Refused where the amount exceeds the supply.
    pub fn burn(&mut self, amount: u64) -> (r: Result<(), String>)
        requires
            old(self).wf(),
        ensures
            final(self).wf(),
            final(self).target_value() == old(self).target_value(),
            final(self).current_value() == old(self).current_value(),
            final(self).adjustment_factor() == old(self).adjustment_factor(),
            final(self).compliance_rules() == old(self).compliance_rules(),
            amount > old(self).total_supply() ==> {
                &&& r matches Err(e)
                &&& e@ == "Burn amount exceeds total supply"@
                &&& final(self).total_supply() == old(self).total_supply()
                &&& final(self).reserve_backing() == old(self).reserve_backing()
            },
            amount <= old(self).total_supply() ==> {
                &&& r is Ok
                &&& final(self).total_supply() == old(self).total_supply() - amount
                &&& final(self).reserve_backing() == old(self).reserve_backing() - amount
                    * TARGET_PRICE
            },
    {
        if amount > self.total_supply {
            return Err("Burn amount exceeds total supply".to_string());
        }
        self.total_supply = self.total_supply - amount;
        self.reserve_backing = self.reserve_backing - (amount as i128) * 314_159;
        Ok(())
    }
}

/// Multiplying a positive number by 0.99 lowers it and by 1.01 raises it,
/// where the product can be written down as it is.
proof fn lemma_scaling(x: DecimalNumber, m: DecimalNumber)
    requires
        x.is_positive(),
        x.multiplies_exactly(m),
        m == contraction() || m == expansion(),
    ensures
        product(x, m) matches Some(p) && (m == contraction() ==> p.less_than(x)) && (m
            == expansion() ==> x.less_than(p)),
{
    let p = product(x, m)->0;
    let unit = pow10(x.scale as nat);
    lemma_pow10_positive(x.scale as nat);
    lemma_pow10_adds(x.scale as nat, 2);
    reveal_with_fuel(pow10, 3);
    assert(pow10(2) == 100);
    assert(pow10((x.scale + 2) as nat) == unit * 100);
    if m == contraction() {
        assert((x.mantissa * 99) * unit < x.mantissa * (unit * 100)) by (nonlinear_arith)
            requires
                x.mantissa > 0,
                unit > 0,
        ;
    } else {
        assert(x.mantissa * (unit * 100) < (x.mantissa * 101) * unit) by (nonlinear_arith)
            requires
                x.mantissa > 0,
                unit > 0,
        ;
    }
}

} // verus!
