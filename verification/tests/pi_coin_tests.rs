use pi_stellar_nexus::stablecoin::decimal::{exceeds, multiply, DecimalNumber, MAX_MANTISSA};
use pi_stellar_nexus::stablecoin::pi_coin::{ComplianceRule, PiCoin, MAX_SUPPLY};

fn dec(mantissa: i128, scale: u32) -> DecimalNumber {
    DecimalNumber { mantissa, scale }
}

fn default_rules() -> Vec<ComplianceRule> {
    vec![
        ComplianceRule::MinimumReserveRatio(500_000),
        ComplianceRule::MaximumSupplyLimit(MAX_SUPPLY),
    ]
}

fn coin_priced_at(price: DecimalNumber) -> PiCoin {
    PiCoin::restore(price, 100_000, 100_000 * 314_159, dec(1, 0), default_rules()).unwrap()
}

#[test]
fn test_pi_coin_initialization() {
    let pi_coin = PiCoin::new(100_000);

    assert_eq!(pi_coin.get_current_price(), dec(314_159, 0));
    assert_eq!(pi_coin.get_total_supply(), 100_000);
    assert_eq!(pi_coin.get_reserve_backing(), 31_415_900_000);
    assert_eq!(pi_coin.get_adjustment_factor(), dec(1, 0));
}

#[test]
fn test_minting() {
    let mut pi_coin = PiCoin::new(100_000);
    let result = pi_coin.mint(50_000);

    assert!(result.is_ok());
    assert_eq!(pi_coin.get_total_supply(), 150_000);
    assert_eq!(pi_coin.get_reserve_backing(), 150_000 * 314_159);
}

#[test]
fn test_burning() {
    let mut pi_coin = PiCoin::new(100_000);
    let result = pi_coin.burn(50_000);

    assert!(result.is_ok());
    assert_eq!(pi_coin.get_total_supply(), 50_000);
    assert_eq!(pi_coin.get_reserve_backing(), 50_000 * 314_159);
}

#[test]
fn test_exceeding_supply_limit() {
    let mut pi_coin = PiCoin::new(MAX_SUPPLY);
    let result = pi_coin.mint(1);

    assert!(result.is_err());
    assert_eq!(result.unwrap_err(), "Mint would exceed maximum supply");
    assert_eq!(pi_coin.get_total_supply(), MAX_SUPPLY);
}

#[test]
fn minting_up_to_the_limit_succeeds() {
    let mut pi_coin = PiCoin::new(MAX_SUPPLY - 1);
    assert!(pi_coin.mint(1).is_ok());
    assert_eq!(pi_coin.get_total_supply(), MAX_SUPPLY);
    assert!(pi_coin.mint(0).is_ok());
    assert!(pi_coin.mint(u64::MAX).is_err());
}

#[test]
fn burning_more_than_the_supply_is_refused() {
    let mut pi_coin = PiCoin::new(10);
    assert_eq!(pi_coin.burn(11).unwrap_err(), "Burn amount exceeds total supply");
    assert_eq!(pi_coin.get_total_supply(), 10);
    assert!(pi_coin.burn(10).is_ok());
    assert_eq!(pi_coin.get_reserve_backing(), 0);
}

#[test]
fn a_price_at_the_peg_is_left_alone() {
    let mut pi_coin = PiCoin::new(100_000);
    assert!(pi_coin.stabilize_value().is_ok());
    assert_eq!(pi_coin.get_current_price(), dec(314_159, 0));
    assert_eq!(pi_coin.get_adjustment_factor(), dec(1, 0));
}

#[test]
fn a_price_two_percent_high_is_lowered() {
    // 314159 * 1.02 = 320442.18
    let mut pi_coin = coin_priced_at(dec(32_044_218, 2));
    assert!(pi_coin.stabilize_value().is_ok());
    // 320442.18 * 0.99 = 317237.7582
    assert_eq!(pi_coin.get_current_price(), dec(3_172_377_582, 4));
    assert_eq!(pi_coin.get_adjustment_factor(), dec(99, 2));
    assert!(exceeds(dec(32_044_218, 2), pi_coin.get_current_price()));
    assert!(exceeds(dec(1, 0), pi_coin.get_adjustment_factor()));
}

#[test]
fn a_price_two_percent_low_is_raised() {
    // 314159 * 0.98 = 307875.82
    let mut pi_coin = coin_priced_at(dec(30_787_582, 2));
    assert_eq!(pi_coin.try_stabilize_value(), Some(Ok(())));
    // 307875.82 * 1.01 = 310954.5782
    assert_eq!(pi_coin.get_current_price(), dec(3_109_545_782, 4));
    assert_eq!(pi_coin.get_adjustment_factor(), dec(101, 2));
}

#[test]
fn the_band_is_one_percent_wide_on_each_side() {
    // exactly 1% above: 317300.59 is inside the band
    let mut pi_coin = coin_priced_at(dec(31_730_059, 2));
    pi_coin.stabilize_value().unwrap();
    assert_eq!(pi_coin.get_current_price(), dec(31_730_059, 2));
    // a hair above
    let mut pi_coin = coin_priced_at(dec(317_300_591, 3));
    pi_coin.stabilize_value().unwrap();
    assert_eq!(pi_coin.get_current_price(), dec(31_412_758_509, 5));
    // exactly 1% below: 311017.41 is inside the band
    let mut pi_coin = coin_priced_at(dec(31_101_741, 2));
    pi_coin.stabilize_value().unwrap();
    assert_eq!(pi_coin.get_current_price(), dec(31_101_741, 2));
    // a hair below
    let mut pi_coin = coin_priced_at(dec(311_017_409, 3));
    pi_coin.stabilize_value().unwrap();
    assert_eq!(pi_coin.get_current_price(), dec(31_412_758_309, 5));
}

#[test]
fn repeated_steps_bring_the_price_into_the_band() {
    let mut pi_coin = coin_priced_at(dec(350_000, 0));
    let mut steps = 0;
    loop {
        let before = pi_coin.get_current_price();
        pi_coin.try_stabilize_value().unwrap().unwrap();
        if pi_coin.get_current_price() == before {
            break;
        }
        assert!(exceeds(before, pi_coin.get_current_price()));
        steps += 1;
    }
    // 350000 * 0.99^10 = 316533.7..., the first value within 1% of the peg
    assert_eq!(steps, 10);
    assert!(!exceeds(pi_coin.get_current_price(), dec(31_730_059, 2)));
    assert!(exceeds(pi_coin.get_current_price(), dec(31_101_741, 2)));
}

#[test]
fn a_breach_is_reported_and_the_adjustment_stays() {
    let rules = default_rules();
    let mut pi_coin =
        PiCoin::restore(dec(32_044_218, 2), MAX_SUPPLY + 1, 0, dec(1, 0), rules).unwrap();
    let result = pi_coin.stabilize_value();
    assert_eq!(result.unwrap_err(), "Reserve ratio violation");
    assert_eq!(pi_coin.get_current_price(), dec(3_172_377_582, 4));
    assert_eq!(pi_coin.get_adjustment_factor(), dec(99, 2));
}

// A reserve of ten billion dollars behind 100000 coins at 314159 dollars is
// less than a third of their value: below the minimum of one half.
#[test]
fn test_compliance_check() {
    let pi_coin = PiCoin::restore(
        dec(314_159, 0),
        100_000,
        10_000_000_000,
        dec(1, 0),
        default_rules(),
    )
    .unwrap();

    let result = pi_coin.validate_compliance_rules();
    assert_eq!(result.unwrap_err(), "Reserve ratio violation");
}

#[test]
fn a_fresh_coin_is_compliant() {
    let pi_coin = PiCoin::new(100_000);
    assert!(pi_coin.validate_compliance_rules().is_ok());
}

// One step takes one percent off a price that is two percent high: the price
// comes closer to the peg and does not reach it.
#[test]
fn test_stabilization_mechanism() {
    let mut pi_coin = coin_priced_at(multiply(dec(314_159, 0), dec(102, 2)).unwrap());
    pi_coin.stabilize_value().unwrap();

    assert_eq!(pi_coin.get_current_price(), dec(3_172_377_582, 4));
    assert!(exceeds(pi_coin.get_current_price(), dec(314_159, 0)));
    assert!(exceeds(dec(32_044_218, 2), pi_coin.get_current_price()));
}

#[test]
fn the_supply_limit_is_checked() {
    let pi_coin = PiCoin::new(MAX_SUPPLY + 1);
    assert_eq!(
        pi_coin.validate_compliance_rules().unwrap_err(),
        "Maximum supply limit exceeded"
    );
    let pi_coin = PiCoin::new(MAX_SUPPLY);
    assert!(pi_coin.validate_compliance_rules().is_ok());
}

#[test]
fn the_reserve_ratio_is_checked() {
    let half = 100_000 * 314_159 / 2;
    let coin = |reserve: i128| {
        PiCoin::restore(dec(314_159, 0), 100_000, reserve, dec(1, 0), default_rules()).unwrap()
    };
    assert!(coin(half).validate_compliance_rules().is_ok());
    assert_eq!(
        coin(half - 1).validate_compliance_rules().unwrap_err(),
        "Reserve ratio violation"
    );
    assert_eq!(coin(-1).validate_compliance_rules().unwrap_err(), "Reserve ratio violation");
}

#[test]
fn rules_are_checked_in_order() {
    let rules = vec![
        ComplianceRule::StabilityWindowCheck(60),
        ComplianceRule::MaximumSupplyLimit(10),
        ComplianceRule::MinimumReserveRatio(1_000_000),
    ];
    let coin = PiCoin::restore(dec(314_159, 0), 11, 0, dec(1, 0), rules).unwrap();
    assert_eq!(coin.validate_compliance_rules().unwrap_err(), "Maximum supply limit exceeded");
    let coin = PiCoin::restore(dec(314_159, 0), 0, 0, dec(1, 0), Vec::new()).unwrap();
    assert!(coin.validate_compliance_rules().is_ok());
    let rules = vec![ComplianceRule::MinimumReserveRatio(1_000_000)];
    let coin = PiCoin::restore(dec(314_159, 0), 0, 0, dec(1, 0), rules).unwrap();
    assert!(coin.validate_compliance_rules().is_ok());
}

#[test]
fn restore_refuses_what_is_no_decimal_number() {
    assert!(PiCoin::restore(dec(MAX_MANTISSA + 1, 0), 0, 0, dec(1, 0), Vec::new()).is_none());
    assert!(PiCoin::restore(dec(1, 29), 0, 0, dec(1, 0), Vec::new()).is_none());
    assert!(PiCoin::restore(dec(1, 0), 0, 0, dec(-MAX_MANTISSA - 1, 0), Vec::new()).is_none());
    assert!(PiCoin::restore(dec(1, 0), 0, MAX_MANTISSA + 1, dec(1, 0), Vec::new()).is_none());
    assert!(PiCoin::restore(dec(1, 28), 0, MAX_MANTISSA, dec(-1, 0), Vec::new()).is_some());
}

#[test]
fn a_product_too_large_stops_the_step() {
    // far below the band: the step would multiply the factor by 1.01
    let mut pi_coin =
        PiCoin::restore(dec(1, 0), 1, 314_159, dec(MAX_MANTISSA, 0), default_rules()).unwrap();
    assert_eq!(pi_coin.try_stabilize_value(), None);
    assert_eq!(pi_coin.get_current_price(), dec(1, 0));
    assert_eq!(pi_coin.get_adjustment_factor(), dec(MAX_MANTISSA, 0));
}

#[test]
fn products_are_exact_where_they_fit() {
    assert_eq!(multiply(dec(32_044_218, 2), dec(99, 2)), Some(dec(3_172_377_582, 4)));
    assert_eq!(multiply(dec(-5, 1), dec(3, 0)), Some(dec(-15, 1)));
    assert_eq!(multiply(dec(0, 5), dec(3, 7)), Some(dec(0, 0)));
    assert_eq!(multiply(dec(MAX_MANTISSA, 0), dec(2, 0)), None);
    assert_eq!(multiply(dec(MAX_MANTISSA + 1, 0), dec(1, 0)), None);
    assert!(multiply(dec(1, 28), dec(1, 1)).is_some());
}

#[test]
fn comparison_goes_by_value() {
    assert!(exceeds(dec(2, 0), dec(15, 1)));
    assert!(!exceeds(dec(15, 1), dec(2, 0)));
    assert!(!exceeds(dec(10, 1), dec(1, 0)));
    assert!(!exceeds(dec(1, 0), dec(10, 1)));
    assert!(exceeds(dec(-1, 3), dec(-1, 2)));
    assert!(exceeds(dec(1, 28), dec(0, 0)));
    assert!(!exceeds(dec(1, 29), dec(0, 0)));
}
