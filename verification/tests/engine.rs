use growth_means::compound::{compound, compound_fixed, growth_factors, CompoundError};
use growth_means::rational::Rat;

#[test]
fn zero_periods_returns_principal_deterministic() {
    let principal = Rat::new(1000, 1);
    let rate = Rat::new(1, 10);
    let (balance, rates) = compound_fixed(principal, rate, 0).unwrap();
    assert!(balance.same_value(Rat::new(1000, 1)));
    assert_eq!(rates.len(), 0);
}

#[test]
fn zero_periods_returns_principal_with_empty_rates() {
    let principal = Rat::new(1000, 1);
    let rates: Vec<Rat> = Vec::new();
    let balance = compound(principal, &rates).unwrap();
    assert!(balance.same_value(Rat::new(1000, 1)));
    assert_eq!(balance, principal);
}

#[test]
fn three_periods_at_ten_percent_gives_1331() {
    let principal = Rat::new(1000, 1);
    let rate = Rat::new(1, 10);
    let (balance, rates) = compound_fixed(principal, rate, 3).unwrap();
    assert!(balance.same_value(Rat::new(1331, 1)));
    assert_eq!(rates.len(), 3);
    for r in rates.iter() {
        assert!(r.same_value(Rat::new(1, 10)));
    }
}

#[test]
fn fixed_mode_matches_explicit_rate_sequence() {
    let principal = Rat::new(777, 2);
    let rate = Rat::new(3, 50);
    let (fixed_balance, rates) = compound_fixed(principal, rate, 5).unwrap();
    let looped_balance = compound(principal, &rates).unwrap();
    assert!(fixed_balance.same_value(looped_balance));
}

#[test]
fn varying_rates_compound_in_order() {
    // 100 * (1 + 1/2) * (1 - 1/4) = 100 * 3/2 * 3/4 = 225/2.
    let principal = Rat::new(100, 1);
    let rates = vec![Rat::new(1, 2), Rat::new(-1, 4)];
    let balance = compound(principal, &rates).unwrap();
    assert!(balance.same_value(Rat::new(225, 2)));
}

#[test]
fn loss_beyond_full_is_accepted_not_clamped() {
    // A rate of -3/2 gives the growth factor -1/2: the balance goes negative.
    let principal = Rat::new(1000, 1);
    let rates = vec![Rat::new(-3, 2)];
    let balance = compound(principal, &rates).unwrap();
    assert!(balance.same_value(Rat::new(-500, 1)));
}

#[test]
fn overflowing_growth_factor_is_reported() {
    let principal = Rat::new(2, 1);
    let rates = vec![Rat::new(i64::MAX, 1)];
    assert_eq!(compound(principal, &rates), Err(CompoundError::Overflow));
}

#[test]
fn overflowing_balance_is_reported() {
    let principal = Rat::new(i64::MAX, 1);
    let rates = vec![Rat::new(i64::MAX - 1, 1)];
    assert_eq!(compound(principal, &rates), Err(CompoundError::Overflow));
}

#[test]
fn growth_factors_are_one_plus_rate() {
    let rates = vec![Rat::new(1, 10), Rat::new(-1, 2)];
    let factors = growth_factors(&rates).unwrap();
    assert_eq!(factors.len(), 2);
    assert!(factors[0].same_value(Rat::new(11, 10)));
    assert!(factors[1].same_value(Rat::new(1, 2)));
}

#[test]
fn growth_factors_overflow_is_reported() {
    let rates = vec![Rat::new(1, 10), Rat::new(i64::MAX, 1)];
    assert_eq!(growth_factors(&rates), Err(CompoundError::Overflow));
}
