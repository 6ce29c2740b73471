use growth_means::rational::Rat;
use growth_means::trial::{run_trial, TrialError};

#[test]
fn trial_composes_balance_and_statistics() {
    // Two periods at 10%: balance 1210, mean growth factor 11/10, factor
    // product 121/100.
    let principal = Rat::new(1000, 1);
    let rates = vec![Rat::new(1, 10), Rat::new(1, 10)];
    let t = run_trial(principal, &rates).unwrap();
    assert!(t.balance.same_value(Rat::new(1210, 1)));
    assert!(t.mean_factor.same_value(Rat::new(11, 10)));
    assert!(t.factor_product.same_value(Rat::new(121, 100)));
    // The average return rate is the mean factor minus one.
    let mean_rate = t.mean_factor.checked_sub(Rat::new(1, 1)).unwrap();
    assert!(mean_rate.same_value(Rat::new(1, 10)));
}

#[test]
fn trial_with_mixed_rates() {
    // 100 * (1 + 1/2) * (1 - 1/2) = 75; factors 3/2 and 1/2: mean 1,
    // product 3/4 (the square of the geometric mean sqrt(3)/2).
    let principal = Rat::new(100, 1);
    let rates = vec![Rat::new(1, 2), Rat::new(-1, 2)];
    let t = run_trial(principal, &rates).unwrap();
    assert!(t.balance.same_value(Rat::new(75, 1)));
    assert!(t.mean_factor.same_value(Rat::new(1, 1)));
    assert!(t.factor_product.same_value(Rat::new(3, 4)));
    // AM-GM, root-free: product <= mean^2.
    let mean_squared = t.mean_factor.checked_mul(t.mean_factor).unwrap();
    assert!(t.factor_product.le(mean_squared));
}

#[test]
fn trial_needs_at_least_one_period() {
    let rates: Vec<Rat> = Vec::new();
    assert_eq!(
        run_trial(Rat::new(1000, 1), &rates),
        Err(TrialError::EmptyRates)
    );
}

#[test]
fn trial_overflow_is_reported() {
    let rates = vec![Rat::new(i64::MAX, 1)];
    assert_eq!(
        run_trial(Rat::new(2, 1), &rates),
        Err(TrialError::Overflow)
    );
}
