use growth_means::params::{ParamError, SimulationParameters};
use growth_means::rational::Rat;

#[test]
fn value_equality_ignores_representation() {
    assert!(Rat::new(1, 2).same_value(Rat::new(2, 4)));
    assert!(!Rat::new(1, 2).same_value(Rat::new(2, 3)));
}

#[test]
fn comparisons_follow_values() {
    assert!(Rat::new(1, 3).lt(Rat::new(1, 2)));
    assert!(!Rat::new(1, 2).lt(Rat::new(1, 2)));
    assert!(Rat::new(1, 2).le(Rat::new(1, 2)));
    assert!(Rat::new(-1, 2).lt(Rat::new(0, 1)));
}

#[test]
fn checked_arithmetic_is_exact() {
    let a = Rat::new(1, 10);
    let b = Rat::new(1, 1);
    let sum = b.checked_add(a).unwrap();
    assert!(sum.same_value(Rat::new(11, 10)));
    let diff = sum.checked_sub(b).unwrap();
    assert!(diff.same_value(Rat::new(1, 10)));
    let prod = sum.checked_mul(sum).unwrap();
    assert!(prod.same_value(Rat::new(121, 100)));
}

#[test]
fn checked_arithmetic_reports_overflow() {
    let big = Rat::new(i64::MAX, 1);
    assert_eq!(big.checked_mul(big), None);
    let tiny = Rat::new(1, i64::MAX);
    assert_eq!(tiny.checked_add(tiny), None);
}

#[test]
fn valid_parameters_are_accepted() {
    let p = SimulationParameters::new(
        Rat::new(1000, 1),
        40,
        Rat::new(1, 10),
        Rat::new(3, 20),
    )
    .unwrap();
    assert!(p.principal.same_value(Rat::new(1000, 1)));
    assert_eq!(p.periods, 40);
    assert!(p.mean_rate.same_value(Rat::new(1, 10)));
    assert!(p.std_dev.same_value(Rat::new(3, 20)));
}

#[test]
fn zero_standard_deviation_is_deterministic_mode_and_accepted() {
    let p = SimulationParameters::new(Rat::new(1, 1), 1, Rat::new(-1, 2), Rat::new(0, 1));
    assert!(p.is_ok());
}

#[test]
fn non_positive_principal_is_rejected() {
    let r = SimulationParameters::new(Rat::new(0, 1), 40, Rat::new(1, 10), Rat::new(3, 20));
    assert_eq!(r, Err(ParamError::NonPositivePrincipal));
    let r = SimulationParameters::new(Rat::new(-5, 1), 40, Rat::new(1, 10), Rat::new(3, 20));
    assert_eq!(r, Err(ParamError::NonPositivePrincipal));
}

#[test]
fn zero_periods_are_rejected() {
    let r = SimulationParameters::new(Rat::new(1000, 1), 0, Rat::new(1, 10), Rat::new(3, 20));
    assert_eq!(r, Err(ParamError::ZeroPeriods));
}

#[test]
fn negative_standard_deviation_is_rejected() {
    let r = SimulationParameters::new(Rat::new(1000, 1), 40, Rat::new(1, 10), Rat::new(-1, 20));
    assert_eq!(r, Err(ParamError::NegativeStdDev));
}
