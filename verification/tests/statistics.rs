use growth_means::rational::Rat;
use growth_means::stats::{arithmetic_mean, growth_product, StatsError};

#[test]
fn mean_of_equal_factors_is_the_factor() {
    let xs = vec![Rat::new(11, 10), Rat::new(11, 10), Rat::new(11, 10)];
    let mean = arithmetic_mean(&xs).unwrap();
    assert!(mean.same_value(Rat::new(11, 10)));
}

#[test]
fn product_of_equal_factors_is_the_cube() {
    // The geometric mean of three copies of 11/10 is 11/10: its cube is the
    // product 1331/1000.
    let xs = vec![Rat::new(11, 10), Rat::new(11, 10), Rat::new(11, 10)];
    let product = growth_product(&xs).unwrap();
    assert!(product.same_value(Rat::new(1331, 1000)));
    let mean = arithmetic_mean(&xs).unwrap();
    let mean_cubed = mean.checked_mul(mean).unwrap().checked_mul(mean).unwrap();
    assert!(product.same_value(mean_cubed));
}

#[test]
fn unequal_factors_mean_and_strictly_smaller_product() {
    // [12/10, 1]: arithmetic mean 11/10; the geometric mean is sqrt(12/10),
    // and its square 12/10 lies strictly below the mean's square 121/100.
    let xs = vec![Rat::new(12, 10), Rat::new(1, 1)];
    let mean = arithmetic_mean(&xs).unwrap();
    assert!(mean.same_value(Rat::new(11, 10)));
    let product = growth_product(&xs).unwrap();
    assert!(product.same_value(Rat::new(12, 10)));
    let mean_squared = mean.checked_mul(mean).unwrap();
    assert!(product.lt(mean_squared));
    assert!(mean_squared.same_value(Rat::new(121, 100)));
}

#[test]
fn statistics_are_order_independent() {
    let xs = vec![Rat::new(12, 10), Rat::new(1, 1), Rat::new(7, 5)];
    let ys = vec![Rat::new(7, 5), Rat::new(12, 10), Rat::new(1, 1)];
    let mean_xs = arithmetic_mean(&xs).unwrap();
    let mean_ys = arithmetic_mean(&ys).unwrap();
    assert!(mean_xs.same_value(mean_ys));
    let prod_xs = growth_product(&xs).unwrap();
    let prod_ys = growth_product(&ys).unwrap();
    assert!(prod_xs.same_value(prod_ys));
}

#[test]
fn product_at_most_mean_power_for_positive_factors() {
    // AM-GM on a three-element sequence: product <= mean^3.
    let xs = vec![Rat::new(3, 2), Rat::new(1, 2), Rat::new(2, 1)];
    let mean = arithmetic_mean(&xs).unwrap();
    let product = growth_product(&xs).unwrap();
    let mean_cubed = mean.checked_mul(mean).unwrap().checked_mul(mean).unwrap();
    assert!(product.le(mean_cubed));
}

#[test]
fn empty_input_is_rejected() {
    let xs: Vec<Rat> = Vec::new();
    assert_eq!(arithmetic_mean(&xs), Err(StatsError::EmptyInput));
    assert_eq!(growth_product(&xs), Err(StatsError::EmptyInput));
}

#[test]
fn mean_overflow_is_reported() {
    let xs = vec![Rat::new(1, i64::MAX), Rat::new(1, i64::MAX)];
    assert_eq!(arithmetic_mean(&xs), Err(StatsError::Overflow));
}

#[test]
fn product_overflow_is_reported() {
    let xs = vec![Rat::new(i64::MAX, 1), Rat::new(i64::MAX, 1)];
    assert_eq!(growth_product(&xs), Err(StatsError::Overflow));
}

#[test]
fn non_positive_factor_still_gives_exact_product() {
    // With a factor <= 0 the geometric mean is undefined as a real number;
    // the product itself is still returned exactly, unclamped.
    let xs = vec![Rat::new(-1, 2), Rat::new(3, 1)];
    let product = growth_product(&xs).unwrap();
    assert!(product.same_value(Rat::new(-3, 2)));
}

#[test]
fn mean_of_single_element_is_the_element() {
    let xs = vec![Rat::new(-7, 3)];
    let mean = arithmetic_mean(&xs).unwrap();
    assert!(mean.same_value(Rat::new(-7, 3)));
}
