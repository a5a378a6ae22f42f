use forward_pricing::pricing::DividendYield;
use forward_pricing::pricing::ForwardPrice;
use forward_pricing::pricing::InterestRate;
use forward_pricing::pricing::PricingError;
use forward_pricing::pricing::SpotPrice;
use forward_pricing::pricing::TimeToMaturity;
use forward_pricing::pricing::calculate_forward_price;
use forward_pricing::pricing::calculate_implied_dividend;
use forward_pricing::pricing::calculate_implied_interest;
use forward_pricing::pricing::calculate_implied_spot_price;
use forward_pricing::rational::Rational;

fn value(r: Rational) -> f64 {
    r.num as f64 / r.den as f64
}

#[test]
fn test_calculate_forward_price() {
    let spot_price = SpotPrice(Rational::new(67, 1));
    let interest_rate = InterestRate(Rational::new(707, 10000));
    let time_to_maturity = TimeToMaturity(Rational::new(8, 12));
    let expected_dividend = DividendYield(Rational::new(66, 100));
    let forward_price =
        calculate_forward_price(spot_price, interest_rate, time_to_maturity, expected_dividend).0;
    assert!((value(forward_price) - 69.5).abs() < 0.01);
}

#[test]
fn test_calculate_implied_interest_rate() {
    let forward_price = ForwardPrice(Rational::new(695, 10));
    let spot_price = SpotPrice(Rational::new(67, 1));
    let time_to_maturity = TimeToMaturity(Rational::new(8, 12));
    let expected_dividend = DividendYield(Rational::new(66, 100));
    let interest_rate =
        calculate_implied_interest(forward_price, spot_price, time_to_maturity, expected_dividend)
            .unwrap()
            .0;
    assert!((value(interest_rate) - 0.0707).abs() < 0.001);
}

#[test]
fn test_calculate_implied_spot_price() {
    let forward_price = ForwardPrice(Rational::new(695, 10));
    let interest_rate = InterestRate(Rational::new(707, 10000));
    let time_to_maturity = TimeToMaturity(Rational::new(8, 12));
    let expected_dividend = DividendYield(Rational::new(66, 100));
    let spot_price = calculate_implied_spot_price(
        forward_price,
        interest_rate,
        time_to_maturity,
        expected_dividend,
    )
    .unwrap()
    .0;
    assert!((value(spot_price) - 67.0).abs() < 0.01);
}

#[test]
fn test_calculate_implied_dividend() {
    let forward_price = ForwardPrice(Rational::new(695, 10));
    let spot_price = SpotPrice(Rational::new(67, 1));
    let interest_rate = InterestRate(Rational::new(707, 10000));
    let time_to_maturity = TimeToMaturity(Rational::new(8, 12));
    let expected_dividend =
        calculate_implied_dividend(forward_price, spot_price, interest_rate, time_to_maturity).0;
    assert!((value(expected_dividend) - 0.66).abs() < 0.01);
}

#[test]
fn test_forward_price_exact_value() {
    let spot_price = SpotPrice(Rational::new(67, 1));
    let interest_rate = InterestRate(Rational::new(707, 10000));
    let time_to_maturity = TimeToMaturity(Rational::new(8, 12));
    let expected_dividend = DividendYield(Rational::new(66, 100));
    let forward_price =
        calculate_forward_price(spot_price, interest_rate, time_to_maturity, expected_dividend).0;
    // 67 * (1 + 0.0707 * 8/12) - 0.66 == 833975200 / 12000000 == 69.49793333...
    assert_eq!(forward_price.num, 833975200);
    assert_eq!(forward_price.den, 12000000);
}

#[test]
fn test_round_trip_recovers_rate_exactly() {
    let spot_price = SpotPrice(Rational::new(67, 1));
    let interest_rate = InterestRate(Rational::new(707, 10000));
    let time_to_maturity = TimeToMaturity(Rational::new(8, 12));
    let expected_dividend = DividendYield(Rational::new(66, 100));
    let forward_price =
        calculate_forward_price(spot_price, interest_rate, time_to_maturity, expected_dividend);
    let implied =
        calculate_implied_interest(forward_price, spot_price, time_to_maturity, expected_dividend)
            .unwrap()
            .0;
    assert_eq!(implied.num * 10000, 707 * implied.den);
}

#[test]
fn test_round_trip_recovers_spot_exactly() {
    let spot_price = SpotPrice(Rational::new(67, 1));
    let interest_rate = InterestRate(Rational::new(707, 10000));
    let time_to_maturity = TimeToMaturity(Rational::new(8, 12));
    let expected_dividend = DividendYield(Rational::new(66, 100));
    let forward_price =
        calculate_forward_price(spot_price, interest_rate, time_to_maturity, expected_dividend);
    let implied = calculate_implied_spot_price(
        forward_price,
        interest_rate,
        time_to_maturity,
        expected_dividend,
    )
    .unwrap()
    .0;
    assert_eq!(implied.num, 67 * implied.den);
}

#[test]
fn test_round_trip_recovers_dividend_exactly() {
    let spot_price = SpotPrice(Rational::new(67, 1));
    let interest_rate = InterestRate(Rational::new(707, 10000));
    let time_to_maturity = TimeToMaturity(Rational::new(8, 12));
    let expected_dividend = DividendYield(Rational::new(66, 100));
    let forward_price =
        calculate_forward_price(spot_price, interest_rate, time_to_maturity, expected_dividend);
    let implied =
        calculate_implied_dividend(forward_price, spot_price, interest_rate, time_to_maturity).0;
    assert_eq!(implied.num * 100, 66 * implied.den);
}

#[test]
fn test_zero_time_is_domain_error() {
    let forward_price = ForwardPrice(Rational::new(695, 10));
    let spot_price = SpotPrice(Rational::new(67, 1));
    let time_to_maturity = TimeToMaturity(Rational::new(0, 1));
    let expected_dividend = DividendYield(Rational::new(66, 100));
    let implied =
        calculate_implied_interest(forward_price, spot_price, time_to_maturity, expected_dividend);
    assert_eq!(implied, Err(PricingError::DomainError));
}

#[test]
fn test_zero_spot_is_domain_error() {
    let forward_price = ForwardPrice(Rational::new(695, 10));
    let spot_price = SpotPrice(Rational::new(0, 1));
    let time_to_maturity = TimeToMaturity(Rational::new(8, 12));
    let expected_dividend = DividendYield(Rational::new(66, 100));
    let implied =
        calculate_implied_interest(forward_price, spot_price, time_to_maturity, expected_dividend);
    assert_eq!(implied, Err(PricingError::DomainError));
}

#[test]
fn test_degenerate_growth_is_domain_error() {
    // rate * time == (-3/2) * (2/3) == -1, so 1 + rate * time == 0.
    let forward_price = ForwardPrice(Rational::new(695, 10));
    let interest_rate = InterestRate(Rational::new(-3, 2));
    let time_to_maturity = TimeToMaturity(Rational::new(2, 3));
    let expected_dividend = DividendYield(Rational::new(66, 100));
    let implied = calculate_implied_spot_price(
        forward_price,
        interest_rate,
        time_to_maturity,
        expected_dividend,
    );
    assert_eq!(implied, Err(PricingError::DomainError));
}

#[test]
fn test_zero_dividend_is_cost_of_carry() {
    let spot_price = SpotPrice(Rational::new(100, 1));
    let interest_rate = InterestRate(Rational::new(5, 100));
    let time_to_maturity = TimeToMaturity(Rational::new(1, 1));
    let expected_dividend = DividendYield(Rational::new(0, 1));
    let forward_price =
        calculate_forward_price(spot_price, interest_rate, time_to_maturity, expected_dividend).0;
    // 100 * (1 + 0.05 * 1) == 105, exactly.
    assert_eq!(forward_price.num, 105 * forward_price.den);
}

#[test]
fn test_negative_rate_discounts_forward() {
    let spot_price = SpotPrice(Rational::new(100, 1));
    let interest_rate = InterestRate(Rational::new(-10, 100));
    let time_to_maturity = TimeToMaturity(Rational::new(1, 2));
    let expected_dividend = DividendYield(Rational::new(0, 1));
    let forward_price =
        calculate_forward_price(spot_price, interest_rate, time_to_maturity, expected_dividend).0;
    // 100 * (1 - 0.10 * 0.5) == 95, exactly.
    assert_eq!(forward_price.num, 95 * forward_price.den);
}
