//! Closed-form forward pricing under the cost-of-carry model.
//!
//! The four public functions are algebraic rearrangements of the single
//! equation
//!
//! ```text
//! forward = spot * (1 + rate * time) - dividend
//! ```
//!
//! solved for the forward price, the interest rate, the spot price and the
//! dividend in turn. Every quantity is an exact [`Rational`], so each
//! function's contract pins its result to the exact rational value of its
//! formula, and the round-trip lemmas at the end of the module prove that
//! each inversion recovers its input exactly.

use vstd::prelude::*;

use crate::rational::BOUND;
use crate::rational::Ratio;
use crate::rational::Rational;
use crate::rational::lemma_mul_bound;
use crate::rational::lemma_mul_nonzero;
use crate::rational::lemma_neg_mul;
use crate::rational::lemma_pos_mul_bound;
use crate::rational::ratio_eq;

verus! {

/// Current market price of the underlying asset.
#[derive(Clone, Copy, PartialEq, Eq, Structural, Debug)]
pub struct SpotPrice(pub Rational);

/// Agreed future settlement price of the contract.
#[derive(Clone, Copy, PartialEq, Eq, Structural, Debug)]
pub struct ForwardPrice(pub Rational);

/// Annualized risk-free interest rate, as a decimal fraction.
#[derive(Clone, Copy, PartialEq, Eq, Structural, Debug)]
pub struct InterestRate(pub Rational);

/// Time to contract expiry, in years.
#[derive(Clone, Copy, PartialEq, Eq, Structural, Debug)]
pub struct TimeToMaturity(pub Rational);

/// Expected cash dividends paid by the underlying before maturity, as an
/// absolute currency amount.
#[derive(Clone, Copy, PartialEq, Eq, Structural, Debug)]
pub struct DividendYield(pub Rational);

/// A formula was asked to divide by zero: the inputs lie outside the domain
/// of the requested inversion.
#[derive(Clone, Copy, PartialEq, Eq, Structural, Debug)]
pub enum PricingError {
    DomainError,
}

/// The growth factor `1 + rate * time` of the cost-of-carry model.
pub open spec fn spec_growth(rate: Ratio, time: Ratio) -> Ratio {
    Ratio {
        num: rate.den * time.den + rate.num * time.num,
        den: rate.den * time.den,
    }
}

/// The forward price of an asset that pays no dividend:
/// `spot * (1 + rate * time)`.
pub open spec fn spec_cost_of_carry(spot: Ratio, rate: Ratio, time: Ratio) -> Ratio {
    Ratio {
        num: spot.num * spec_growth(rate, time).num,
        den: spot.den * spec_growth(rate, time).den,
    }
}

/// The cost-of-carry equation solved for the forward price:
/// `forward = spot * (1 + rate * time) - dividend`.
pub open spec fn spec_forward(spot: Ratio, rate: Ratio, time: Ratio, dividend: Ratio) -> Ratio {
    Ratio {
        num: spot.num * spec_growth(rate, time).num * dividend.den - dividend.num * (spot.den
            * spec_growth(rate, time).den),
        den: spot.den * spec_growth(rate, time).den * dividend.den,
    }
}

/// The cost-of-carry equation solved for the interest rate:
/// `rate = ((forward + dividend) / spot - 1) / time`.
pub open spec fn spec_implied_rate(
    forward: Ratio,
    spot: Ratio,
    time: Ratio,
    dividend: Ratio,
) -> Ratio {
    Ratio {
        num: ((forward.num * dividend.den + dividend.num * forward.den) * spot.den - forward.den
            * dividend.den * spot.num) * time.den,
        den: forward.den * dividend.den * spot.num * time.num,
    }
}

/// The cost-of-carry equation solved for the spot price:
/// `spot = (forward + dividend) / (1 + rate * time)`.
pub open spec fn spec_implied_spot(
    forward: Ratio,
    rate: Ratio,
    time: Ratio,
    dividend: Ratio,
) -> Ratio {
    Ratio {
        num: (forward.num * dividend.den + dividend.num * forward.den) * spec_growth(
            rate,
            time,
        ).den,
        den: forward.den * dividend.den * spec_growth(rate, time).num,
    }
}

/// The cost-of-carry equation solved for the dividend:
/// `dividend = spot * (1 + rate * time) - forward`.
pub open spec fn spec_implied_dividend(
    forward: Ratio,
    spot: Ratio,
    rate: Ratio,
    time: Ratio,
) -> Ratio {
    Ratio {
        num: spot.num * spec_growth(rate, time).num * forward.den - forward.num * (spot.den
            * spec_growth(rate, time).den),
        den: spot.den * spec_growth(rate, time).den * forward.den,
    }
}

/// Computes the forward price `spot * (1 + rate * time) - dividend`.
///
/// Defined for every in-range input: the cost-of-carry equation read left to
/// right has no division.
pub fn calculate_forward_price(
    spot_price: SpotPrice,
    interest_rate: InterestRate,
    time_to_maturity: TimeToMaturity,
    expected_dividend: DividendYield,
) -> (forward: ForwardPrice)
    requires
        spot_price.0.in_range(),
        interest_rate.0.in_range(),
        time_to_maturity.0.in_range(),
        expected_dividend.0.in_range(),
    ensures
        forward.0.wf(),
        forward.0@ == spec_forward(spot_price.0@, interest_rate.0@, time_to_maturity.0@,
            expected_dividend.0@),
{
    let s = spot_price.0;
    let r = interest_rate.0;
    let t = time_to_maturity.0;
    let d = expected_dividend.0;
    proof {
        lemma_mul_bound(r.num as int, t.num as int, BOUND as int, BOUND as int);
        lemma_pos_mul_bound(r.den as int, t.den as int, BOUND as int, BOUND as int);
    }
    let growth_num: i128 = r.den * t.den + r.num * t.num;
    let growth_den: i128 = r.den * t.den;
    proof {
        lemma_mul_bound(s.num as int, growth_num as int, BOUND as int, 2 * (BOUND as int) * (
        BOUND as int));
        lemma_pos_mul_bound(s.den as int, growth_den as int, BOUND as int, (BOUND as int) * (
        BOUND as int));
    }
    let carry_num: i128 = s.num * growth_num;
    let carry_den: i128 = s.den * growth_den;
    proof {
        lemma_mul_bound(carry_num as int, d.den as int, 2 * (BOUND as int) * (BOUND as int) * (
        BOUND as int), BOUND as int);
        lemma_mul_bound(d.num as int, carry_den as int, BOUND as int, (BOUND as int) * (
        BOUND as int) * (BOUND as int));
        lemma_pos_mul_bound(carry_den as int, d.den as int, (BOUND as int) * (BOUND as int) * (
        BOUND as int), BOUND as int);
    }
    let forward_num: i128 = carry_num * d.den - d.num * carry_den;
    let forward_den: i128 = carry_den * d.den;
    ForwardPrice(Rational { num: forward_num, den: forward_den })
}

/// Computes the interest rate `((forward + dividend) / spot - 1) / time`
/// implied by a forward price.
///
/// Returns `DomainError` exactly when `spot` or `time` is zero, the inputs on
/// which the formula divides by zero; on every other in-range input it
/// returns the exact implied rate.
pub fn calculate_implied_interest(
    forward_price: ForwardPrice,
    spot_price: SpotPrice,
    time_to_maturity: TimeToMaturity,
    expected_dividend: DividendYield,
) -> (rate: Result<InterestRate, PricingError>)
    requires
        forward_price.0.in_range(),
        spot_price.0.in_range(),
        time_to_maturity.0.in_range(),
        expected_dividend.0.in_range(),
    ensures
        rate.is_ok() <==> (spot_price.0.num != 0 && time_to_maturity.0.num != 0),
        rate matches Ok(ir) ==> {
            &&& ir.0.wf()
            &&& spec_implied_rate(forward_price.0@, spot_price.0@, time_to_maturity.0@,
                expected_dividend.0@).den != 0
            &&& ratio_eq(ir.0@, spec_implied_rate(forward_price.0@, spot_price.0@,
                time_to_maturity.0@, expected_dividend.0@))
        },
        rate matches Err(e) ==> e == PricingError::DomainError,
{
    let f = forward_price.0;
    let s = spot_price.0;
    let t = time_to_maturity.0;
    let d = expected_dividend.0;
    if s.num == 0 || t.num == 0 {
        return Err(PricingError::DomainError);
    }
    proof {
        lemma_mul_bound(f.num as int, d.den as int, BOUND as int, BOUND as int);
        lemma_mul_bound(d.num as int, f.den as int, BOUND as int, BOUND as int);
        lemma_pos_mul_bound(f.den as int, d.den as int, BOUND as int, BOUND as int);
    }
    let total_num: i128 = f.num * d.den + d.num * f.den;
    let base_den: i128 = f.den * d.den;
    proof {
        lemma_mul_bound(total_num as int, s.den as int, 2 * (BOUND as int) * (BOUND as int),
            BOUND as int);
        lemma_mul_bound(base_den as int, s.num as int, (BOUND as int) * (BOUND as int),
            BOUND as int);
        lemma_mul_nonzero(base_den as int, s.num as int);
    }
    let margin_num: i128 = total_num * s.den - base_den * s.num;
    let scaled_den: i128 = base_den * s.num;
    proof {
        lemma_mul_bound(margin_num as int, t.den as int, 3 * (BOUND as int) * (BOUND as int) * (
        BOUND as int), BOUND as int);
        lemma_mul_bound(scaled_den as int, t.num as int, (BOUND as int) * (BOUND as int) * (
        BOUND as int), BOUND as int);
        lemma_mul_nonzero(scaled_den as int, t.num as int);
    }
    let rate_num: i128 = margin_num * t.den;
    let rate_den: i128 = scaled_den * t.num;
    proof {
        let spec_r = spec_implied_rate(f@, s@, t@, d@);
        assert(rate_num == spec_r.num);
        assert(rate_den == spec_r.den);
        lemma_neg_mul(rate_num as int, rate_den as int);
    }
    if rate_den < 0 {
        Ok(InterestRate(Rational { num: -rate_num, den: -rate_den }))
    } else {
        Ok(InterestRate(Rational { num: rate_num, den: rate_den }))
    }
}

/// Computes the spot price `(forward + dividend) / (1 + rate * time)` implied
/// by a forward price.
///
/// Returns `DomainError` exactly when `1 + rate * time` is zero (that is,
/// `rate == -1 / time`), the inputs on which the formula divides by zero; on
/// every other in-range input it returns the exact implied spot price.
pub fn calculate_implied_spot_price(
    forward_price: ForwardPrice,
    interest_rate: InterestRate,
    time_to_maturity: TimeToMaturity,
    expected_dividend: DividendYield,
) -> (spot: Result<SpotPrice, PricingError>)
    requires
        forward_price.0.in_range(),
        interest_rate.0.in_range(),
        time_to_maturity.0.in_range(),
        expected_dividend.0.in_range(),
    ensures
        spot.is_ok() <==> spec_growth(interest_rate.0@, time_to_maturity.0@).num != 0,
        spot matches Ok(sp) ==> {
            &&& sp.0.wf()
            &&& spec_implied_spot(forward_price.0@, interest_rate.0@, time_to_maturity.0@,
                expected_dividend.0@).den != 0
            &&& ratio_eq(sp.0@, spec_implied_spot(forward_price.0@, interest_rate.0@,
                time_to_maturity.0@, expected_dividend.0@))
        },
        spot matches Err(e) ==> e == PricingError::DomainError,
{
    let f = forward_price.0;
    let r = interest_rate.0;
    let t = time_to_maturity.0;
    let d = expected_dividend.0;
    proof {
        lemma_mul_bound(r.num as int, t.num as int, BOUND as int, BOUND as int);
        lemma_pos_mul_bound(r.den as int, t.den as int, BOUND as int, BOUND as int);
    }
    let growth_num: i128 = r.den * t.den + r.num * t.num;
    let growth_den: i128 = r.den * t.den;
    if growth_num == 0 {
        return Err(PricingError::DomainError);
    }
    proof {
        lemma_mul_bound(f.num as int, d.den as int, BOUND as int, BOUND as int);
        lemma_mul_bound(d.num as int, f.den as int, BOUND as int, BOUND as int);
        lemma_pos_mul_bound(f.den as int, d.den as int, BOUND as int, BOUND as int);
    }
    let total_num: i128 = f.num * d.den + d.num * f.den;
    let base_den: i128 = f.den * d.den;
    proof {
        lemma_mul_bound(total_num as int, growth_den as int, 2 * (BOUND as int) * (BOUND as int),
            (BOUND as int) * (BOUND as int));
        lemma_mul_bound(base_den as int, growth_num as int, (BOUND as int) * (BOUND as int), 2 * (
        BOUND as int) * (BOUND as int));
        lemma_mul_nonzero(base_den as int, growth_num as int);
    }
    let spot_num: i128 = total_num * growth_den;
    let spot_den: i128 = base_den * growth_num;
    proof {
        let spec_s = spec_implied_spot(f@, r@, t@, d@);
        assert(spot_num == spec_s.num);
        assert(spot_den == spec_s.den);
        lemma_neg_mul(spot_num as int, spot_den as int);
    }
    if spot_den < 0 {
        Ok(SpotPrice(Rational { num: -spot_num, den: -spot_den }))
    } else {
        Ok(SpotPrice(Rational { num: spot_num, den: spot_den }))
    }
}

/// Computes the dividend `spot * (1 + rate * time) - forward` implied by a
/// forward price.
///
/// Defined for every in-range input: this rearrangement has no division.
pub fn calculate_implied_dividend(
    forward_price: ForwardPrice,
    spot_price: SpotPrice,
    interest_rate: InterestRate,
    time_to_maturity: TimeToMaturity,
) -> (dividend: DividendYield)
    requires
        forward_price.0.in_range(),
        spot_price.0.in_range(),
        interest_rate.0.in_range(),
        time_to_maturity.0.in_range(),
    ensures
        dividend.0.wf(),
        dividend.0@ == spec_implied_dividend(forward_price.0@, spot_price.0@, interest_rate.0@,
            time_to_maturity.0@),
{
    let f = forward_price.0;
    let s = spot_price.0;
    let r = interest_rate.0;
    let t = time_to_maturity.0;
    proof {
        lemma_mul_bound(r.num as int, t.num as int, BOUND as int, BOUND as int);
        lemma_pos_mul_bound(r.den as int, t.den as int, BOUND as int, BOUND as int);
    }
    let growth_num: i128 = r.den * t.den + r.num * t.num;
    let growth_den: i128 = r.den * t.den;
    proof {
        lemma_mul_bound(s.num as int, growth_num as int, BOUND as int, 2 * (BOUND as int) * (
        BOUND as int));
        lemma_pos_mul_bound(s.den as int, growth_den as int, BOUND as int, (BOUND as int) * (
        BOUND as int));
    }
    let carry_num: i128 = s.num * growth_num;
    let carry_den: i128 = s.den * growth_den;
    proof {
        lemma_mul_bound(carry_num as int, f.den as int, 2 * (BOUND as int) * (BOUND as int) * (
        BOUND as int), BOUND as int);
        lemma_mul_bound(f.num as int, carry_den as int, BOUND as int, (BOUND as int) * (
        BOUND as int) * (BOUND as int));
        lemma_pos_mul_bound(carry_den as int, f.den as int, (BOUND as int) * (BOUND as int) * (
        BOUND as int), BOUND as int);
    }
    let dividend_num: i128 = carry_num * f.den - f.num * carry_den;
    let dividend_den: i128 = carry_den * f.den;
    DividendYield(Rational { num: dividend_num, den: dividend_den })
}

/// Round trip through the rate inversion: for every positive spot price and
/// positive time to maturity, the rate implied by the forward price computed
/// from a rate is that rate, exactly.
pub proof fn lemma_implied_rate_round_trip(spot: Ratio, rate: Ratio, time: Ratio, dividend: Ratio)
    requires
        spot.den > 0,
        rate.den > 0,
        time.den > 0,
        dividend.den > 0,
        spot.num > 0,
        time.num > 0,
    ensures
        ratio_eq(spec_implied_rate(spec_forward(spot, rate, time, dividend), spot, time,
            dividend), rate),
{
    let g = spec_growth(rate, time);
    let f = spec_forward(spot, rate, time, dividend);
    let ir = spec_implied_rate(f, spot, time, dividend);
    let total: int = f.num * dividend.den + dividend.num * f.den;
    assert(total == spot.num * g.num * dividend.den * dividend.den) by (nonlinear_arith)
        requires
            total == f.num * dividend.den + dividend.num * f.den,
            f.num == spot.num * g.num * dividend.den - dividend.num * (spot.den * g.den),
            f.den == spot.den * g.den * dividend.den;
    let scale: int = spot.num * spot.den * dividend.den * dividend.den;
    let margin: int = total * spot.den - f.den * dividend.den * spot.num;
    assert(total * spot.den == scale * g.num) by (nonlinear_arith)
        requires
            total == spot.num * g.num * dividend.den * dividend.den,
            scale == spot.num * spot.den * dividend.den * dividend.den;
    assert(f.den * dividend.den * spot.num == scale * g.den) by (nonlinear_arith)
        requires
            f.den == spot.den * g.den * dividend.den,
            scale == spot.num * spot.den * dividend.den * dividend.den;
    assert(scale * g.num - scale * g.den == scale * (g.num - g.den)) by (nonlinear_arith);
    assert(g.num - g.den == rate.num * time.num);
    assert(margin == scale * (rate.num * time.num));
    assert(ir.num == scale * (rate.num * time.num) * time.den);
    assert(ir.den == scale * (rate.den * time.den) * time.num) by (nonlinear_arith)
        requires
            ir.den == f.den * dividend.den * spot.num * time.num,
            f.den == spot.den * g.den * dividend.den,
            g.den == rate.den * time.den,
            scale == spot.num * spot.den * dividend.den * dividend.den;
    assert(ir.num * rate.den == rate.num * ir.den) by (nonlinear_arith)
        requires
            ir.num == scale * (rate.num * time.num) * time.den,
            ir.den == scale * (rate.den * time.den) * time.num;
}

/// Round trip through the spot inversion: for every positive spot price and
/// positive time to maturity whose growth factor `1 + rate * time` is
/// nonzero, the spot price implied by the forward price computed from a spot
/// price is that spot price, exactly.
pub proof fn lemma_implied_spot_round_trip(spot: Ratio, rate: Ratio, time: Ratio, dividend: Ratio)
    requires
        spot.den > 0,
        rate.den > 0,
        time.den > 0,
        dividend.den > 0,
        spot.num > 0,
        time.num > 0,
        spec_growth(rate, time).num != 0,
    ensures
        ratio_eq(spec_implied_spot(spec_forward(spot, rate, time, dividend), rate, time,
            dividend), spot),
{
    let g = spec_growth(rate, time);
    let f = spec_forward(spot, rate, time, dividend);
    let sp = spec_implied_spot(f, rate, time, dividend);
    let total: int = f.num * dividend.den + dividend.num * f.den;
    assert(total == spot.num * g.num * dividend.den * dividend.den) by (nonlinear_arith)
        requires
            total == f.num * dividend.den + dividend.num * f.den,
            f.num == spot.num * g.num * dividend.den - dividend.num * (spot.den * g.den),
            f.den == spot.den * g.den * dividend.den;
    assert(sp.num == spot.num * g.num * dividend.den * dividend.den * g.den);
    assert(sp.den == spot.den * g.den * dividend.den * dividend.den * g.num);
    assert(sp.num * spot.den == spot.num * sp.den) by (nonlinear_arith)
        requires
            sp.num == spot.num * g.num * dividend.den * dividend.den * g.den,
            sp.den == spot.den * g.den * dividend.den * dividend.den * g.num;
}

/// Round trip through the dividend inversion: for every positive spot price
/// and positive time to maturity, the dividend implied by the forward price
/// computed from a dividend is that dividend, exactly.
pub proof fn lemma_implied_dividend_round_trip(
    spot: Ratio,
    rate: Ratio,
    time: Ratio,
    dividend: Ratio,
)
    requires
        spot.den > 0,
        rate.den > 0,
        time.den > 0,
        dividend.den > 0,
        spot.num > 0,
        time.num > 0,
    ensures
        ratio_eq(spec_implied_dividend(spec_forward(spot, rate, time, dividend), spot, rate,
            time), dividend),
{
    let g = spec_growth(rate, time);
    let f = spec_forward(spot, rate, time, dividend);
    let dv = spec_implied_dividend(f, spot, rate, time);
    assert(dv.num * dividend.den == dividend.num * dv.den) by (nonlinear_arith)
        requires
            f.num == spot.num * g.num * dividend.den - dividend.num * (spot.den * g.den),
            f.den == spot.den * g.den * dividend.den,
            dv.num == spot.num * g.num * f.den - f.num * (spot.den * g.den),
            dv.den == spot.den * g.den * f.den;
}

/// A zero dividend reduces the forward price to the pure cost-of-carry
/// value `spot * (1 + rate * time)`, exactly.
pub proof fn lemma_zero_dividend_cost_of_carry(spot: Ratio, rate: Ratio, time: Ratio, dividend: Ratio)
    requires
        spot.den > 0,
        rate.den > 0,
        time.den > 0,
        dividend.den > 0,
        dividend.num == 0,
    ensures
        ratio_eq(spec_forward(spot, rate, time, dividend), spec_cost_of_carry(spot, rate, time)),
{
    let g = spec_growth(rate, time);
    let f = spec_forward(spot, rate, time, dividend);
    let c = spec_cost_of_carry(spot, rate, time);
    assert(f.num * c.den == c.num * f.den) by (nonlinear_arith)
        requires
            dividend.num == 0,
            f.num == spot.num * g.num * dividend.den - dividend.num * (spot.den * g.den),
            f.den == spot.den * g.den * dividend.den,
            c.num == spot.num * g.num,
            c.den == spot.den * g.den;
}

} // verus!
