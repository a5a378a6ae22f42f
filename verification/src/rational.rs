//! Exact rational numbers.
//!
//! The pricing formulas are algebraic rearrangements of one linear equation,
//! so they can be evaluated exactly over rationals: every quantity is a
//! numerator over a positive denominator. The ghost type [`Ratio`] models a
//! value as a pair of unbounded integers, and [`ratio_eq`] is equality of the
//! rational numbers the pairs denote.

use vstd::prelude::*;

verus! {

/// Largest magnitude accepted for the numerator and the denominator of an
/// input to the pricing formulas. Each formula multiplies at most four
/// numerators or denominators and adds at most two such products, so every
/// intermediate value on inputs within this bound has magnitude at most
/// `3 * BOUND^4`, which is below `i128::MAX`.
pub const BOUND: i128 = 2147483648;

/// A rational number as a ghost value: an unbounded integer numerator over
/// an unbounded integer denominator.
pub struct Ratio {
    pub num: int,
    pub den: int,
}

/// Two ratios with nonzero denominators denote the same rational number
/// exactly when they cross-multiply to equal products.
pub open spec fn ratio_eq(a: Ratio, b: Ratio) -> bool {
    a.num * b.den == b.num * a.den
}

/// An exact rational number: an `i128` numerator over a strictly positive
/// `i128` denominator. The value is not kept in lowest terms.
#[derive(Clone, Copy, PartialEq, Eq, Structural, Debug)]
pub struct Rational {
    pub num: i128,
    pub den: i128,
}

impl View for Rational {
    type V = Ratio;

    open spec fn view(&self) -> Ratio {
        Ratio { num: self.num as int, den: self.den as int }
    }
}

impl Rational {
    /// The denominator is strictly positive, so the sign of the value is the
    /// sign of the numerator and the denominator never divides by zero.
    pub open spec fn wf(self) -> bool {
        self.den > 0
    }

    /// Small enough to be an input of the pricing formulas: no intermediate
    /// of their closed-form arithmetic can then overflow an `i128`.
    pub open spec fn in_range(self) -> bool {
        &&& -BOUND <= self.num <= BOUND
        &&& 0 < self.den <= BOUND
    }

    /// Builds the rational `num / den`.
    pub fn new(num: i128, den: i128) -> (r: Rational)
        requires
            den > 0,
        ensures
            r.num == num,
            r.den == den,
            r.wf(),
    {
        Rational { num, den }
    }
}

/// A product of values bounded in magnitude is bounded by the product of the
/// bounds.
pub proof fn lemma_mul_bound(a: int, b: int, abound: int, bbound: int)
    by (nonlinear_arith)
    requires
        -abound <= a <= abound,
        -bbound <= b <= bbound,
        0 <= abound,
        0 <= bbound,
    ensures
        -(abound * bbound) <= a * b <= abound * bbound,
{
}

/// A product of strictly positive bounded values is strictly positive and
/// bounded by the product of the bounds.
pub proof fn lemma_pos_mul_bound(a: int, b: int, abound: int, bbound: int)
    by (nonlinear_arith)
    requires
        0 < a <= abound,
        0 < b <= bbound,
    ensures
        0 < a * b <= abound * bbound,
{
}

/// Moving a negation between the factors of a product keeps its value.
pub proof fn lemma_neg_mul(a: int, b: int)
    by (nonlinear_arith)
    ensures
        (-a) * b == a * (-b),
{
}

/// A product of nonzero values is nonzero.
pub proof fn lemma_mul_nonzero(a: int, b: int)
    by (nonlinear_arith)
    requires
        a != 0,
        b != 0,
    ensures
        a * b != 0,
{
}

} // verus!
