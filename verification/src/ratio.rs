//! Exact fractions of two unsigned numbers.

use vstd::prelude::*;

verus! {

/// The number `numerator / denominator`.
#[derive(Clone, Copy, Debug, PartialEq, Eq, Structural)]
pub struct Ratio {
    pub numerator: u64,
    pub denominator: u64,
}

impl Ratio {
    /// A fraction has a positive denominator.
    pub open spec fn well_formed(self) -> bool {
        self.denominator > 0
    }

    /// Whether the fraction is one of the numbers from zero to one.
    pub open spec fn normalized(self) -> bool {
        self.well_formed() && self.numerator <= self.denominator
    }

    /// Whether the fraction is at most `numerator / denominator`.
    pub open spec fn is_at_most(self, numerator: int, denominator: int) -> bool {
        self.numerator * denominator <= numerator * self.denominator
    }

    /// Whether the fraction is at least `numerator / denominator`.
    pub open spec fn is_at_least(self, numerator: int, denominator: int) -> bool {
        self.numerator * denominator >= numerator * self.denominator
    }

    /// Zero.
    pub fn zero() -> (ratio: Ratio)
        ensures
            ratio == (Ratio { numerator: 0, denominator: 1 }),
    {
        Ratio { numerator: 0, denominator: 1 }
    }

    /// Whether the fraction is at most another one.
    pub fn at_most(&self, other: &Ratio) -> (result: bool)
        ensures
            result == self.is_at_most(other.numerator as int, other.denominator as int),
    {
        proof {
            lemma_product_fits(self.numerator, other.denominator);
            lemma_product_fits(other.numerator, self.denominator);
        }
        (self.numerator as u128) * (other.denominator as u128) <= (other.numerator as u128) * (
        self.denominator as u128)
    }

    /// Whether the fraction is at least another one.
    pub fn at_least(&self, other: &Ratio) -> (result: bool)
        ensures
            result == self.is_at_least(other.numerator as int, other.denominator as int),
    {
        other.at_most(self)
    }

    /// The fraction, or one where it is above one.
    pub fn at_most_one(&self) -> (ratio: Ratio)
        ensures
            ratio.denominator == self.denominator,
            ratio.numerator == if self.numerator <= self.denominator {
                self.numerator
            } else {
                self.denominator
            },
    {
        if self.numerator <= self.denominator {
            *self
        } else {
            Ratio { numerator: self.denominator, denominator: self.denominator }
        }
    }
}

proof fn lemma_product_fits(left: u64, right: u64)
    ensures
        0 <= left * right <= u128::MAX,
{
    assert(0 <= left * right <= 0xffff_ffff_ffff_ffff * 0xffff_ffff_ffff_ffff) by (nonlinear_arith)
        requires
            0 <= left <= 0xffff_ffff_ffff_ffff,
            0 <= right <= 0xffff_ffff_ffff_ffff,
    ;
}

/// Fractions are compared by their value: of the same parts the one with more of them is
/// larger, and to multiply both numbers of a fraction changes nothing.
pub proof fn fractions_are_compared_by_value(
    left: Ratio,
    right: Ratio,
    multiple: Ratio,
    factor: int,
)
    requires
        left.well_formed(),
        right.well_formed(),
        factor > 0,
        multiple.numerator == factor * left.numerator,
        multiple.denominator == factor * left.denominator,
    ensures
        left.denominator == right.denominator ==> (left.is_at_most(
            right.numerator as int,
            right.denominator as int,
        ) <==> left.numerator <= right.numerator),
        left.numerator == right.numerator && left.numerator > 0 ==> (left.is_at_most(
            right.numerator as int,
            right.denominator as int,
        ) <==> left.denominator >= right.denominator),
        left.is_at_most(right.numerator as int, right.denominator as int) <==> right.is_at_least(
            left.numerator as int,
            left.denominator as int,
        ),
        left.is_at_most(right.numerator as int, right.denominator as int) || right.is_at_most(
            left.numerator as int,
            left.denominator as int,
        ),
        multiple.is_at_most(right.numerator as int, right.denominator as int) <==> left.is_at_most(
            right.numerator as int,
            right.denominator as int,
        ),
        multiple.normalized() <==> left.normalized(),
{
    let a = left.numerator as int;
    let b = left.denominator as int;
    let c = right.numerator as int;
    let d = right.denominator as int;
    assert(b == d ==> (a * d <= c * b <==> a <= c)) by (nonlinear_arith)
        requires
            b > 0,
            d > 0,
    ;
    assert(a == c && a > 0 ==> (a * d <= c * b <==> b >= d)) by (nonlinear_arith)
        requires
            b > 0,
            d > 0,
    ;
    assert((factor * a) * d <= c * (factor * b) <==> a * d <= c * b) by (nonlinear_arith)
        requires
            factor > 0,
    ;
    assert(factor * b > 0 && (factor * a <= factor * b <==> a <= b)) by (nonlinear_arith)
        requires
            factor > 0,
            b > 0,
    ;
}

} // verus!
