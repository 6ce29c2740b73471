//! Exact rational numbers over `i128`, the numeric model of the library.
//!
//! A well-formed `Rat` keeps its numerator's magnitude and its (positive)
//! denominator strictly below `RAT_BOUND` = 2^63, so the cross products that
//! the arithmetic and the value comparisons need always fit in an `i128`.
//! Arithmetic is checked: an operation whose exact result would leave those
//! bounds reports `None` instead of returning a rounded or wrapped value.

use vstd::prelude::*;

verus! {

/// Magnitude bound (2^63) on the numerator and denominator of a
/// well-formed `Rat`.
pub const RAT_BOUND: i128 = 9_223_372_036_854_775_808;

/// Does an exact integer result stay strictly inside the `Rat` bounds?
pub open spec fn fits(x: int) -> bool {
    -(RAT_BOUND as int) < x < RAT_BOUND as int
}

/// An exact rational number `num / den` with `den > 0`.
#[derive(Clone, Copy, Debug, PartialEq, Eq, Structural)]
pub struct Rat {
    pub num: i128,
    pub den: i128,
}

impl Rat {
    /// Well-formedness: positive denominator, both fields inside the bounds.
    pub open spec fn wf(self) -> bool {
        0 < self.den < RAT_BOUND && -(RAT_BOUND as int) < self.num < RAT_BOUND as int
    }

    /// `self <= other` as values, by cross multiplication (denominators positive).
    pub open spec fn le_val(self, other: Rat) -> bool {
        self.num * other.den <= other.num * self.den
    }

    /// `self < other` as values.
    pub open spec fn lt_val(self, other: Rat) -> bool {
        self.num * other.den < other.num * self.den
    }

    /// `self == other` as values (the representations may differ).
    pub open spec fn eq_val(self, other: Rat) -> bool {
        self.num * other.den == other.num * self.den
    }

    /// The value is strictly positive.
    pub open spec fn is_positive(self) -> bool {
        self.num > 0
    }

    /// Build `num / den`. `i64` inputs keep the fields inside the bounds;
    /// `i64::MIN` is excluded because its magnitude is exactly the bound.
    pub fn new(num: i64, den: i64) -> (r: Rat)
        requires
            den > 0,
            num > i64::MIN,
        ensures
            r.wf(),
            r.num == num as int,
            r.den == den as int,
    {
        Rat { num: num as i128, den: den as i128 }
    }

    /// The integer `n` as a rational.
    pub fn from_int(n: i64) -> (r: Rat)
        requires
            n > i64::MIN,
        ensures
            r.wf(),
            r.num == n as int,
            r.den == 1,
    {
        Rat { num: n as i128, den: 1 }
    }

    /// Exact sum, or `None` when the exact result leaves the bounds.
    pub fn checked_add(self, other: Rat) -> (r: Option<Rat>)
        requires
            self.wf(),
            other.wf(),
        ensures
            r is Some <==> fits(self.num * other.den + other.num * self.den) && fits(
                self.den * other.den,
            ),
            r matches Some(c) ==> c.wf() && c.num == self.num * other.den + other.num * self.den
                && c.den == self.den * other.den,
    {
        proof {
            lemma_cross_products_fit(self, other);
        }
        let n: i128 = self.num * other.den + other.num * self.den;
        let d: i128 = self.den * other.den;
        if -RAT_BOUND < n && n < RAT_BOUND && d < RAT_BOUND {
            Some(Rat { num: n, den: d })
        } else {
            None
        }
    }

    /// Exact product, or `None` when the exact result leaves the bounds.
    pub fn checked_mul(self, other: Rat) -> (r: Option<Rat>)
        requires
            self.wf(),
            other.wf(),
        ensures
            r is Some <==> fits(self.num * other.num) && fits(self.den * other.den),
            r matches Some(c) ==> c.wf() && c.num == self.num * other.num && c.den == self.den
                * other.den,
    {
        proof {
            lemma_cross_products_fit(self, other);
        }
        let n: i128 = self.num * other.num;
        let d: i128 = self.den * other.den;
        if -RAT_BOUND < n && n < RAT_BOUND && d < RAT_BOUND {
            Some(Rat { num: n, den: d })
        } else {
            None
        }
    }

    /// Exact difference, or `None` when the exact result leaves the bounds.
    pub fn checked_sub(self, other: Rat) -> (r: Option<Rat>)
        requires
            self.wf(),
            other.wf(),
        ensures
            r is Some <==> fits(self.num * other.den - other.num * self.den) && fits(
                self.den * other.den,
            ),
            r matches Some(c) ==> c.wf() && c.num == self.num * other.den - other.num * self.den
                && c.den == self.den * other.den,
    {
        proof {
            lemma_cross_products_fit(self, other);
        }
        let n: i128 = self.num * other.den - other.num * self.den;
        let d: i128 = self.den * other.den;
        if -RAT_BOUND < n && n < RAT_BOUND && d < RAT_BOUND {
            Some(Rat { num: n, den: d })
        } else {
            None
        }
    }

    /// Value comparison `self <= other`.
    pub fn le(self, other: Rat) -> (r: bool)
        requires
            self.wf(),
            other.wf(),
        ensures
            r == self.le_val(other),
    {
        proof {
            lemma_cross_products_fit(self, other);
        }
        self.num * other.den <= other.num * self.den
    }

    /// Value comparison `self < other`.
    pub fn lt(self, other: Rat) -> (r: bool)
        requires
            self.wf(),
            other.wf(),
        ensures
            r == self.lt_val(other),
    {
        proof {
            lemma_cross_products_fit(self, other);
        }
        self.num * other.den < other.num * self.den
    }

    /// Value equality (1/2 equals 2/4).
    pub fn same_value(self, other: Rat) -> (r: bool)
        requires
            self.wf(),
            other.wf(),
        ensures
            r == self.eq_val(other),
    {
        proof {
            lemma_cross_products_fit(self, other);
        }
        self.num * other.den == other.num * self.den
    }
}

/// The four cross products of two well-formed rationals, and the sums of two
/// of them, stay strictly inside `i128`.
proof fn lemma_cross_products_fit(a: Rat, b: Rat)
    requires
        a.wf(),
        b.wf(),
    ensures
        -(RAT_BOUND as int) * RAT_BOUND < a.num * b.den < (RAT_BOUND as int) * RAT_BOUND,
        -(RAT_BOUND as int) * RAT_BOUND < b.num * a.den < (RAT_BOUND as int) * RAT_BOUND,
        -(RAT_BOUND as int) * RAT_BOUND < a.num * b.num < (RAT_BOUND as int) * RAT_BOUND,
        0 < a.den * b.den < (RAT_BOUND as int) * RAT_BOUND,
        i128::MIN < a.num * b.den + b.num * a.den < i128::MAX,
        i128::MIN < a.num * b.den - b.num * a.den < i128::MAX,
        (RAT_BOUND as int) * RAT_BOUND < i128::MAX,
{
    let bb = RAT_BOUND as int;
    assert(-(bb - 1) <= a.num <= bb - 1 && 0 < b.den <= bb - 1 ==> -(bb - 1) * (bb - 1) <= a.num
        * b.den <= (bb - 1) * (bb - 1)) by (nonlinear_arith);
    assert(-(bb - 1) <= b.num <= bb - 1 && 0 < a.den <= bb - 1 ==> -(bb - 1) * (bb - 1) <= b.num
        * a.den <= (bb - 1) * (bb - 1)) by (nonlinear_arith);
    assert(-(bb - 1) <= a.num <= bb - 1 && -(bb - 1) <= b.num <= bb - 1 ==> -(bb - 1) * (bb - 1)
        <= a.num * b.num <= (bb - 1) * (bb - 1)) by (nonlinear_arith);
    assert(0 < a.den <= bb - 1 && 0 < b.den <= bb - 1 ==> 0 < a.den * b.den <= (bb - 1) * (bb
        - 1)) by (nonlinear_arith);
    assert((bb - 1) * (bb - 1) < bb * bb && bb * bb < i128::MAX && (bb - 1) * (bb - 1) + (bb - 1)
        * (bb - 1) < i128::MAX && i128::MIN + (bb - 1) * (bb - 1) + (bb - 1) * (bb - 1)
        < 0) by (nonlinear_arith)
        requires
            bb == 9_223_372_036_854_775_808,
    ;
}

} // verus!
