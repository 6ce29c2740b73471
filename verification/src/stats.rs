//! Statistics over sequences of growth factors.
//!
//! Input convention: each element is a growth factor `1 + rate` (a 10%
//! return is 11/10). `arithmetic_mean` returns the exact mean. The
//! geometric mean is the n-th root of the product of the elements; since
//! that root is irrational in general, the library returns the product
//! itself, exactly, through `growth_product` — the n-th power of the
//! geometric mean — and states the geometric-mean facts (equality on
//! constant sequences, the arithmetic-mean/geometric-mean inequality) in
//! that root-free form in `laws`.
//!
//! When an element is zero or negative (a per-period loss of 100% or more),
//! the geometric mean is undefined as a real number. The choice made here:
//! `growth_product` still returns the exact product — nothing is clamped
//! and no error is raised — and the root-free geometric-mean laws are
//! stated for all-positive sequences only.
//!
//! Both statistics depend only on the multiset of inputs, not their order;
//! `laws::lemma_stats_permutation` proves it.

use vstd::prelude::*;

use crate::rational::{fits, Rat};

verus! {

/// Failure of a statistics computation.
#[derive(Clone, Copy, Debug, PartialEq, Eq, Structural)]
pub enum StatsError {
    /// The input sequence was empty: both means are undefined on it.
    EmptyInput,
    /// An exact intermediate value left the bounds.
    Overflow,
}

/// Product of the numerators of `s`, built left to right.
pub open spec fn prod_num(s: Seq<Rat>) -> int
    decreases s.len(),
{
    if s.len() == 0 {
        1
    } else {
        prod_num(s.drop_last()) * s.last().num
    }
}

/// Product of the denominators of `s`: the common denominator of its sum
/// and the denominator of the product of its elements.
pub open spec fn prod_den(s: Seq<Rat>) -> int
    decreases s.len(),
{
    if s.len() == 0 {
        1
    } else {
        prod_den(s.drop_last()) * s.last().den
    }
}

/// Numerator of the exact sum of `s` over the common denominator
/// `prod_den(s)`, built left to right.
pub open spec fn sum_num(s: Seq<Rat>) -> int
    decreases s.len(),
{
    if s.len() == 0 {
        0
    } else {
        sum_num(s.drop_last()) * s.last().den + s.last().num * prod_den(s.drop_last())
    }
}

/// Every exact partial sum (numerator and common denominator) stays inside
/// the bounds: exactly when summation succeeds.
pub open spec fn sum_fits(s: Seq<Rat>) -> bool {
    forall|k: int|
        1 <= k <= s.len() ==> fits(sum_num(#[trigger] s.take(k))) && fits(prod_den(s.take(k)))
}

/// Every exact partial product stays inside the bounds: exactly when the
/// product computation succeeds.
pub open spec fn prod_fits(s: Seq<Rat>) -> bool {
    forall|k: int|
        1 <= k <= s.len() ==> fits(prod_num(#[trigger] s.take(k))) && fits(prod_den(s.take(k)))
}

/// Exact arithmetic mean: the sum of the elements divided by their count.
/// Fails fast on an empty input, and with `Overflow` exactly when an exact
/// partial sum or the final denominator leaves the bounds.
pub fn arithmetic_mean(xs: &Vec<Rat>) -> (res: Result<Rat, StatsError>)
    requires
        forall|i: int| 0 <= i < xs@.len() ==> (#[trigger] xs@[i]).wf(),
    ensures
        res is Ok <==> xs@.len() >= 1 && sum_fits(xs@) && fits(prod_den(xs@) * xs@.len()),
        res matches Ok(m) ==> m.wf() && m.num == sum_num(xs@) && m.den == prod_den(xs@)
            * xs@.len(),
        res matches Err(e) ==> (e == (if xs@.len() == 0 {
            StatsError::EmptyInput
        } else {
            StatsError::Overflow
        })),
{
    if xs.len() == 0 {
        return Err(StatsError::EmptyInput);
    }
    let mut acc = xs[0];
    let mut i: usize = 1;
    proof {
        assert(xs@.take(1).drop_last() =~= Seq::<Rat>::empty());
        assert(xs@.take(1).last() == xs@[0]);
        assert(sum_num(Seq::<Rat>::empty()) == 0);
        assert(prod_den(Seq::<Rat>::empty()) == 1);
    }
    while i < xs.len()
        invariant
            forall|k: int| 0 <= k < xs@.len() ==> (#[trigger] xs@[k]).wf(),
            1 <= i <= xs@.len(),
            acc.wf(),
            acc.num == sum_num(xs@.take(i as int)),
            acc.den == prod_den(xs@.take(i as int)),
            forall|k: int| 1 <= k <= i ==> fits(sum_num(#[trigger] xs@.take(k))) && fits(
                prod_den(xs@.take(k)),
            ),
        decreases xs@.len() - i,
    {
        proof {
            let t1 = xs@.take(i + 1 as int);
            assert(t1.drop_last() =~= xs@.take(i as int));
            assert(t1.last() == xs@[i as int]);
        }
        acc = match acc.checked_add(xs[i]) {
            Some(a) => a,
            None => {
                return Err(StatsError::Overflow);
            },
        };
        i = i + 1;
    }
    proof {
        assert(xs@.take(xs@.len() as int) =~= xs@);
        lemma_den_n_product_fits(acc.den as int, xs@.len() as int);
    }
    let n: i128 = xs.len() as i128;
    let d: i128 = acc.den * n;
    if d < crate::rational::RAT_BOUND {
        Ok(Rat { num: acc.num, den: d })
    } else {
        Err(StatsError::Overflow)
    }
}

/// The product of a positive denominator with a positive count fits in
/// `i128` and is positive.
proof fn lemma_den_n_product_fits(d: int, n: int)
    requires
        0 < d < crate::rational::RAT_BOUND as int,
        1 <= n <= usize::MAX,
    ensures
        0 < d * n < i128::MAX,
{
    assert(0 < d * n && d * n <= (crate::rational::RAT_BOUND as int - 1) * (usize::MAX as int)
        && (crate::rational::RAT_BOUND as int - 1) * (usize::MAX as int)
        < i128::MAX) by (nonlinear_arith)
        requires
            0 < d <= crate::rational::RAT_BOUND as int - 1,
            1 <= n <= usize::MAX as int,
            crate::rational::RAT_BOUND == 9_223_372_036_854_775_808,
    ;
}

/// Exact product of the elements: the n-th power of their geometric mean.
/// Fails fast on an empty input, and with `Overflow` exactly when an exact
/// partial product leaves the bounds.
pub fn growth_product(xs: &Vec<Rat>) -> (res: Result<Rat, StatsError>)
    requires
        forall|i: int| 0 <= i < xs@.len() ==> (#[trigger] xs@[i]).wf(),
    ensures
        res is Ok <==> xs@.len() >= 1 && prod_fits(xs@),
        res matches Ok(p) ==> p.wf() && p.num == prod_num(xs@) && p.den == prod_den(xs@),
        res matches Err(e) ==> (e == (if xs@.len() == 0 {
            StatsError::EmptyInput
        } else {
            StatsError::Overflow
        })),
{
    if xs.len() == 0 {
        return Err(StatsError::EmptyInput);
    }
    let mut acc = xs[0];
    let mut i: usize = 1;
    proof {
        assert(xs@.take(1).drop_last() =~= Seq::<Rat>::empty());
        assert(xs@.take(1).last() == xs@[0]);
        assert(prod_num(Seq::<Rat>::empty()) == 1);
        assert(prod_den(Seq::<Rat>::empty()) == 1);
    }
    while i < xs.len()
        invariant
            forall|k: int| 0 <= k < xs@.len() ==> (#[trigger] xs@[k]).wf(),
            1 <= i <= xs@.len(),
            acc.wf(),
            acc.num == prod_num(xs@.take(i as int)),
            acc.den == prod_den(xs@.take(i as int)),
            forall|k: int| 1 <= k <= i ==> fits(prod_num(#[trigger] xs@.take(k))) && fits(
                prod_den(xs@.take(k)),
            ),
        decreases xs@.len() - i,
    {
        proof {
            let t1 = xs@.take(i + 1 as int);
            assert(t1.drop_last() =~= xs@.take(i as int));
            assert(t1.last() == xs@[i as int]);
        }
        acc = match acc.checked_mul(xs[i]) {
            Some(a) => a,
            None => {
                return Err(StatsError::Overflow);
            },
        };
        i = i + 1;
    }
    proof {
        assert(xs@.take(xs@.len() as int) =~= xs@);
    }
    Ok(acc)
}

} // verus!
