//! One full trial: compound a principal across realized per-period rates
//! and compute the trial's statistics.
//!
//! This is the computational core of a stochastic trial: the caller samples
//! the per-period rates (however it likes — the engine is a pure function
//! of them) and receives the exact final balance, the arithmetic mean of
//! the realized growth factors, and their product (the n-th power of the
//! geometric mean). Rates are converted to growth factors `1 + rate`
//! internally; callers convert means back to rates by subtracting one.

use vstd::prelude::*;

use crate::compound::{bal_den, bal_num, compound, compound_fits, factor_fits, growth_factors};
use crate::rational::{fits, Rat};
use crate::stats::{
    arithmetic_mean, growth_product, prod_den, prod_num, prod_fits, sum_fits, sum_num,
};

verus! {

/// Failure of a trial computation.
#[derive(Clone, Copy, Debug, PartialEq, Eq, Structural)]
pub enum TrialError {
    /// A trial needs at least one period.
    EmptyRates,
    /// An exact intermediate value left the bounds.
    Overflow,
}

/// The realized growth factors `1 + rate` of a rate sequence, as values.
/// Meaningful where every factor stays inside the bounds.
pub open spec fn factors_of(rates: Seq<Rat>) -> Seq<Rat> {
    Seq::new(
        rates.len(),
        |i: int| Rat { num: (rates[i].num + rates[i].den) as i128, den: rates[i].den },
    )
}

/// Result of one trial.
#[derive(Clone, Copy, Debug, PartialEq, Eq, Structural)]
pub struct TrialResult {
    /// Exact final balance after compounding every period.
    pub balance: Rat,
    /// Arithmetic mean of the realized growth factors.
    pub mean_factor: Rat,
    /// Product of the realized growth factors: the n-th power of their
    /// geometric mean.
    pub factor_product: Rat,
}

/// Run one trial over the realized per-period `rates`: the balance is
/// `principal` compounded across them, and the statistics are taken over
/// the realized growth factors. Fails on an empty rate sequence, and with
/// `Overflow` exactly when some exact intermediate value leaves the bounds.
pub fn run_trial(principal: Rat, rates: &Vec<Rat>) -> (res: Result<TrialResult, TrialError>)
    requires
        principal.wf(),
        forall|i: int| 0 <= i < rates@.len() ==> (#[trigger] rates@[i]).wf(),
    ensures
        res is Ok <==> rates@.len() >= 1 && (forall|i: int|
            0 <= i < rates@.len() ==> factor_fits(#[trigger] rates@[i])) && compound_fits(
            principal,
            rates@,
        ) && sum_fits(factors_of(rates@)) && fits(prod_den(factors_of(rates@)) * rates@.len())
            && prod_fits(factors_of(rates@)),
        res matches Ok(t) ==> t.balance.wf() && t.balance.num == bal_num(principal, rates@)
            && t.balance.den == bal_den(principal, rates@) && t.mean_factor.wf()
            && t.mean_factor.num == sum_num(factors_of(rates@)) && t.mean_factor.den == prod_den(
            factors_of(rates@),
        ) * rates@.len() && t.factor_product.wf() && t.factor_product.num == prod_num(
            factors_of(rates@),
        ) && t.factor_product.den == prod_den(factors_of(rates@)),
        res matches Err(e) ==> (e == (if rates@.len() == 0 {
            TrialError::EmptyRates
        } else {
            TrialError::Overflow
        })),
{
    if rates.len() == 0 {
        return Err(TrialError::EmptyRates);
    }
    let balance = match compound(principal, rates) {
        Ok(b) => b,
        Err(_) => {
            return Err(TrialError::Overflow);
        },
    };
    let factors = match growth_factors(rates) {
        Ok(f) => f,
        Err(_) => {
            return Err(TrialError::Overflow);
        },
    };
    proof {
        assert forall|i: int| 0 <= i < factors@.len() implies factors@[i] == factors_of(rates@)[i]
        by {
            assert(factor_fits(rates@[i]));
        }
        assert(factors@ =~= factors_of(rates@));
    }
    let mean_factor = match arithmetic_mean(&factors) {
        Ok(m) => m,
        Err(_) => {
            return Err(TrialError::Overflow);
        },
    };
    let factor_product = match growth_product(&factors) {
        Ok(p) => p,
        Err(_) => {
            return Err(TrialError::Overflow);
        },
    };
    Ok(TrialResult { balance, mean_factor, factor_product })
}

} // verus!
