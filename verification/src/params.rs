//! Parameters of a simulation run, validated once, up front.
//!
//! The driver checks a parameter set through `SimulationParameters::new`
//! before any trial runs, so an invalid combination (non-positive principal,
//! zero periods, negative standard deviation) is rejected with a descriptive
//! error instead of failing deep inside a trial loop.

use vstd::prelude::*;

use crate::rational::Rat;

verus! {

/// Why a parameter set was rejected.
#[derive(Clone, Copy, Debug, PartialEq, Eq, Structural)]
pub enum ParamError {
    /// The principal must be strictly positive.
    NonPositivePrincipal,
    /// The period count must be at least one.
    ZeroPeriods,
    /// The standard deviation of the per-period return must be non-negative.
    NegativeStdDev,
}

/// Parameters of one simulation run, immutable for its duration.
#[derive(Clone, Copy, Debug, PartialEq, Eq, Structural)]
pub struct SimulationParameters {
    /// Initial balance; strictly positive.
    pub principal: Rat,
    /// Number of compounding periods; at least one.
    pub periods: usize,
    /// Mean per-period return rate; may be negative.
    pub mean_rate: Rat,
    /// Standard deviation of the per-period return; non-negative, zero
    /// meaning deterministic mode.
    pub std_dev: Rat,
}

impl SimulationParameters {
    /// The invariant every constructed parameter set satisfies.
    pub open spec fn wf(self) -> bool {
        self.principal.wf() && self.principal.is_positive() && self.periods >= 1
            && self.mean_rate.wf() && self.std_dev.wf() && self.std_dev.num >= 0
    }

    /// Fail-fast constructor: accepts exactly the parameter sets that
    /// satisfy the invariant, naming the first violated condition
    /// (principal, then periods, then standard deviation) otherwise.
    pub fn new(principal: Rat, periods: usize, mean_rate: Rat, std_dev: Rat) -> (res: Result<
        SimulationParameters,
        ParamError,
    >)
        requires
            principal.wf(),
            mean_rate.wf(),
            std_dev.wf(),
        ensures
            res is Ok <==> principal.is_positive() && periods >= 1 && std_dev.num >= 0,
            res matches Ok(p) ==> p.wf() && p.principal == principal && p.periods == periods
                && p.mean_rate == mean_rate && p.std_dev == std_dev,
            res matches Err(e) ==> (e == (if !principal.is_positive() {
                ParamError::NonPositivePrincipal
            } else if periods == 0 {
                ParamError::ZeroPeriods
            } else {
                ParamError::NegativeStdDev
            })),
    {
        if principal.num <= 0 {
            Err(ParamError::NonPositivePrincipal)
        } else if periods == 0 {
            Err(ParamError::ZeroPeriods)
        } else if std_dev.num < 0 {
            Err(ParamError::NegativeStdDev)
        } else {
            Ok(SimulationParameters { principal, periods, mean_rate, std_dev })
        }
    }
}

} // verus!
