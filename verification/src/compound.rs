//! The compounding engine: applies per-period growth to a principal.
//!
//! A balance is compounded over a sequence of realized per-period rates,
//! `balance <- balance * (1 + rate)` at each step. Deterministic mode uses a
//! fixed rate for every period and obeys the closed form
//! `principal * (1 + rate)^periods`; stochastic mode hands the sampled rates
//! in as a sequence, so the engine itself is a pure function of its inputs.
//! All arithmetic is exact; a run whose exact intermediate balance would
//! leave the representable bounds reports `Overflow` instead.

use vstd::prelude::*;

use crate::rational::{fits, Rat};
use vstd::arithmetic::power::pow;

verus! {

/// Failure of the compounding engine.
#[derive(Clone, Copy, Debug, PartialEq, Eq, Structural)]
pub enum CompoundError {
    /// An exact intermediate balance or growth factor left the bounds.
    Overflow,
}

/// `n` copies of `rate`: the realized-rate sequence of deterministic mode.
pub open spec fn repeated(rate: Rat, n: nat) -> Seq<Rat> {
    Seq::new(n, |i: int| rate)
}

/// The growth factor `1 + rate` stays inside the bounds.
pub open spec fn factor_fits(rate: Rat) -> bool {
    fits(rate.num + rate.den)
}

/// Numerator of `principal * prod (1 + rates[i])`, built left to right.
pub open spec fn bal_num(principal: Rat, rates: Seq<Rat>) -> int
    decreases rates.len(),
{
    if rates.len() == 0 {
        principal.num as int
    } else {
        bal_num(principal, rates.drop_last()) * (rates.last().num + rates.last().den)
    }
}

/// Denominator of `principal * prod (1 + rates[i])`, built left to right.
pub open spec fn bal_den(principal: Rat, rates: Seq<Rat>) -> int
    decreases rates.len(),
{
    if rates.len() == 0 {
        principal.den as int
    } else {
        bal_den(principal, rates.drop_last()) * rates.last().den
    }
}

/// Every growth factor and every intermediate exact balance stays inside
/// the bounds: exactly when compounding succeeds.
pub open spec fn compound_fits(principal: Rat, rates: Seq<Rat>) -> bool {
    (forall|i: int| 0 <= i < rates.len() ==> factor_fits(#[trigger] rates[i])) && (forall|k: int|
        0 <= k <= rates.len() ==> fits(bal_num(principal, #[trigger] rates.take(k))) && fits(
            bal_den(principal, rates.take(k)),
        ))
}

/// The growth factor `1 + rate` as an exact rational, or `None` when it
/// leaves the bounds.
pub fn growth_factor(rate: Rat) -> (r: Option<Rat>)
    requires
        rate.wf(),
    ensures
        r is Some <==> factor_fits(rate),
        r matches Some(f) ==> f.wf() && f.num == rate.num + rate.den && f.den == rate.den,
{
    Rat::from_int(1).checked_add(rate)
}

/// Compound `principal` across the realized per-period `rates`, in order:
/// `balance <- balance * (1 + rate)` for each rate. Returns the exact final
/// balance; an empty sequence returns the principal unchanged. Fails with
/// `Overflow` exactly when some growth factor or some intermediate balance
/// leaves the bounds.
pub fn compound(principal: Rat, rates: &Vec<Rat>) -> (res: Result<Rat, CompoundError>)
    requires
        principal.wf(),
        forall|i: int| 0 <= i < rates@.len() ==> (#[trigger] rates@[i]).wf(),
    ensures
        res is Ok <==> compound_fits(principal, rates@),
        res matches Ok(bal) ==> bal.wf() && bal.num == bal_num(principal, rates@) && bal.den
            == bal_den(principal, rates@),
        rates@.len() == 0 ==> (res matches Ok(bal) && bal == principal),
{
    let mut balance = principal;
    let mut i: usize = 0;
    proof {
        assert(rates@.take(0) =~= Seq::<Rat>::empty());
    }
    while i < rates.len()
        invariant
            principal.wf(),
            forall|k: int| 0 <= k < rates@.len() ==> (#[trigger] rates@[k]).wf(),
            0 <= i <= rates@.len(),
            balance.wf(),
            balance.num == bal_num(principal, rates@.take(i as int)),
            balance.den == bal_den(principal, rates@.take(i as int)),
            forall|j: int| 0 <= j < i ==> factor_fits(#[trigger] rates@[j]),
            forall|k: int| 0 <= k <= i ==> fits(bal_num(principal, #[trigger] rates@.take(k)))
                && fits(bal_den(principal, rates@.take(k))),
        decreases rates@.len() - i,
    {
        proof {
            let t1 = rates@.take(i + 1 as int);
            assert(t1.drop_last() =~= rates@.take(i as int));
            assert(t1.last() == rates@[i as int]);
        }
        let f = match growth_factor(rates[i]) {
            Some(f) => f,
            None => {
                return Err(CompoundError::Overflow);
            },
        };
        balance = match balance.checked_mul(f) {
            Some(b) => b,
            None => {
                return Err(CompoundError::Overflow);
            },
        };
        i = i + 1;
    }
    proof {
        assert(rates@.take(rates@.len() as int) =~= rates@);
    }
    Ok(balance)
}

/// Deterministic mode: compound `principal` for `periods` periods at the
/// fixed `rate`, returning the final balance together with the realized-rate
/// sequence (`periods` copies of `rate`). The balance obeys the closed form
/// `principal * (1 + rate)^periods` exactly.
pub fn compound_fixed(principal: Rat, rate: Rat, periods: usize) -> (res: Result<
    (Rat, Vec<Rat>),
    CompoundError,
>)
    requires
        principal.wf(),
        rate.wf(),
    ensures
        res is Ok <==> compound_fits(principal, repeated(rate, periods as nat)),
        res matches Ok(p) ==> p.0.wf() && p.0.num == principal.num * pow(
            rate.num + rate.den,
            periods as nat,
        ) && p.0.den == principal.den * pow(rate.den as int, periods as nat) && p.1@ == repeated(
            rate,
            periods as nat,
        ),
        periods == 0 ==> (res matches Ok(p) && p.0 == principal && p.1@.len() == 0),
{
    let mut rates: Vec<Rat> = Vec::new();
    let mut i: usize = 0;
    while i < periods
        invariant
            0 <= i <= periods,
            rates@.len() == i,
            forall|j: int| 0 <= j < i ==> rates@[j] == rate,
        decreases periods - i,
    {
        rates.push(rate);
        i = i + 1;
    }
    proof {
        assert(rates@ =~= repeated(rate, periods as nat));
    }
    match compound(principal, &rates) {
        Ok(bal) => {
            proof {
                lemma_bal_repeated(principal, rate, periods as nat);
            }
            Ok((bal, rates))
        },
        Err(e) => Err(e),
    }
}

/// Compounding at a fixed rate is the power closed form: the exact balance
/// numerator and denominator over `n` copies of `rate` are
/// `principal.num * (rate.num + rate.den)^n` and `principal.den * rate.den^n`.
pub proof fn lemma_bal_repeated(principal: Rat, rate: Rat, n: nat)
    ensures
        bal_num(principal, repeated(rate, n)) == principal.num * pow(rate.num + rate.den, n),
        bal_den(principal, repeated(rate, n)) == principal.den * pow(rate.den as int, n),
    decreases n,
{
    broadcast use vstd::arithmetic::mul::lemma_mul_is_associative;
    broadcast use vstd::arithmetic::mul::lemma_mul_is_commutative;

    reveal(pow);
    if n == 0 {
        assert(pow(rate.num + rate.den, 0) == 1);
        assert(pow(rate.den as int, 0) == 1);
    } else {
        lemma_bal_repeated(principal, rate, (n - 1) as nat);
        let s = repeated(rate, n);
        assert(s.drop_last() =~= repeated(rate, (n - 1) as nat));
        assert(pow(rate.num + rate.den, n) == (rate.num + rate.den) * pow(
            rate.num + rate.den,
            (n - 1) as nat,
        ));
        assert(pow(rate.den as int, n) == rate.den * pow(rate.den as int, (n - 1) as nat));
    }
}

/// Turn realized rates into growth factors (`1 + rate` each), the input
/// convention of the statistics utilities. Fails with `Overflow` exactly
/// when some factor leaves the bounds.
pub fn growth_factors(rates: &Vec<Rat>) -> (res: Result<Vec<Rat>, CompoundError>)
    requires
        forall|i: int| 0 <= i < rates@.len() ==> (#[trigger] rates@[i]).wf(),
    ensures
        res is Ok <==> (forall|i: int| 0 <= i < rates@.len() ==> factor_fits(#[trigger] rates@[i])),
        res matches Ok(v) ==> v@.len() == rates@.len() && (forall|i: int|
            0 <= i < rates@.len() ==> (#[trigger] v@[i]).wf() && v@[i].num == rates@[i].num
                + rates@[i].den && v@[i].den == rates@[i].den),
{
    let mut out: Vec<Rat> = Vec::new();
    let mut i: usize = 0;
    while i < rates.len()
        invariant
            forall|k: int| 0 <= k < rates@.len() ==> (#[trigger] rates@[k]).wf(),
            0 <= i <= rates@.len(),
            out@.len() == i,
            forall|j: int| 0 <= j < i ==> factor_fits(#[trigger] rates@[j]),
            forall|j: int| 0 <= j < i ==> (#[trigger] out@[j]).wf() && out@[j].num == rates@[j].num
                + rates@[j].den && out@[j].den == rates@[j].den,
        decreases rates@.len() - i,
    {
        match growth_factor(rates[i]) {
            Some(f) => out.push(f),
            None => {
                return Err(CompoundError::Overflow);
            },
        }
        i = i + 1;
    }
    Ok(out)
}

} // verus!
