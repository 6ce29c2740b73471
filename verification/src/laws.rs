//! The laws of the statistics: order independence, constant sequences, and
//! the arithmetic-mean/geometric-mean inequality.
//!
//! The geometric mean of `n` positive values is the n-th root of their
//! product, which is irrational in general, so every geometric-mean fact
//! here is stated root-free, about the n-th power of the geometric mean —
//! the exact product that `stats::growth_product` returns. In that form
//! "geometric mean <= arithmetic mean" reads: the product of the elements
//! is at most the n-th power of the arithmetic mean.

use vstd::prelude::*;

use crate::compound::repeated;
use crate::rational::Rat;
use crate::stats::{prod_den, prod_num, sum_num};
use vstd::arithmetic::mul::{
    lemma_mul_inequality, lemma_mul_inequality_converse, lemma_mul_strictly_positive,
};
use vstd::arithmetic::power::{lemma_pow_distributes, lemma_pow_positive, pow};

verus! {

/// Removing one element: the statistics of `s` decompose exactly into the
/// statistics of `s.remove(j)` and the removed element.
#[verifier::rlimit(50)]
proof fn lemma_stats_remove(s: Seq<Rat>, j: int)
    requires
        0 <= j < s.len(),
    ensures
        prod_num(s) == prod_num(s.remove(j)) * s[j].num,
        prod_den(s) == prod_den(s.remove(j)) * s[j].den,
        sum_num(s) == sum_num(s.remove(j)) * s[j].den + s[j].num * prod_den(s.remove(j)),
    decreases s.len(),
{
    if j == s.len() - 1 {
        assert(s.remove(j) =~= s.drop_last());
    } else {
        let t = s.drop_last();
        let z = s.last();
        lemma_stats_remove(t, j);
        let u = t.remove(j);
        let r = s.remove(j);
        assert(r =~= u.push(z));
        assert(r.drop_last() =~= u);
        assert(r.last() == z);
        let nu = sum_num(u);
        let du = prod_den(u);
        let pu = prod_num(u);
        let pj = s[j].num as int;
        let qj = s[j].den as int;
        let zn = z.num as int;
        let zd = z.den as int;
        assert(t[j] == s[j]);
        assert((pu * pj) * zn == (pu * zn) * pj) by (nonlinear_arith);
        assert((du * qj) * zd == (du * zd) * qj) by (nonlinear_arith);
        assert((nu * qj + pj * du) * zd + zn * (du * qj) == (nu * zd + zn * du) * qj + pj * (du
            * zd)) by (nonlinear_arith);
    }
}

/// Order independence: the statistics depend only on the multiset of
/// inputs. Two sequences that are permutations of one another have the
/// same exact sum numerator, product numerator and common denominator, so
/// both the arithmetic mean and the geometric mean are invariant under any
/// permutation of their input.
pub proof fn lemma_stats_permutation(xs: Seq<Rat>, ys: Seq<Rat>)
    requires
        xs.to_multiset() == ys.to_multiset(),
    ensures
        sum_num(xs) == sum_num(ys),
        prod_num(xs) == prod_num(ys),
        prod_den(xs) == prod_den(ys),
    decreases xs.len(),
{
    broadcast use vstd::seq_lib::group_to_multiset_ensures;
    broadcast use vstd::multiset::group_multiset_axioms;

    assert(xs.len() == xs.to_multiset().len());
    assert(ys.len() == ys.to_multiset().len());
    if xs.len() == 0 {
        assert(ys.len() == 0);
    } else {
        let x = xs.last();
        let t = xs.drop_last();
        assert(xs =~= t.push(x));
        assert(t.push(x).to_multiset() =~= t.to_multiset().insert(x));
        assert(xs.contains(x));
        assert(ys.to_multiset().count(x) > 0);
        assert(ys.contains(x));
        let j = choose|j: int| 0 <= j < ys.len() && ys[j] == x;
        let u = ys.remove(j);
        assert(u.to_multiset() == ys.to_multiset().remove(x));
        assert(t.to_multiset() =~= xs.to_multiset().remove(x));
        assert(t.to_multiset() == u.to_multiset());
        lemma_stats_permutation(t, u);
        lemma_stats_remove(ys, j);
    }
}

/// A constant sequence: over `n` copies of `x` the product is the n-th
/// power of `x` (so the geometric mean is `x` itself), and the arithmetic
/// mean equals `x` — the last clause is the cross-multiplied equality of
/// the mean `sum_num / (prod_den * n)` with `x`.
pub proof fn lemma_stats_of_constant(x: Rat, n: nat)
    requires
        n >= 1,
    ensures
        prod_num(repeated(x, n)) == pow(x.num as int, n),
        prod_den(repeated(x, n)) == pow(x.den as int, n),
        sum_num(repeated(x, n)) == n * (x.num * pow(x.den as int, (n - 1) as nat)),
        sum_num(repeated(x, n)) * x.den == x.num * (prod_den(repeated(x, n)) * n),
    decreases n,
{
    reveal(pow);
    let s = repeated(x, n);
    let p = x.num as int;
    let q = x.den as int;
    let m = n as int;
    let pw1 = pow(q, (n - 1) as nat);
    assert(s.last() == x);
    if n == 1 {
        assert(s.drop_last() =~= Seq::<Rat>::empty());
        assert(prod_num(Seq::<Rat>::empty()) == 1);
        assert(prod_den(Seq::<Rat>::empty()) == 1);
        assert(sum_num(Seq::<Rat>::empty()) == 0);
        assert(pow(p, 1) == p * pow(p, 0));
        assert(pow(q, 1) == q * pow(q, 0));
    } else {
        lemma_stats_of_constant(x, (n - 1) as nat);
        assert(s.drop_last() =~= repeated(x, (n - 1) as nat));
        let pw2 = pow(q, (n - 2) as nat);
        assert(pw1 == q * pw2);
        assert(pow(q, n) == q * pw1);
        assert(pow(p, n) == p * pow(p, (n - 1) as nat));
        assert(pow(p, (n - 1) as nat) * p == p * pow(p, (n - 1) as nat)) by (nonlinear_arith);
        assert(pow(q, (n - 1) as nat) * q == q * pw2 * q) by (nonlinear_arith)
            requires
                pw1 == q * pw2,
                pow(q, (n - 1) as nat) == pw1,
        ;
        assert(q * pw2 * q == q * (q * pw2)) by (nonlinear_arith);
        assert(((m - 1) * (p * pw2)) * q + p * pw1 == m * (p * pw1)) by (nonlinear_arith)
            requires
                pw1 == q * pw2,
        ;
    }
    assert(pow(q, n) == q * pw1);
    assert((m * (p * pw1)) * q == p * ((q * pw1) * m)) by (nonlinear_arith);
}

/// Bernoulli's inequality in the form the AM-GM induction needs: for
/// `a > 0` and `a + b >= 0`, `(a + b)^m >= a^m + m * a^(m-1) * b`.
proof fn lemma_bernoulli(a: int, b: int, m: nat)
    requires
        a > 0,
        a + b >= 0,
        m >= 1,
    ensures
        pow(a + b, m) >= pow(a, m) + m * pow(a, (m - 1) as nat) * b,
    decreases m,
{
    reveal(pow);
    if m == 1 {
        assert(pow(a + b, 1) == (a + b) * pow(a + b, 0));
        assert(pow(a, 1) == a * pow(a, 0));
    } else {
        lemma_bernoulli(a, b, (m - 1) as nat);
        let p1 = pow(a, (m - 1) as nat);
        let p2 = pow(a, (m - 2) as nat);
        let q1 = pow(a + b, (m - 1) as nat);
        assert(pow(a + b, m) == (a + b) * q1);
        assert(p1 == a * p2);
        assert(pow(a, m) == a * p1);
        lemma_pow_positive(a, (m - 2) as nat);
        lemma_mul_inequality(p1 + (m - 1) * p2 * b, q1, a + b);
        assert((p1 + (m - 1) * p2 * b) * (a + b) >= a * p1 + m * p1 * b) by (nonlinear_arith)
            requires
                p1 == a * p2,
                p2 > 0,
                m >= 2,
        ;
        assert(q1 * (a + b) == (a + b) * q1) by (nonlinear_arith);
    }
}

/// The arithmetic-mean/geometric-mean inequality, root-free: for a
/// non-empty sequence of positive rationals, with `N = sum_num`,
/// `D = prod_den`, `P = prod_num` and `n` the length,
/// `n^n * P * D^(n-1) <= N^n` — the cross-multiplied form of
/// `P / D <= (N / (n * D))^n`, that is, of
/// `(geometric mean)^n <= (arithmetic mean)^n`.
#[verifier::rlimit(100)]
pub proof fn lemma_am_gm(s: Seq<Rat>)
    requires
        s.len() >= 1,
        forall|i: int| 0 <= i < s.len() ==> (#[trigger] s[i]).wf() && s[i].is_positive(),
    ensures
        sum_num(s) > 0,
        prod_num(s) > 0,
        prod_den(s) > 0,
        pow(s.len() as int, s.len()) * prod_num(s) * pow(prod_den(s), (s.len() - 1) as nat) <= pow(
            sum_num(s),
            s.len(),
        ),
    decreases s.len(),
{
    reveal(pow);
    broadcast use lemma_mul_strictly_positive;

    if s.len() == 1 {
        assert(s.drop_last() =~= Seq::<Rat>::empty());
        assert(prod_num(Seq::<Rat>::empty()) == 1);
        assert(prod_den(Seq::<Rat>::empty()) == 1);
        assert(sum_num(Seq::<Rat>::empty()) == 0);
        assert(s.last() == s[0]);
        assert(pow(1, 1) == 1 * pow(1, 0));
        assert(pow(sum_num(s), 1) == sum_num(s) * pow(sum_num(s), 0));
    } else {
        let t = s.drop_last();
        let x = s.last();
        assert(forall|i: int| 0 <= i < t.len() ==> t[i] == s[i]);
        lemma_am_gm(t);
        let n = t.len() as int;
        let nn = t.len();
        let big = s.len();
        let p = x.num as int;
        let q = x.den as int;
        let bign = sum_num(t);
        let bigd = prod_den(t);
        let bigp = prod_num(t);
        assert(sum_num(s) == bign * q + p * bigd);
        assert(prod_num(s) == bigp * p);
        assert(prod_den(s) == bigd * q);
        assert(p > 0 && q > 0);
        assert(sum_num(s) > 0);
        assert(prod_num(s) > 0);
        assert(prod_den(s) > 0);
        // Bernoulli around a = (n+1)*N*q and b = n*p*D - N*q.
        let c = bign * q;
        let e = p * bigd;
        let a = (n + 1) * c;
        let b = n * e - c;
        assert(a > 0);
        assert(a + b == n * (c + e)) by (nonlinear_arith)
            requires
                a == (n + 1) * c,
                b == n * e - c,
        ;
        assert(n * (c + e) > 0);
        lemma_bernoulli(a, b, big);
        let powm = pow(n + 1, big);  // (n+1)^(n+1)
        let powmn = pow(n + 1, nn);  // (n+1)^n
        let powc = pow(c, nn);  // (N*q)^n
        let pows = pow(sum_num(s), big);  // (N*q + p*D)^(n+1)
        let pown1 = pow(n, big);  // n^(n+1)
        let pownn = pow(n, nn);  // n^n
        assert(powm == (n + 1) * powmn);
        assert(pown1 == n * pownn);
        // pow(a, n+1) and pow(a, n) in distributed form.
        lemma_pow_distributes(n + 1, c, big);
        lemma_pow_distributes(n + 1, c, nn);
        assert(pow(a, big) == powm * pow(c, big));
        assert(pow(c, big) == c * powc);
        assert(pow(a, nn) == powmn * powc);
        // The Bernoulli right-hand side collapses to (n+1)^(n+1)*(N*q)^n*n*p*D.
        assert(pow(a, big) + big * pow(a, nn) * b == powm * (c * powc) + (n + 1) * (powmn * powc)
            * b);
        assert(powm * (c * powc) + (n + 1) * (powmn * powc) * b == powm * powc * (n
            * e)) by (nonlinear_arith)
            requires
                powm == (n + 1) * powmn,
                b == n * e - c,
        ;
        // The Bernoulli left-hand side is n^(n+1) * (sum of s)^(n+1).
        assert(a + b == n * sum_num(s));
        lemma_pow_distributes(n, sum_num(s), big);
        assert(pow(a + b, big) == pown1 * pows);
        assert(pown1 * pows >= powm * powc * (n * e));
        // Multiply the induction hypothesis through by the positive factor
        // powm * pow(q,n) * n * e, then cancel n^(n+1).
        let powq = pow(q, nn);
        let pownum = pow(bign, nn);
        let powd = pow(bigd, nn);
        let powd1 = pow(bigd, (nn - 1) as nat);
        lemma_pow_distributes(bign, q, nn);
        assert(powc == pownum * powq);
        assert(pownn * bigp * powd1 <= pownum);
        lemma_pow_positive(n + 1, big);
        lemma_pow_positive(q, nn);
        assert(e > 0);
        let u = powm * powq;
        let w = n * e;
        let k = u * w;
        assert(k > 0) by (nonlinear_arith)
            requires
                k == u * w,
                u == powm * powq,
                w == n * e,
                powm > 0,
                powq > 0,
                n > 0,
                e > 0,
        ;
        let l = pownn * bigp * powd1;
        lemma_mul_inequality(l, pownum, k);
        assert(pownum * k == (powm * powc) * w) by (nonlinear_arith)
            requires
                k == u * w,
                u == powm * powq,
                powc == pownum * powq,
        ;
        assert((powm * powc) * w == powm * powc * (n * e));
        // Rewrite the multiplied-through left side into goal shape, one
        // associativity-and-commutativity step at a time.
        let powds = pow(prod_den(s), nn);
        lemma_pow_distributes(bigd, q, nn);
        assert(powds == powd * powq);
        assert(powd == bigd * powd1);
        let g1 = bigp * p;
        let g2 = bigd * powd1;
        assert(prod_num(s) == g1);
        assert(powds == g2 * powq) by (nonlinear_arith)
            requires
                powds == powd * powq,
                powd == g2,
        ;
        assert(l * k == (l * w) * u) by (nonlinear_arith)
            requires
                k == u * w,
        ;
        assert(w == n * (p * bigd));
        assert(l * w == (pownn * bigp * powd1) * (n * (p * bigd)));
        assert((pownn * bigp * powd1) * (n * (p * bigd)) == (pownn * n) * ((bigp * p) * (powd1
            * bigd))) by (nonlinear_arith);
        assert(powd1 * bigd == bigd * powd1) by (nonlinear_arith);
        assert(l * w == (pownn * n) * (g1 * g2));
        assert(pown1 == pownn * n) by (nonlinear_arith)
            requires
                pown1 == n * pownn,
        ;
        assert(((pownn * n) * (g1 * g2)) * u == (powm * g1 * (g2 * powq)) * (pownn
            * n)) by (nonlinear_arith)
            requires
                u == powm * powq,
        ;
        assert(l * k == (powm * prod_num(s) * powds) * pown1);
        assert((powm * prod_num(s) * powds) * pown1 <= pows * pown1) by (nonlinear_arith)
            requires
                (powm * prod_num(s) * powds) * pown1 <= pown1 * pows,
        ;
        lemma_pow_positive(n, big);
        lemma_mul_inequality_converse(powm * prod_num(s) * powds, pows, pown1);
        assert(pow(s.len() as int, s.len()) == powm);
        assert(pow(prod_den(s), (s.len() - 1) as nat) == powds);
    }
}

/// AM-GM in the shape of the library's statistics: the product of a
/// non-empty sequence of positive growth factors (the n-th power of the
/// geometric mean, as `growth_product` returns it) is at most the n-th
/// power of the arithmetic mean `sum_num / (prod_den * n)` — stated by
/// cross multiplication.
pub proof fn lemma_am_gm_means(s: Seq<Rat>)
    requires
        s.len() >= 1,
        forall|i: int| 0 <= i < s.len() ==> (#[trigger] s[i]).wf() && s[i].is_positive(),
    ensures
        prod_num(s) * pow(prod_den(s) * s.len(), s.len()) <= pow(sum_num(s), s.len()) * prod_den(
            s,
        ),
{
    reveal(pow);
    lemma_am_gm(s);
    let n = s.len() as int;
    let bigp = prod_num(s);
    let bigd = prod_den(s);
    let bign = sum_num(s);
    let powd1 = pow(bigd, (s.len() - 1) as nat);
    let pownn = pow(n, s.len());
    let pownum = pow(bign, s.len());
    lemma_pow_distributes(bigd, n, s.len());
    assert(pow(bigd * n, s.len()) == pow(bigd, s.len()) * pownn);
    assert(pow(bigd, s.len()) == bigd * powd1);
    lemma_mul_inequality(pownn * bigp * powd1, pownum, bigd);
    assert(bigp * (pow(bigd * n, s.len())) == (pownn * bigp * powd1) * bigd) by (nonlinear_arith)
        requires
            pow(bigd * n, s.len()) == pow(bigd, s.len()) * pownn,
            pow(bigd, s.len()) == bigd * powd1,
    ;
    assert(pownum * bigd == pow(bign, s.len()) * bigd);
}

} // verus!
