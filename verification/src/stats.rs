//! Multi-sample statistics: standard errors, Welch degrees of freedom,
//! confidence-interval and p-value plans, the k-sample pooled test, and
//! sample summary statistics.
//!
//! Every algebraic step is exact fixed-point arithmetic with its value
//! pinned in the contract; square roots and distribution evaluations are
//! returned as [`Query`] values for the caller. A value that leaves the
//! representable range is reported as [`SolveError::OutOfRange`].

use vstd::prelude::*;

use crate::constraint::Constraint;
use crate::dist::DistParams;
use crate::dist::Query;
use crate::error::SolveError;
use crate::fixed::spec_add;
use crate::fixed::spec_div;
use crate::fixed::spec_div_int;
use crate::fixed::spec_mul;
use crate::fixed::spec_mul_int;
use crate::fixed::spec_sub;
use crate::fixed::tdiv;
use crate::fixed::Fx;
use crate::fixed::SCALE;

verus! {

/// The sum of the numbers' millionths (exact, unbounded).
pub open spec fn fsum(s: Seq<Fx>) -> int
    decreases s.len(),
{
    if s.len() == 0 {
        0
    } else {
        fsum(s.drop_last()) + s.last().raw
    }
}

/// The size-weighted sum of the first `i` means' millionths.
pub open spec fn wsum(means: Seq<Fx>, sizes: Seq<usize>, i: int) -> int
    decreases i,
{
    if i <= 0 {
        0
    } else {
        wsum(means, sizes, i - 1) + means[i - 1].raw * sizes[i - 1]
    }
}

/// The sum of the first `i` sizes.
pub open spec fn ssum(sizes: Seq<usize>, i: int) -> int
    decreases i,
{
    if i <= 0 {
        0
    } else {
        ssum(sizes, i - 1) + sizes[i - 1]
    }
}

/// One group's term of the k-sample statistic, in millionths:
/// `(mean - reference)^2 / (dev^2 / size)`, with each product and quotient
/// truncated at the sixth decimal place.
pub open spec fn kterm(m: Fx, d: Fx, n: usize, refv: Fx) -> int {
    let sq = tdiv((m.raw - refv.raw) * (m.raw - refv.raw), SCALE as int);
    let dd = tdiv(d.raw * d.raw, SCALE as int);
    let dn = tdiv(dd, n as int);
    tdiv(sq * (SCALE as int), dn)
}

/// The k-sample statistic over the first `i` groups, in millionths.
pub open spec fn kstat(means: Seq<Fx>, devs: Seq<Fx>, sizes: Seq<usize>, refv: Fx, i: int) -> int
    decreases i,
{
    if i <= 0 {
        0
    } else {
        kstat(means, devs, sizes, refv, i - 1) + kterm(
            means[i - 1],
            devs[i - 1],
            sizes[i - 1],
            refv,
        )
    }
}

/// Whether every prefix of the weighted and plain size sums stays inside
/// the accumulator's range.
pub open spec fn pool_in_range(means: Seq<Fx>, sizes: Seq<usize>, i: int) -> bool
    decreases i,
{
    if i <= 0 {
        true
    } else {
        pool_in_range(means, sizes, i - 1) && i128::MIN <= wsum(means, sizes, i) <= i128::MAX
            && ssum(sizes, i) <= i128::MAX
    }
}

proof fn lemma_pool_range_extends(means: Seq<Fx>, sizes: Seq<usize>, i: int, j: int)
    requires
        0 <= i <= j,
        !pool_in_range(means, sizes, i),
    ensures
        !pool_in_range(means, sizes, j),
    decreases j,
{
    if i < j {
        lemma_pool_range_extends(means, sizes, i, j - 1);
    }
}

/// The size-weighted average of the group means: the pooled mean, or
/// the range error when a partial sum leaves the accumulator, the total
/// size is zero, or the quotient is unrepresentable.
pub open spec fn spec_k_pool_mean(means: Seq<Fx>, sizes: Seq<usize>) -> Result<Fx, SolveError> {
    let n = means.len() as int;
    if !pool_in_range(means, sizes, n) {
        Err(SolveError::OutOfRange)
    } else if ssum(sizes, n) == 0 {
        Err(SolveError::OutOfRange)
    } else if i64::MIN <= tdiv(wsum(means, sizes, n), ssum(sizes, n)) <= i64::MAX {
        Ok(Fx { raw: tdiv(wsum(means, sizes, n), ssum(sizes, n)) as i64 })
    } else {
        Err(SolveError::OutOfRange)
    }
}

/// The size-weighted average of the group means: the pooled mean, its
/// value exactly the weighted sum of the means divided by the total size;
/// `Ok` exactly when the sums stay in range, the total size is positive
/// and the quotient is representable.
pub fn k_pool_mean(means: &Vec<Fx>, sizes: &Vec<usize>) -> (r: Result<Fx, SolveError>)
    requires
        means@.len() == sizes@.len(),
    ensures
        r == spec_k_pool_mean(means@, sizes@),
        r matches Ok(v) ==> ssum(sizes@, sizes@.len() as int) > 0 && v.raw == tdiv(
            wsum(means@, sizes@, means@.len() as int),
            ssum(sizes@, sizes@.len() as int),
        ),
{
    let n = means.len();
    let mut acc: i128 = 0;
    let mut total: i128 = 0;
    let mut i: usize = 0;
    while i < n
        invariant
            0 <= i <= n == means@.len() == sizes@.len(),
            acc == wsum(means@, sizes@, i as int),
            total == ssum(sizes@, i as int),
            total >= 0,
            pool_in_range(means@, sizes@, i as int),
        decreases n - i,
    {
        let m = means[i];
        let s = sizes[i];
        proof {
            crate::fixed::lemma_i64_times_usize_fits(m.raw as int, s as int);
        }
        let w: i128 = (m.raw as i128) * (s as i128);
        acc = match acc.checked_add(w) {
            Some(a) => a,
            None => {
                proof {
                    assert(wsum(means@, sizes@, i + 1) == acc + m.raw * s);
                    assert(!pool_in_range(means@, sizes@, i + 1));
                    lemma_pool_range_extends(means@, sizes@, i + 1, n as int);
                }
                return Err(SolveError::OutOfRange);
            },
        };
        total = match total.checked_add(s as i128) {
            Some(t) => t,
            None => {
                proof {
                    assert(ssum(sizes@, i + 1) == total + s);
                    assert(!pool_in_range(means@, sizes@, i + 1));
                    lemma_pool_range_extends(means@, sizes@, i + 1, n as int);
                }
                return Err(SolveError::OutOfRange);
            },
        };
        i = i + 1;
    }
    if total == 0 {
        return Err(SolveError::OutOfRange);
    }
    let q: i128 = acc.checked_div(total).unwrap();
    if i64::MIN as i128 <= q && q <= i64::MAX as i128 {
        Ok(Fx { raw: q as i64 })
    } else {
        Err(SolveError::OutOfRange)
    }
}

/// When every group mean equals `m0`, the pooled mean is exactly `m0`:
/// the weighted sum collapses to `m0` times the total size.
pub proof fn lemma_pool_of_equal_means(means: Seq<Fx>, sizes: Seq<usize>, m0: Fx, i: int)
    requires
        0 <= i <= means.len(),
        means.len() == sizes.len(),
        forall|k: int| 0 <= k < means.len() ==> means[k] == m0,
    ensures
        wsum(means, sizes, i) == m0.raw * ssum(sizes, i),
        ssum(sizes, i) > 0 ==> tdiv(wsum(means, sizes, i), ssum(sizes, i)) == m0.raw,
    decreases i,
{
    if i > 0 {
        lemma_pool_of_equal_means(means, sizes, m0, i - 1);
        assert(means[i - 1] == m0);
        assert(m0.raw * ssum(sizes, i - 1) + m0.raw * sizes[i - 1] == m0.raw * (ssum(
            sizes,
            i - 1,
        ) + sizes[i - 1])) by (nonlinear_arith);
    }
    if ssum(sizes, i) > 0 {
        crate::fixed::lemma_tdiv_multiples(m0.raw as int, ssum(sizes, i));
        assert(m0.raw * ssum(sizes, i) == ssum(sizes, i) * m0.raw) by (nonlinear_arith);
        assert(tdiv(m0.raw * ssum(sizes, i), ssum(sizes, i)) == m0.raw) by {
            crate::fixed::lemma_tdiv_multiples(m0.raw as int, ssum(sizes, i));
        }
    }
}

/// Whether one group's term of the k-sample statistic is computable: the
/// chain of checked steps all land, in particular the group's variance
/// term `dev^2 / size` is nonzero for the final division.
pub open spec fn kterm_ok(m: Fx, d: Fx, n: usize, refv: Fx) -> bool {
    match spec_sub(m, refv) {
        None => false,
        Some(diff) => match spec_mul(diff, diff) {
            None => false,
            Some(sq) => match spec_mul(d, d) {
                None => false,
                Some(dd) => match spec_div_int(dd, n as int) {
                    None => false,
                    Some(dn) => spec_div(sq, dn) is Some,
                },
            },
        },
    }
}

/// Whether every term of the first `i` groups is computable and every
/// partial statistic stays in range.
pub open spec fn kstat_in_range(
    means: Seq<Fx>,
    devs: Seq<Fx>,
    sizes: Seq<usize>,
    refv: Fx,
    i: int,
) -> bool
    decreases i,
{
    if i <= 0 {
        true
    } else {
        kstat_in_range(means, devs, sizes, refv, i - 1) && kterm_ok(
            means[i - 1],
            devs[i - 1],
            sizes[i - 1],
            refv,
        ) && i64::MIN <= kstat(means, devs, sizes, refv, i) <= i64::MAX
    }
}

proof fn lemma_kstat_range_extends(
    means: Seq<Fx>,
    devs: Seq<Fx>,
    sizes: Seq<usize>,
    refv: Fx,
    i: int,
    j: int,
)
    requires
        0 <= i <= j,
        !kstat_in_range(means, devs, sizes, refv, i),
    ensures
        !kstat_in_range(means, devs, sizes, refv, j),
    decreases j,
{
    if i < j {
        lemma_kstat_range_extends(means, devs, sizes, refv, i, j - 1);
    }
}

/// The k-sample statistic against the reference value, exactly; `Ok`
/// exactly when every group term is computable (in particular no group
/// variance term is zero) and every partial sum stays in range.
pub fn k_statistic(means: &Vec<Fx>, devs: &Vec<Fx>, sizes: &Vec<usize>, reference: Fx) -> (r:
    Result<Fx, SolveError>)
    requires
        means@.len() == devs@.len(),
        means@.len() == sizes@.len(),
    ensures
        r == (if kstat_in_range(means@, devs@, sizes@, reference, means@.len() as int) {
            Ok::<Fx, SolveError>(
                Fx { raw: kstat(means@, devs@, sizes@, reference, means@.len() as int) as i64 },
            )
        } else {
            Err::<Fx, SolveError>(SolveError::OutOfRange)
        }),
        r matches Ok(v) ==> v.raw == kstat(
            means@,
            devs@,
            sizes@,
            reference,
            means@.len() as int,
        ),
{
    let n = means.len();
    let mut acc = Fx::zero();
    let mut i: usize = 0;
    while i < n
        invariant
            0 <= i <= n == means@.len(),
            means@.len() == devs@.len(),
            means@.len() == sizes@.len(),
            acc.raw == kstat(means@, devs@, sizes@, reference, i as int),
            kstat_in_range(means@, devs@, sizes@, reference, i as int),
        decreases n - i,
    {
        let ghost gi = i as int;
        let m = means[i];
        let d = devs[i];
        let s = sizes[i];
        let diff = match m.try_sub(reference) {
            Some(x) => x,
            None => {
                proof {
                    assert(!kterm_ok(m, d, s, reference));
                    lemma_kstat_range_extends(means@, devs@, sizes@, reference, gi + 1, n as int);
                }
                return Err(SolveError::OutOfRange);
            },
        };
        let sq = match diff.try_mul(diff) {
            Some(x) => x,
            None => {
                proof {
                    assert(!kterm_ok(m, d, s, reference));
                    lemma_kstat_range_extends(means@, devs@, sizes@, reference, gi + 1, n as int);
                }
                return Err(SolveError::OutOfRange);
            },
        };
        let dd = match d.try_mul(d) {
            Some(x) => x,
            None => {
                proof {
                    assert(!kterm_ok(m, d, s, reference));
                    lemma_kstat_range_extends(means@, devs@, sizes@, reference, gi + 1, n as int);
                }
                return Err(SolveError::OutOfRange);
            },
        };
        let dn = match dd.try_div_int(s) {
            Some(x) => x,
            None => {
                proof {
                    assert(!kterm_ok(m, d, s, reference));
                    lemma_kstat_range_extends(means@, devs@, sizes@, reference, gi + 1, n as int);
                }
                return Err(SolveError::OutOfRange);
            },
        };
        let term = match sq.try_div(dn) {
            Some(x) => x,
            None => {
                proof {
                    assert(!kterm_ok(m, d, s, reference));
                    lemma_kstat_range_extends(means@, devs@, sizes@, reference, gi + 1, n as int);
                }
                return Err(SolveError::OutOfRange);
            },
        };
        acc = match acc.try_add(term) {
            Some(x) => x,
            None => {
                proof {
                    assert(kstat(means@, devs@, sizes@, reference, gi + 1) == acc.raw
                        + term.raw);
                    assert(!kstat_in_range(means@, devs@, sizes@, reference, gi + 1));
                    lemma_kstat_range_extends(means@, devs@, sizes@, reference, gi + 1, n as int);
                }
                return Err(SolveError::OutOfRange);
            },
        };
        i = i + 1;
    }
    Ok(acc)
}

/// When every group mean equals the reference, every term of the k-sample
/// statistic is zero, and so is the statistic.
pub proof fn lemma_kstat_zero(means: Seq<Fx>, devs: Seq<Fx>, sizes: Seq<usize>, refv: Fx, i: int)
    requires
        0 <= i <= means.len(),
        forall|k: int| 0 <= k < means.len() ==> means[k] == refv,
    ensures
        kstat(means, devs, sizes, refv, i) == 0,
    decreases i,
{
    if i > 0 {
        lemma_kstat_zero(means, devs, sizes, refv, i - 1);
        assert(means[i - 1] == refv);
        assert(kterm(means[i - 1], devs[i - 1], sizes[i - 1], refv) == 0);
    }
}

/// The k-sample degrees of freedom: the group count under a fixed
/// reference hypothesis, one less under the pooled hypothesis; any other
/// hypothesis form is rejected.
pub fn k_freedom(hypothesis: &Constraint, groups: usize) -> (r: Result<usize, SolveError>)
    ensures
        hypothesis matches Constraint::NotEqual(_) ==> r == Ok::<usize, SolveError>(groups),
        hypothesis is NotEqualUnknown ==> (if groups >= 1 {
            r == Ok::<usize, SolveError>((groups - 1) as usize)
        } else {
            r == Err::<usize, SolveError>(SolveError::NotValidChiSquared)
        }),
        !(hypothesis matches Constraint::NotEqual(_)) && !(hypothesis is NotEqualUnknown) ==> r
            == Err::<usize, SolveError>(SolveError::NotValidHypothesis),
{
    match hypothesis {
        Constraint::NotEqual(_) => Ok(groups),
        Constraint::NotEqualUnknown => {
            if groups >= 1 {
                Ok(groups - 1)
            } else {
                Err(SolveError::NotValidChiSquared)
            }
        },
        _ => Err(SolveError::NotValidHypothesis),
    }
}

/// One minus the answered cumulative value: the upper-tail probability.
/// A missing answer reports `invalid`.
pub fn upper_tail(answer: Option<Fx>, invalid: SolveError) -> (r: Result<Fx, SolveError>)
    ensures
        r == (match answer {
            None => Err::<Fx, SolveError>(invalid),
            Some(c) => match spec_sub(Fx { raw: 1000000 }, c) {
                Some(v) => Ok::<Fx, SolveError>(v),
                None => Err::<Fx, SolveError>(SolveError::OutOfRange),
            },
        }),
{
    match answer {
        None => Err(invalid),
        Some(c) => match Fx::one().try_sub(c) {
            Some(v) => Ok(v),
            None => Err(SolveError::OutOfRange),
        },
    }
}

/// How a hypothesis p-value is read off one cumulative value.
#[derive(Clone, Copy, PartialEq, Eq, Structural, Debug)]
pub enum HypKind {
    /// The value itself.
    Plain,
    /// Its complement.
    OneMinus,
    /// Twice the value (a two-sided hypothesis, observed above the bound).
    Double,
    /// Two minus twice the value (observed at or below the bound).
    TwoMinusDouble,
}

/// The p-value plan for a one- or two-sample mean hypothesis: the
/// cumulative query at the hypothesized bound, and how to read it.
pub fn hyp_pvalue_plan(params: DistParams, hypothesis: &Constraint, observed: Fx) -> (r: Result<
    (Query, HypKind),
    SolveError,
>)
    ensures
        r == (match *hypothesis {
            Constraint::GreaterEq(v) | Constraint::GreaterThan(v) => Ok::<
                (Query, HypKind),
                SolveError,
            >((Query::Cdf(params, v), HypKind::Plain)),
            Constraint::LessEq(v) | Constraint::LessThan(v) => Ok::<(Query, HypKind), SolveError>(
                (Query::Cdf(params, v), HypKind::OneMinus),
            ),
            Constraint::NotEqual(v) => Ok::<(Query, HypKind), SolveError>(
                (
                    Query::Cdf(params, v),
                    if observed.raw > v.raw {
                        HypKind::Double
                    } else {
                        HypKind::TwoMinusDouble
                    },
                ),
            ),
            _ => Err::<(Query, HypKind), SolveError>(SolveError::NotValidHypothesis),
        }),
{
    match hypothesis {
        Constraint::GreaterEq(v) | Constraint::GreaterThan(v) => Ok(
            (Query::Cdf(params, *v), HypKind::Plain),
        ),
        Constraint::LessEq(v) | Constraint::LessThan(v) => Ok(
            (Query::Cdf(params, *v), HypKind::OneMinus),
        ),
        Constraint::NotEqual(v) => Ok(
            (
                Query::Cdf(params, *v),
                if observed.gt(*v) {
                    HypKind::Double
                } else {
                    HypKind::TwoMinusDouble
                },
            ),
        ),
        _ => Err(SolveError::NotValidHypothesis),
    }
}

/// Reads the p-value off the answered cumulative value per the plan's
/// kind. A missing answer reports `invalid`.
pub fn hyp_pvalue_finish(kind: HypKind, answer: Option<Fx>, invalid: SolveError) -> (r: Result<
    Fx,
    SolveError,
>)
    ensures
        answer is None ==> r == Err::<Fx, SolveError>(invalid),
        answer matches Some(c) ==> r == (match kind {
            HypKind::Plain => Ok::<Fx, SolveError>(c),
            HypKind::OneMinus => match spec_sub(Fx { raw: 1000000 }, c) {
                Some(v) => Ok::<Fx, SolveError>(v),
                None => Err::<Fx, SolveError>(SolveError::OutOfRange),
            },
            HypKind::Double => match spec_add(c, c) {
                Some(v) => Ok::<Fx, SolveError>(v),
                None => Err::<Fx, SolveError>(SolveError::OutOfRange),
            },
            HypKind::TwoMinusDouble => match spec_sub(Fx { raw: 1000000 }, c) {
                None => Err::<Fx, SolveError>(SolveError::OutOfRange),
                Some(t) => match spec_add(t, t) {
                    Some(v) => Ok::<Fx, SolveError>(v),
                    None => Err::<Fx, SolveError>(SolveError::OutOfRange),
                },
            },
        }),
{
    let c = match answer {
        Some(c) => c,
        None => {
            return Err(invalid);
        },
    };
    match kind {
        HypKind::Plain => Ok(c),
        HypKind::OneMinus => match Fx::one().try_sub(c) {
            Some(v) => Ok(v),
            None => Err(SolveError::OutOfRange),
        },
        HypKind::Double => match c.try_add(c) {
            Some(v) => Ok(v),
            None => Err(SolveError::OutOfRange),
        },
        HypKind::TwoMinusDouble => match Fx::one().try_sub(c) {
            None => Err(SolveError::OutOfRange),
            Some(t) => match t.try_add(t) {
                Some(v) => Ok(v),
                None => Err(SolveError::OutOfRange),
            },
        },
    }
}

/// The two bounds `(1 - confidence) / 2` and `(1 + confidence) / 2` of a
/// central confidence interval; a confidence out of the representable
/// range is the error.
pub open spec fn spec_confidence_bounds(confidence: Fx) -> Result<(Fx, Fx), SolveError> {
    match spec_sub(Fx { raw: 1000000 }, confidence) {
        None => Err(SolveError::OutOfRange),
        Some(lo2) => match spec_add(Fx { raw: 1000000 }, confidence) {
            None => Err(SolveError::OutOfRange),
            Some(hi2) => match (spec_div_int(lo2, 2), spec_div_int(hi2, 2)) {
                (Some(lo), Some(hi)) => Ok((lo, hi)),
                _ => Err(SolveError::OutOfRange),
            },
        },
    }
}

/// The two bounds `(1 - confidence) / 2` and `(1 + confidence) / 2` of a
/// central confidence interval, exactly; `Ok` exactly when both stay in
/// the representable range.
pub fn confidence_bounds(confidence: Fx) -> (r: Result<(Fx, Fx), SolveError>)
    ensures
        r == spec_confidence_bounds(confidence),
        r matches Ok(b) ==> {
            &&& spec_sub(Fx { raw: 1000000 }, confidence) matches Some(lo2)
            &&& spec_add(Fx { raw: 1000000 }, confidence) matches Some(hi2)
            &&& b.0.raw == tdiv(lo2.raw as int, 2)
            &&& b.1.raw == tdiv(hi2.raw as int, 2)
        },
{
    let lo2 = match Fx::one().try_sub(confidence) {
        Some(x) => x,
        None => {
            return Err(SolveError::OutOfRange);
        },
    };
    let hi2 = match Fx::one().try_add(confidence) {
        Some(x) => x,
        None => {
            return Err(SolveError::OutOfRange);
        },
    };
    let lo = match lo2.try_div_int(2) {
        Some(x) => x,
        None => {
            return Err(SolveError::OutOfRange);
        },
    };
    let hi = match hi2.try_div_int(2) {
        Some(x) => x,
        None => {
            return Err(SolveError::OutOfRange);
        },
    };
    Ok((lo, hi))
}

/// The two quantile queries of a central confidence interval for the
/// distribution, at exactly `(1 - confidence) / 2` and
/// `(1 + confidence) / 2`; `Ok` exactly when the bounds are representable.
pub fn interval_queries(params: DistParams, confidence: Fx) -> (r: Result<
    (Query, Query),
    SolveError,
>)
    ensures
        r == (match spec_confidence_bounds(confidence) {
            Ok(b) => Ok::<(Query, Query), SolveError>(
                (Query::InverseCdf(params, b.0), Query::InverseCdf(params, b.1)),
            ),
            Err(e) => Err::<(Query, Query), SolveError>(e),
        }),
{
    let (lo, hi) = match confidence_bounds(confidence) {
        Ok(b) => b,
        Err(e) => {
            return Err(e);
        },
    };
    Ok((Query::InverseCdf(params, lo), Query::InverseCdf(params, hi)))
}

/// One group's variance of the mean, `dev^2 / n`, with each step checked:
/// `None` parts of the chain (a zero size, or a value out of range) are
/// the error.
pub open spec fn spec_var_over_n(dev: Fx, n: int) -> Result<Fx, SolveError> {
    match spec_mul(dev, dev) {
        None => Err(SolveError::OutOfRange),
        Some(dd) => match spec_div_int(dd, n) {
            None => Err(SolveError::OutOfRange),
            Some(v) => Ok(v),
        },
    }
}

/// The squared standard error of a difference of two sample means:
/// `dev1^2 / n1 + dev2^2 / n2`, each quotient truncated.
pub open spec fn spec_std_err_sq(dev1: Fx, n1: int, dev2: Fx, n2: int) -> Result<Fx, SolveError> {
    match spec_var_over_n(dev1, n1) {
        Err(e) => Err(e),
        Ok(a) => match spec_var_over_n(dev2, n2) {
            Err(e) => Err(e),
            Ok(b) => match spec_add(a, b) {
                Some(v) => Ok(v),
                None => Err(SolveError::OutOfRange),
            },
        },
    }
}

/// The squared standard error of a difference of two sample means:
/// `dev1^2 / n1 + dev2^2 / n2`, exactly, each quotient truncated; `Ok`
/// exactly when both sizes are nonzero and every step stays in range.
pub fn std_err_sq(dev1: Fx, n1: usize, dev2: Fx, n2: usize) -> (r: Result<Fx, SolveError>)
    ensures
        r == spec_std_err_sq(dev1, n1 as int, dev2, n2 as int),
        r matches Ok(v) ==> v.raw == tdiv(tdiv(dev1.raw * dev1.raw, SCALE as int), n1 as int)
            + tdiv(tdiv(dev2.raw * dev2.raw, SCALE as int), n2 as int),
{
    let a = match var_over_n(dev1, n1) {
        Ok(a) => a,
        Err(e) => {
            return Err(e);
        },
    };
    let b = match var_over_n(dev2, n2) {
        Ok(b) => b,
        Err(e) => {
            return Err(e);
        },
    };
    match a.try_add(b) {
        Some(v) => Ok(v),
        None => Err(SolveError::OutOfRange),
    }
}

/// One group's variance of the mean: `dev^2 / n`, truncated; `Ok` exactly
/// when the size is nonzero and both steps stay in range.
pub fn var_over_n(dev: Fx, n: usize) -> (r: Result<Fx, SolveError>)
    ensures
        r == spec_var_over_n(dev, n as int),
        r matches Ok(v) ==> v.raw == tdiv(tdiv(dev.raw * dev.raw, SCALE as int), n as int),
{
    let dd = match dev.try_mul(dev) {
        Some(x) => x,
        None => {
            return Err(SolveError::OutOfRange);
        },
    };
    match dd.try_div_int(n) {
        Some(v) => Ok(v),
        None => Err(SolveError::OutOfRange),
    }
}

/// The Welch-Satterthwaite degrees of freedom,
/// `(a + b)^2 / (a^2/(n1-1) + b^2/(n2-1))` with `a = dev1^2/n1` and
/// `b = dev2^2/n2`, over the truncated quotients.
pub open spec fn spec_welch_freedom(dev1: Fx, n1: int, dev2: Fx, n2: int) -> Result<
    Fx,
    SolveError,
> {
    if n1 < 2 || n2 < 2 {
        Err(SolveError::OutOfRange)
    } else {
        match spec_var_over_n(dev1, n1) {
            Err(e) => Err(e),
            Ok(a) => match spec_var_over_n(dev2, n2) {
                Err(e) => Err(e),
                Ok(b) => match spec_add(a, b) {
                    None => Err(SolveError::OutOfRange),
                    Some(s) => match spec_mul(s, s) {
                        None => Err(SolveError::OutOfRange),
                        Some(s2) => match spec_var_over_n(a, n1 - 1) {
                            Err(e) => Err(e),
                            Ok(da) => match spec_var_over_n(b, n2 - 1) {
                                Err(e) => Err(e),
                                Ok(db) => match spec_add(da, db) {
                                    None => Err(SolveError::OutOfRange),
                                    Some(den) => match spec_div(s2, den) {
                                        Some(v) => Ok(v),
                                        None => Err(SolveError::OutOfRange),
                                    },
                                },
                            },
                        },
                    },
                },
            },
        }
    }
}

/// The Welch-Satterthwaite degrees of freedom,
/// `(a + b)^2 / (a^2/(n1-1) + b^2/(n2-1))` with `a = dev1^2/n1` and
/// `b = dev2^2/n2`, exactly over the truncated quotients; `Ok` exactly
/// when both sizes are at least two, the denominator is nonzero and every
/// step stays in range.
pub fn welch_freedom(dev1: Fx, n1: usize, dev2: Fx, n2: usize) -> (r: Result<Fx, SolveError>)
    ensures
        r == spec_welch_freedom(dev1, n1 as int, dev2, n2 as int),
        r matches Ok(v) ==> n1 >= 2 && n2 >= 2 && {
            let a = Fx { raw: tdiv(tdiv(dev1.raw * dev1.raw, SCALE as int), n1 as int) as i64 };
            let b = Fx { raw: tdiv(tdiv(dev2.raw * dev2.raw, SCALE as int), n2 as int) as i64 };
            &&& spec_add(a, b) matches Some(s)
            &&& {
                let s2 = tdiv(s.raw * s.raw, SCALE as int);
                let den = tdiv(tdiv(a.raw * a.raw, SCALE as int), n1 - 1) + tdiv(
                    tdiv(b.raw * b.raw, SCALE as int),
                    n2 - 1,
                );
                den != 0 && v.raw == tdiv(s2 * (SCALE as int), den)
            }
        },
{
    if n1 < 2 || n2 < 2 {
        return Err(SolveError::OutOfRange);
    }
    let a = match var_over_n(dev1, n1) {
        Ok(a) => a,
        Err(e) => {
            return Err(e);
        },
    };
    let b = match var_over_n(dev2, n2) {
        Ok(b) => b,
        Err(e) => {
            return Err(e);
        },
    };
    let s = match a.try_add(b) {
        Some(s) => s,
        None => {
            return Err(SolveError::OutOfRange);
        },
    };
    let s2 = match s.try_mul(s) {
        Some(x) => x,
        None => {
            return Err(SolveError::OutOfRange);
        },
    };
    let da = match var_over_n(a, n1 - 1) {
        Ok(x) => x,
        Err(e) => {
            return Err(e);
        },
    };
    let db = match var_over_n(b, n2 - 1) {
        Ok(x) => x,
        Err(e) => {
            return Err(e);
        },
    };
    let den = match da.try_add(db) {
        Some(x) => x,
        None => {
            return Err(SolveError::OutOfRange);
        },
    };
    match s2.try_div(den) {
        Some(v) => Ok(v),
        None => Err(SolveError::OutOfRange),
    }
}

/// The standard error from an answered square root: `dev / root`. A
/// missing or zero root reports `invalid`.
pub fn se_from_sqrt(dev: Fx, root: Option<Fx>, invalid: SolveError) -> (r: Result<Fx, SolveError>)
    ensures
        r == (match root {
            None => Err::<Fx, SolveError>(invalid),
            Some(s) => match spec_div(dev, s) {
                Some(v) => Ok::<Fx, SolveError>(v),
                None => Err::<Fx, SolveError>(invalid),
            },
        }),
{
    match root {
        None => Err(invalid),
        Some(s) => match dev.try_div(s) {
            Some(v) => Ok(v),
            None => Err(invalid),
        },
    }
}

/// Normal parameters around `mean` with the answered standard error; a
/// missing or nonpositive error reports `invalid`.
pub fn normal_params(mean: Fx, se: Option<Fx>, invalid: SolveError) -> (r: Result<
    DistParams,
    SolveError,
>)
    ensures
        r == (match se {
            Some(s) => if s.raw > 0 {
                Ok::<DistParams, SolveError>(DistParams::Normal { mean, sd: s })
            } else {
                Err::<DistParams, SolveError>(invalid)
            },
            None => Err::<DistParams, SolveError>(invalid),
        }),
{
    match se {
        Some(s) => if s.is_pos() {
            Ok(DistParams::Normal { mean, sd: s })
        } else {
            Err(invalid)
        },
        None => Err(invalid),
    }
}

/// Student parameters around `location` with the answered standard error
/// and the given freedom; an invalid scale or freedom reports `invalid`.
pub fn student_params(location: Fx, se: Option<Fx>, freedom: Fx, invalid: SolveError) -> (r:
    Result<DistParams, SolveError>)
    ensures
        r == (match se {
            Some(s) => if s.raw > 0 && freedom.raw > 0 {
                Ok::<DistParams, SolveError>(
                    DistParams::Student { location, scale: s, freedom },
                )
            } else {
                Err::<DistParams, SolveError>(invalid)
            },
            None => Err::<DistParams, SolveError>(invalid),
        }),
{
    match se {
        Some(s) => if s.is_pos() && freedom.is_pos() {
            Ok(DistParams::Student { location, scale: s, freedom })
        } else {
            Err(invalid)
        },
        None => Err(invalid),
    }
}

/// How many entries are filled.
pub open spec fn count_some(s: Seq<Option<Fx>>) -> int
    decreases s.len(),
{
    if s.len() == 0 {
        0
    } else {
        count_some(s.drop_last()) + (if s.last() is Some {
            1int
        } else {
            0int
        })
    }
}

/// The sum of the filled entries' millionths (blanks count zero).
pub open spec fn opt_sum(s: Seq<Option<Fx>>) -> int
    decreases s.len(),
{
    if s.len() == 0 {
        0
    } else {
        opt_sum(s.drop_last()) + (match s.last() {
            Some(v) => v.raw as int,
            None => 0,
        })
    }
}

/// The sum of squared deviations of the filled entries from `mean`, each
/// square truncated at the sixth decimal place (blanks count zero).
pub open spec fn sqdev_sum(s: Seq<Option<Fx>>, mean: Fx) -> int
    decreases s.len(),
{
    if s.len() == 0 {
        0
    } else {
        sqdev_sum(s.drop_last(), mean) + (match s.last() {
            Some(v) => tdiv((mean.raw - v.raw) * (mean.raw - v.raw), SCALE as int),
            None => 0,
        })
    }
}

/// Whether every squared deviation of the first `i` entries is
/// computable and every partial sum of them stays in range.
pub open spec fn sq_in_range(s: Seq<Option<Fx>>, mean: Fx, i: int) -> bool
    decreases i,
{
    if i <= 0 {
        true
    } else {
        sq_in_range(s, mean, i - 1) && (match s[i - 1] {
            Some(v) => match spec_sub(mean, v) {
                None => false,
                Some(dv) => spec_mul(dv, dv) is Some,
            },
            None => true,
        }) && i64::MIN <= sqdev_sum(s.subrange(0, i), mean) <= i64::MAX
    }
}

proof fn lemma_sq_range_extends(s: Seq<Option<Fx>>, mean: Fx, i: int, j: int)
    requires
        0 <= i <= j,
        !sq_in_range(s, mean, i),
    ensures
        !sq_in_range(s, mean, j),
    decreases j,
{
    if i < j {
        lemma_sq_range_extends(s, mean, i, j - 1);
    }
}

proof fn lemma_opt_sum_bound(s: Seq<Option<Fx>>)
    ensures
        count_some(s) >= 0,
        -(count_some(s) * 0x8000000000000000) <= opt_sum(s) <= count_some(s)
            * 0x7fffffffffffffff,
    decreases s.len(),
{
    if s.len() > 0 {
        lemma_opt_sum_bound(s.drop_last());
        let c = count_some(s.drop_last());
        if s.last() is Some {
            assert((c + 1) * 0x8000000000000000 == c * 0x8000000000000000
                + 0x8000000000000000) by (nonlinear_arith);
            assert((c + 1) * 0x7fffffffffffffff == c * 0x7fffffffffffffff
                + 0x7fffffffffffffff) by (nonlinear_arith);
        }
    }
}

/// The mean, the sample variance and the square-root query for the
/// standard deviation of a list of optional entries: fewer than two
/// entries, or fewer than two filled ones, is `NotEnoughValues`; a
/// squared deviation out of range is `OutOfRange`; otherwise the mean
/// divides the sum of the filled entries by their count and the variance
/// divides the squared deviations by one less than that count.
pub open spec fn spec_sample_stats(vals: Seq<Option<Fx>>) -> Result<(Fx, Fx, Query), SolveError> {
    if vals.len() < 2 {
        Err(SolveError::NotEnoughValues)
    } else if count_some(vals) < 2 {
        Err(SolveError::NotEnoughValues)
    } else {
        let mean = Fx { raw: tdiv(opt_sum(vals), count_some(vals)) as i64 };
        if !sq_in_range(vals, mean, vals.len() as int) {
            Err(SolveError::OutOfRange)
        } else {
            let var = Fx { raw: tdiv(sqdev_sum(vals, mean), count_some(vals) - 1) as i64 };
            Ok((mean, var, Query::Sqrt(var)))
        }
    }
}

/// The mean and sample variance of a list of optional entries (entries may
/// be blank while still being typed), and the square-root query for the
/// standard deviation; see [`spec_sample_stats`], which this equals — in
/// particular success is owed whenever two or more entries are filled and
/// the squared deviations stay in range.
pub fn sample_stats(vals: &Vec<Option<Fx>>) -> (r: Result<(Fx, Fx, Query), SolveError>)
    ensures
        r == spec_sample_stats(vals@),
        r matches Ok(v) ==> {
            &&& vals@.len() >= 2
            &&& count_some(vals@) >= 2
            &&& v.0.raw == tdiv(opt_sum(vals@), count_some(vals@))
            &&& v.1.raw == tdiv(sqdev_sum(vals@, v.0), count_some(vals@) - 1)
            &&& v.2 == Query::Sqrt(v.1)
        },
{
    let n = vals.len();
    if n < 2 {
        return Err(SolveError::NotEnoughValues);
    }
    let mut count: usize = 0;
    let mut sum: i128 = 0;
    let mut i: usize = 0;
    while i < n
        invariant
            0 <= i <= n == vals@.len(),
            count == count_some(vals@.subrange(0, i as int)),
            sum == opt_sum(vals@.subrange(0, i as int)),
            count <= i,
            -0x8000000000000000 * (i as int) <= sum <= 0x8000000000000000 * (i as int),
        decreases n - i,
    {
        proof {
            assert(vals@.subrange(0, i + 1).drop_last() =~= vals@.subrange(0, i as int));
        }
        match vals[i] {
            Some(v) => {
                count = count + 1;
                sum = sum + (v.raw as i128);
            },
            None => {
            },
        }
        i = i + 1;
    }
    proof {
        assert(vals@.subrange(0, n as int) =~= vals@);
    }
    if count < 2 {
        return Err(SolveError::NotEnoughValues);
    }
    proof {
        lemma_opt_sum_bound(vals@);
        crate::fixed::lemma_tdiv_range(sum as int, count as int);
    }
    let mq: i128 = match sum.checked_div(count as i128) {
        Some(q) => q,
        None => {
            return Err(SolveError::OutOfRange);
        },
    };
    if !(i64::MIN as i128 <= mq && mq <= i64::MAX as i128) {
        return Err(SolveError::OutOfRange);
    }
    let mean = Fx { raw: mq as i64 };
    let mut sq = Fx::zero();
    let mut i: usize = 0;
    while i < n
        invariant
            0 <= i <= n == vals@.len(),
            n >= 2,
            count_some(vals@) >= 2,
            mean.raw == tdiv(opt_sum(vals@), count_some(vals@)),
            sq.raw == sqdev_sum(vals@.subrange(0, i as int), mean),
            sq_in_range(vals@, mean, i as int),
        decreases n - i,
    {
        let ghost gi = i as int;
        proof {
            assert(vals@.subrange(0, i + 1).drop_last() =~= vals@.subrange(0, i as int));
        }
        match vals[i] {
            Some(v) => {
                let d = match mean.try_sub(v) {
                    Some(d) => d,
                    None => {
                        proof {
                            assert(!sq_in_range(vals@, mean, gi + 1));
                            lemma_sq_range_extends(vals@, mean, gi + 1, n as int);
                        }
                        return Err(SolveError::OutOfRange);
                    },
                };
                let dd = match d.try_mul(d) {
                    Some(x) => x,
                    None => {
                        proof {
                            assert(!sq_in_range(vals@, mean, gi + 1));
                            lemma_sq_range_extends(vals@, mean, gi + 1, n as int);
                        }
                        return Err(SolveError::OutOfRange);
                    },
                };
                sq = match sq.try_add(dd) {
                    Some(x) => x,
                    None => {
                        proof {
                            assert(sqdev_sum(vals@.subrange(0, gi + 1), mean) == sq.raw
                                + dd.raw);
                            assert(!sq_in_range(vals@, mean, gi + 1));
                            lemma_sq_range_extends(vals@, mean, gi + 1, n as int);
                        }
                        return Err(SolveError::OutOfRange);
                    },
                };
            },
            None => {
            },
        }
        i = i + 1;
    }
    proof {
        assert(vals@.subrange(0, n as int) =~= vals@);
    }
    let var = match sq.try_div_int(count - 1) {
        Some(v) => v,
        None => {
            return Err(SolveError::OutOfRange);
        },
    };
    Ok((mean, var, Query::Sqrt(var)))
}

/// The scaled variance `(n - 1) * dev^2` of a one-sample variance test:
/// fewer than two observations leave no freedom, and a product out of
/// range is an error.
pub open spec fn spec_chi_err(dev: Fx, n: int) -> Result<Fx, SolveError> {
    if n < 2 {
        Err(SolveError::NotValidChiSquared)
    } else {
        match spec_mul(dev, dev) {
            None => Err(SolveError::OutOfRange),
            Some(dd) => match spec_mul_int(dd, n - 1) {
                Some(v) => Ok(v),
                None => Err(SolveError::OutOfRange),
            },
        }
    }
}

/// The scaled variance `(n - 1) * dev^2` of a one-sample variance test;
/// `Ok` exactly when `n >= 2` and both products stay in range.
pub fn chi_err(dev: Fx, n: usize) -> (r: Result<Fx, SolveError>)
    ensures
        r == spec_chi_err(dev, n as int),
        r matches Ok(v) ==> n >= 2 && v.raw == tdiv(dev.raw * dev.raw, SCALE as int) * (n - 1),
{
    if n < 2 {
        return Err(SolveError::NotValidChiSquared);
    }
    let dd = match dev.try_mul(dev) {
        Some(x) => x,
        None => {
            return Err(SolveError::OutOfRange);
        },
    };
    match dd.try_mul_int(n - 1) {
        Some(v) => Ok(v),
        None => Err(SolveError::OutOfRange),
    }
}

/// The p-value plan of the one-sample variance test: the Chi-squared
/// cumulative query at `err / v^2` against the hypothesized deviation
/// `v`, upper-tailed for an upward hypothesis, doubled two-sidedly with
/// the side chosen by where the observed deviation lies.
pub open spec fn spec_var_one_pvalue_plan(dev: Fx, n: int, hypothesis: Constraint) -> Result<
    (Query, HypKind),
    SolveError,
> {
    match hypothesis {
        Constraint::GreaterEq(v) | Constraint::GreaterThan(v) | Constraint::LessEq(v)
            | Constraint::LessThan(v) | Constraint::NotEqual(v) => {
            match spec_chi_err(dev, n) {
                Err(e) => Err(e),
                Ok(err) => if (n - 1) * (SCALE as int) > i64::MAX {
                    Err(SolveError::NotValidChiSquared)
                } else {
                    let free = Fx { raw: ((n - 1) * (SCALE as int)) as i64 };
                    match spec_mul(v, v) {
                        None => Err(SolveError::OutOfRange),
                        Some(vv) => match spec_div(err, vv) {
                            None => Err(SolveError::OutOfRange),
                            Some(pt) => {
                                let q = Query::Cdf(DistParams::ChiSquare { freedom: free }, pt);
                                match hypothesis {
                                    Constraint::GreaterEq(_) | Constraint::GreaterThan(_) => Ok(
                                        (q, HypKind::OneMinus),
                                    ),
                                    Constraint::LessEq(_) | Constraint::LessThan(_) => Ok(
                                        (q, HypKind::Plain),
                                    ),
                                    _ => Ok(
                                        (
                                            q,
                                            if dev.raw < v.raw {
                                                HypKind::Double
                                            } else {
                                                HypKind::TwoMinusDouble
                                            },
                                        ),
                                    ),
                                }
                            },
                        },
                    }
                },
            }
        },
        _ => Err(SolveError::NotValidHypothesis),
    }
}

/// The p-value plan of the one-sample variance test; see
/// [`spec_var_one_pvalue_plan`]: success is owed exactly when the
/// hypothesis is a comparison, `n >= 2`, the hypothesized deviation is
/// nonzero and every step stays in range.
pub fn var_one_pvalue_plan(dev: Fx, n: usize, hypothesis: &Constraint) -> (r: Result<
    (Query, HypKind),
    SolveError,
>)
    ensures
        r == spec_var_one_pvalue_plan(dev, n as int, *hypothesis),
{
    let v = match hypothesis {
        Constraint::GreaterEq(v) | Constraint::GreaterThan(v) | Constraint::LessEq(v)
            | Constraint::LessThan(v) | Constraint::NotEqual(v) => *v,
        _ => {
            return Err(SolveError::NotValidHypothesis);
        },
    };
    let err = match chi_err(dev, n) {
        Ok(e) => e,
        Err(e) => {
            return Err(e);
        },
    };
    let free = match Fx::from_usize(n - 1) {
        Some(f) => f,
        None => {
            return Err(SolveError::NotValidChiSquared);
        },
    };
    let vv = match v.try_mul(v) {
        Some(x) => x,
        None => {
            return Err(SolveError::OutOfRange);
        },
    };
    let pt = match err.try_div(vv) {
        Some(x) => x,
        None => {
            return Err(SolveError::OutOfRange);
        },
    };
    let q = Query::Cdf(DistParams::ChiSquare { freedom: free }, pt);
    match hypothesis {
        Constraint::GreaterEq(_) | Constraint::GreaterThan(_) => Ok((q, HypKind::OneMinus)),
        Constraint::LessEq(_) | Constraint::LessThan(_) => Ok((q, HypKind::Plain)),
        _ => Ok(
            (
                q,
                if dev.lt(v) {
                    HypKind::Double
                } else {
                    HypKind::TwoMinusDouble
                },
            ),
        ),
    }
}

/// The ratio `dev1^2 / dev2^2` of two sample variances: a zero second
/// deviation or a value out of range is an error.
pub open spec fn spec_var_ratio(dev1: Fx, dev2: Fx) -> Result<Fx, SolveError> {
    match spec_mul(dev1, dev1) {
        None => Err(SolveError::OutOfRange),
        Some(a) => match spec_mul(dev2, dev2) {
            None => Err(SolveError::OutOfRange),
            Some(b) => match spec_div(a, b) {
                Some(v) => Ok(v),
                None => Err(SolveError::OutOfRange),
            },
        },
    }
}

/// The ratio `dev1^2 / dev2^2` of two sample variances; `Ok` exactly when
/// the second deviation is nonzero and every step stays in range.
pub fn var_ratio(dev1: Fx, dev2: Fx) -> (r: Result<Fx, SolveError>)
    ensures
        r == spec_var_ratio(dev1, dev2),
        r matches Ok(v) ==> {
            let a = Fx { raw: tdiv(dev1.raw * dev1.raw, SCALE as int) as i64 };
            let b = Fx { raw: tdiv(dev2.raw * dev2.raw, SCALE as int) as i64 };
            spec_div(a, b) == Some(v)
        },
{
    let a = match dev1.try_mul(dev1) {
        Some(x) => x,
        None => {
            return Err(SolveError::OutOfRange);
        },
    };
    let b = match dev2.try_mul(dev2) {
        Some(x) => x,
        None => {
            return Err(SolveError::OutOfRange);
        },
    };
    match a.try_div(b) {
        Some(v) => Ok(v),
        None => Err(SolveError::OutOfRange),
    }
}

/// The F parameters of a two-sample variance test: one less than each
/// sample size; each size must be at least two and each freedom must be
/// representable.
pub open spec fn spec_fisher_params(n1: int, n2: int) -> Result<DistParams, SolveError> {
    if n1 < 2 || n2 < 2 {
        Err(SolveError::NotValidF)
    } else if (n1 - 1) * (SCALE as int) > i64::MAX {
        Err(SolveError::NotValidF)
    } else if (n2 - 1) * (SCALE as int) > i64::MAX {
        Err(SolveError::NotValidF)
    } else {
        Ok(
            DistParams::Fisher {
                freedom1: Fx { raw: ((n1 - 1) * (SCALE as int)) as i64 },
                freedom2: Fx { raw: ((n2 - 1) * (SCALE as int)) as i64 },
            },
        )
    }
}

/// The F parameters of a two-sample variance test: one less than each
/// sample size; `Ok` exactly when both sizes are at least two and both
/// freedoms are representable.
pub fn fisher_params(n1: usize, n2: usize) -> (r: Result<DistParams, SolveError>)
    ensures
        r == spec_fisher_params(n1 as int, n2 as int),
        r matches Ok(p) ==> n1 >= 2 && n2 >= 2 && (p matches DistParams::Fisher {
            freedom1,
            freedom2,
        } && freedom1.raw == (n1 - 1) * (SCALE as int) && freedom2.raw == (n2 - 1) * (
        SCALE as int)),
{
    if n1 < 2 || n2 < 2 {
        return Err(SolveError::NotValidF);
    }
    let f1 = match Fx::from_usize(n1 - 1) {
        Some(f) => f,
        None => {
            return Err(SolveError::NotValidF);
        },
    };
    let f2 = match Fx::from_usize(n2 - 1) {
        Some(f) => f,
        None => {
            return Err(SolveError::NotValidF);
        },
    };
    Ok(DistParams::Fisher { freedom1: f1, freedom2: f2 })
}

/// The p-value plan of the two-sample variance test: the F cumulative
/// query at `(dev1^2/dev2^2) / v^2` against the hypothesized deviation
/// ratio `v`, upper-tailed for an upward hypothesis, doubled two-sidedly
/// with the side chosen by where the observed ratio lies.
pub open spec fn spec_var_two_pvalue_plan(
    dev1: Fx,
    n1: int,
    dev2: Fx,
    n2: int,
    hypothesis: Constraint,
) -> Result<(Query, HypKind), SolveError> {
    match hypothesis {
        Constraint::GreaterEq(v) | Constraint::GreaterThan(v) | Constraint::LessEq(v)
            | Constraint::LessThan(v) | Constraint::NotEqual(v) => {
            match spec_fisher_params(n1, n2) {
                Err(e) => Err(e),
                Ok(params) => match spec_var_ratio(dev1, dev2) {
                    Err(e) => Err(e),
                    Ok(err) => match spec_mul(v, v) {
                        None => Err(SolveError::OutOfRange),
                        Some(vv) => match spec_div(err, vv) {
                            None => Err(SolveError::OutOfRange),
                            Some(pt) => {
                                let q = Query::Cdf(params, pt);
                                match hypothesis {
                                    Constraint::GreaterEq(_) | Constraint::GreaterThan(_) => Ok(
                                        (q, HypKind::OneMinus),
                                    ),
                                    Constraint::LessEq(_) | Constraint::LessThan(_) => Ok(
                                        (q, HypKind::Plain),
                                    ),
                                    _ => match spec_div(dev1, dev2) {
                                        None => Err(SolveError::OutOfRange),
                                        Some(ratio) => Ok(
                                            (
                                                q,
                                                if ratio.raw < v.raw {
                                                    HypKind::Double
                                                } else {
                                                    HypKind::TwoMinusDouble
                                                },
                                            ),
                                        ),
                                    },
                                }
                            },
                        },
                    },
                },
            }
        },
        _ => Err(SolveError::NotValidHypothesis),
    }
}

/// The p-value plan of the two-sample variance test; see
/// [`spec_var_two_pvalue_plan`]: success is owed exactly when the
/// hypothesis is a comparison, both sizes are at least two, the divisors
/// are nonzero and every step stays in range.
pub fn var_two_pvalue_plan(
    dev1: Fx,
    n1: usize,
    dev2: Fx,
    n2: usize,
    hypothesis: &Constraint,
) -> (r: Result<(Query, HypKind), SolveError>)
    ensures
        r == spec_var_two_pvalue_plan(dev1, n1 as int, dev2, n2 as int, *hypothesis),
{
    let v = match hypothesis {
        Constraint::GreaterEq(v) | Constraint::GreaterThan(v) | Constraint::LessEq(v)
            | Constraint::LessThan(v) | Constraint::NotEqual(v) => *v,
        _ => {
            return Err(SolveError::NotValidHypothesis);
        },
    };
    let params = match fisher_params(n1, n2) {
        Ok(p) => p,
        Err(e) => {
            return Err(e);
        },
    };
    let err = match var_ratio(dev1, dev2) {
        Ok(e) => e,
        Err(e) => {
            return Err(e);
        },
    };
    let vv = match v.try_mul(v) {
        Some(x) => x,
        None => {
            return Err(SolveError::OutOfRange);
        },
    };
    let pt = match err.try_div(vv) {
        Some(x) => x,
        None => {
            return Err(SolveError::OutOfRange);
        },
    };
    let q = Query::Cdf(params, pt);
    match hypothesis {
        Constraint::GreaterEq(_) | Constraint::GreaterThan(_) => Ok((q, HypKind::OneMinus)),
        Constraint::LessEq(_) | Constraint::LessThan(_) => Ok((q, HypKind::Plain)),
        _ => {
            let ratio = match dev1.try_div(dev2) {
                Some(r) => r,
                None => {
                    return Err(SolveError::OutOfRange);
                },
            };
            Ok(
                (
                    q,
                    if ratio.lt(v) {
                        HypKind::Double
                    } else {
                        HypKind::TwoMinusDouble
                    },
                ),
            )
        },
    }
}

/// The variance interval endpoints from the two answered quantiles: the
/// scaled variance (or variance ratio) over the upper quantile, then over
/// the lower. The deviation interval is the square roots of these, asked
/// for separately.
pub fn ratio_bounds(err: Fx, lo: Option<Fx>, hi: Option<Fx>, invalid: SolveError) -> (r: Result<
    (Fx, Fx),
    SolveError,
>)
    ensures
        r == (match (lo, hi) {
            (Some(l), Some(h)) => match (spec_div(err, h), spec_div(err, l)) {
                (Some(a), Some(b)) => Ok::<(Fx, Fx), SolveError>((a, b)),
                _ => Err::<(Fx, Fx), SolveError>(SolveError::OutOfRange),
            },
            _ => Err::<(Fx, Fx), SolveError>(invalid),
        }),
        (match (lo, hi) {
            (Some(l), Some(h)) => err.raw >= 0 && 0 < l.raw <= h.raw,
            _ => false,
        }) ==> (r matches Ok(b) ==> 0 <= b.0.raw <= b.1.raw),
{
    let (l, h) = match (lo, hi) {
        (Some(l), Some(h)) => (l, h),
        _ => {
            return Err(invalid);
        },
    };
    let out = match (err.try_div(h), err.try_div(l)) {
        (Some(a), Some(b)) => Ok((a, b)),
        _ => Err(SolveError::OutOfRange),
    };
    proof {
        if err.raw >= 0 && 0 < l.raw <= h.raw {
            vstd::arithmetic::div_mod::lemma_div_pos_is_pos(err.raw * (SCALE as int), h.raw as int);
            vstd::arithmetic::div_mod::lemma_div_pos_is_pos(err.raw * (SCALE as int), l.raw as int);
            vstd::arithmetic::div_mod::lemma_div_is_ordered_by_denominator(
                err.raw * (SCALE as int),
                l.raw as int,
                h.raw as int,
            );
        }
    }
    out
}

/// The finite-population correction `(pop - n) / (pop - 1)`: it needs at
/// least two in the population, a sample no larger than it, and both
/// counts representable.
pub open spec fn spec_finite_correction(pop: int, n: int) -> Result<Fx, SolveError> {
    if pop < 2 || n > pop {
        Err(SolveError::OutOfRange)
    } else if (pop - n) * (SCALE as int) > i64::MAX {
        Err(SolveError::OutOfRange)
    } else if (pop - 1) * (SCALE as int) > i64::MAX {
        Err(SolveError::OutOfRange)
    } else {
        match spec_div(
            Fx { raw: ((pop - n) * (SCALE as int)) as i64 },
            Fx { raw: ((pop - 1) * (SCALE as int)) as i64 },
        ) {
            Some(v) => Ok(v),
            None => Err(SolveError::OutOfRange),
        }
    }
}

/// The finite-population correction `(pop - n) / (pop - 1)`; `Ok` exactly
/// when the counts are representable and `2 <= pop`, `n <= pop`.
pub fn finite_correction(pop: usize, n: usize) -> (r: Result<Fx, SolveError>)
    ensures
        r == spec_finite_correction(pop as int, n as int),
        r matches Ok(v) ==> pop >= 2 && n <= pop && v.raw == tdiv(
            ((pop - n) as int) * (SCALE as int) * (SCALE as int),
            ((pop - 1) as int) * (SCALE as int),
        ),
{
    if pop < 2 || n > pop {
        return Err(SolveError::OutOfRange);
    }
    let num = match Fx::from_usize(pop - n) {
        Some(x) => x,
        None => {
            return Err(SolveError::OutOfRange);
        },
    };
    let den = match Fx::from_usize(pop - 1) {
        Some(x) => x,
        None => {
            return Err(SolveError::OutOfRange);
        },
    };
    match num.try_div(den) {
        Some(v) => Ok(v),
        None => Err(SolveError::OutOfRange),
    }
}

/// The squared deviation of the mean of a sample from a finite
/// population, `dev^2 * correction / n`: a zero size or a value out of
/// range is the error.
pub open spec fn spec_finite_sample_var(dev: Fx, correction: Fx, n: int) -> Result<
    Fx,
    SolveError,
> {
    match spec_mul(dev, dev) {
        None => Err(SolveError::OutOfRange),
        Some(dd) => match spec_mul(dd, correction) {
            None => Err(SolveError::OutOfRange),
            Some(m) => match spec_div_int(m, n) {
                Some(v) => Ok(v),
                None => Err(SolveError::OutOfRange),
            },
        },
    }
}

/// The squared deviation of the mean of a sample from a finite
/// population: `dev^2 * correction / n`; `Ok` exactly when the size is
/// nonzero and every step stays in range. Its square root is the sample
/// deviation, asked for separately.
pub fn finite_sample_var(dev: Fx, correction: Fx, n: usize) -> (r: Result<Fx, SolveError>)
    ensures
        r == spec_finite_sample_var(dev, correction, n as int),
{
    let dd = match dev.try_mul(dev) {
        Some(x) => x,
        None => {
            return Err(SolveError::OutOfRange);
        },
    };
    let m = match dd.try_mul(correction) {
        Some(x) => x,
        None => {
            return Err(SolveError::OutOfRange);
        },
    };
    match m.try_div_int(n) {
        Some(v) => Ok(v),
        None => Err(SolveError::OutOfRange),
    }
}

} // verus!
