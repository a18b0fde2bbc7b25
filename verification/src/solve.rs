//! The per-family solvers.
//!
//! A solve fills exactly one unknown slot of a descriptor, or reports why
//! it cannot. Each family's `fill_start` classifies the slots: too few
//! known is [`SolveError::NotEnoughFilled`]; all known is already solved;
//! otherwise it checks the algebraic preconditions of the one missing slot
//! and either fails or hands back a [`Query`] with a pending state. The
//! caller evaluates the query and resumes the pending state with the
//! answer, possibly receiving further queries (the degrees-of-freedom
//! search drives the bisection machine of [`crate::root`]), until the
//! filled descriptor or an error comes back. Every step of that loop is
//! verified for every possible answer; only the numeric evaluation itself
//! is the caller's.
//!
//! Arithmetic here is exact. Where a computed value leaves the
//! representable fixed-point range, the solve reports
//! [`SolveError::OutOfRange`] (or the domain error of the value it was
//! deriving), rather than wrapping.

use vstd::prelude::*;

use crate::dist::ChiSquare;
use crate::dist::DistParams;
use crate::dist::FDist;
use crate::dist::Normal;
use crate::dist::Query;
use crate::dist::TDist;
use crate::constraint::Constraint;
use crate::error::SolveError;
use crate::fixed::spec_add;
use crate::fixed::spec_div;
use crate::fixed::spec_mul;
use crate::fixed::spec_neg;
use crate::fixed::spec_sub;
use crate::fixed::Fx;

verus! {

/// One, as a number.
pub open spec fn fx_one() -> Fx {
    Fx { raw: 1000000 }
}

/// How many of the given slots hold a known value.
pub open spec fn count2(a: Constraint, b: Constraint) -> int {
    (if a.spec_has_value() {
        1int
    } else {
        0int
    }) + (if b.spec_has_value() {
        1int
    } else {
        0int
    })
}

impl Normal {
    /// How many of the four slots hold a known value.
    pub open spec fn known_count(self) -> int {
        count2(self.mean, self.sd) + count2(self.xval, self.pval)
    }
}

impl ChiSquare {
    /// How many of the three slots hold a known value.
    pub open spec fn known_count(self) -> int {
        count2(self.freedom, self.xval) + count2(self.pval, Constraint::Unset)
    }
}

impl TDist {
    /// How many of the five slots hold a known value.
    pub open spec fn known_count(self) -> int {
        count2(self.location, self.scale) + count2(self.freedom, self.xval) + count2(
            self.pval,
            Constraint::Unset,
        )
    }
}

impl FDist {
    /// How many of the four slots hold a known value.
    pub open spec fn known_count(self) -> int {
        count2(self.freedom1, self.freedom2) + count2(self.xval, self.pval)
    }
}

/// The solve-for-x plan: the quantile query to run, and whether the slot's
/// sentinel pointed upward (a `>=`-shaped answer) or downward.
pub open spec fn spec_x_plan(
    params: Option<DistParams>,
    xval: Constraint,
    pval: Constraint,
    eq_err: SolveError,
    range_err: SolveError,
) -> Result<(Query, bool), SolveError> {
    match pval {
        Constraint::Equal(p) => match xval {
            Constraint::GreaterEqUnknown | Constraint::GreaterThanUnknown => {
                match spec_sub(fx_one(), p) {
                    Some(q) => match params {
                        Some(pp) => Ok((Query::InverseCdf(pp, q), true)),
                        None => Err(SolveError::InvalidProbability),
                    },
                    None => Err(SolveError::OutOfRange),
                }
            },
            Constraint::LessEqUnknown | Constraint::LessThanUnknown => {
                match params {
                    Some(pp) => Ok((Query::InverseCdf(pp, p), false)),
                    None => Err(SolveError::InvalidProbability),
                }
            },
            _ => if xval.spec_is_eq() {
                Err(eq_err)
            } else {
                Err(range_err)
            },
        },
        _ => Err(SolveError::ProbabilityNotSet),
    }
}

fn x_plan(
    params: Option<DistParams>,
    xval: &Constraint,
    pval: &Constraint,
    eq_err: SolveError,
    range_err: SolveError,
) -> (r: Result<(Query, bool), SolveError>)
    ensures
        r == spec_x_plan(params, *xval, *pval, eq_err, range_err),
{
    let p = match pval {
        Constraint::Equal(p) => *p,
        _ => {
            return Err(SolveError::ProbabilityNotSet);
        },
    };
    match xval {
        Constraint::GreaterEqUnknown | Constraint::GreaterThanUnknown => {
            match Fx::one().try_sub(p) {
                Some(q) => match params {
                    Some(pp) => Ok((Query::InverseCdf(pp, q), true)),
                    None => Err(SolveError::InvalidProbability),
                },
                None => Err(SolveError::OutOfRange),
            }
        },
        Constraint::LessEqUnknown | Constraint::LessThanUnknown => {
            match params {
                Some(pp) => Ok((Query::InverseCdf(pp, p), false)),
                None => Err(SolveError::InvalidProbability),
            }
        },
        _ => {
            if xval.is_eq() {
                Err(eq_err)
            } else {
                Err(range_err)
            }
        },
    }
}

/// What remains of a solve-for-probability after its first answer.
#[derive(Clone, Copy, PartialEq, Eq, Structural, Debug)]
pub enum PPending {
    /// One cumulative value, used as it is (`flip` false) or as its
    /// complement (`flip` true).
    One { flip: bool },
    /// A range: the value at the upper bound is awaited; the one at `a`
    /// comes next.
    RangeFirst { a: Fx, outside: bool, params: DistParams },
    /// A range: the value at the lower bound is awaited; `cb` is the value
    /// at the upper bound.
    RangeSecond { cb: Fx, outside: bool },
}

/// The solve-for-probability plan: the first cumulative query and what to
/// do with its answer.
pub open spec fn spec_p_plan(
    params: Option<DistParams>,
    xval: Constraint,
    not_ineq_err: SolveError,
) -> Result<(Query, PPending), SolveError> {
    match params {
        Some(pp) => match xval {
            Constraint::GreaterEq(x) | Constraint::GreaterThan(x) => Ok(
                (Query::Cdf(pp, x), PPending::One { flip: true }),
            ),
            Constraint::LessEq(x) | Constraint::LessThan(x) => Ok(
                (Query::Cdf(pp, x), PPending::One { flip: false }),
            ),
            Constraint::Between(a, b) => Ok(
                (Query::Cdf(pp, b), PPending::RangeFirst { a, outside: false, params: pp }),
            ),
            Constraint::Outside(a, b) => Ok(
                (Query::Cdf(pp, b), PPending::RangeFirst { a, outside: true, params: pp }),
            ),
            _ => Err(not_ineq_err),
        },
        None => match xval {
            Constraint::GreaterEq(_) | Constraint::GreaterThan(_) | Constraint::LessEq(_)
                | Constraint::LessThan(_) | Constraint::Between(_, _) | Constraint::Outside(
                _,
                _,
            ) => Err(SolveError::InvalidXValue),
            _ => Err(not_ineq_err),
        },
    }
}

fn p_plan(params: Option<DistParams>, xval: &Constraint, not_ineq_err: SolveError) -> (r: Result<
    (Query, PPending),
    SolveError,
>)
    ensures
        r == spec_p_plan(params, *xval, not_ineq_err),
{
    match xval {
        Constraint::GreaterEq(x) | Constraint::GreaterThan(x) => match params {
            Some(pp) => Ok((Query::Cdf(pp, *x), PPending::One { flip: true })),
            None => Err(SolveError::InvalidXValue),
        },
        Constraint::LessEq(x) | Constraint::LessThan(x) => match params {
            Some(pp) => Ok((Query::Cdf(pp, *x), PPending::One { flip: false })),
            None => Err(SolveError::InvalidXValue),
        },
        Constraint::Between(a, b) => match params {
            Some(pp) => Ok(
                (Query::Cdf(pp, *b), PPending::RangeFirst { a: *a, outside: false, params: pp }),
            ),
            None => Err(SolveError::InvalidXValue),
        },
        Constraint::Outside(a, b) => match params {
            Some(pp) => Ok(
                (Query::Cdf(pp, *b), PPending::RangeFirst { a: *a, outside: true, params: pp }),
            ),
            None => Err(SolveError::InvalidXValue),
        },
        _ => Err(not_ineq_err),
    }
}

/// The outcome of resuming a probability solve: the finished probability,
/// or one more query.
pub enum PResume {
    Value(Fx),
    Next(Query, PPending),
}

/// What resuming a probability solve with `answer` yields: the finished
/// probability (the complement, the difference of the two range values, or
/// one plus the difference for an outside range), one further query, or
/// the error for an undefined or unrepresentable value.
pub open spec fn spec_p_resume(pend: PPending, answer: Option<Fx>) -> Result<
    PResume,
    SolveError,
> {
    match answer {
        None => Err(SolveError::InvalidXValue),
        Some(c) => match pend {
            PPending::One { flip } => if flip {
                match spec_sub(fx_one(), c) {
                    Some(v) => Ok(PResume::Value(v)),
                    None => Err(SolveError::OutOfRange),
                }
            } else {
                Ok(PResume::Value(c))
            },
            PPending::RangeFirst { a, outside, params } => Ok(
                PResume::Next(Query::Cdf(params, a), PPending::RangeSecond { cb: c, outside }),
            ),
            PPending::RangeSecond { cb, outside } => if outside {
                match spec_sub(fx_one(), cb) {
                    Some(t) => match spec_add(t, c) {
                        Some(v) => Ok(PResume::Value(v)),
                        None => Err(SolveError::OutOfRange),
                    },
                    None => Err(SolveError::OutOfRange),
                }
            } else {
                match spec_sub(cb, c) {
                    Some(v) => Ok(PResume::Value(v)),
                    None => Err(SolveError::OutOfRange),
                }
            },
        },
    }
}

/// The standard normal parameters used for closed-form location and scale
/// solving.
pub open spec fn std_normal() -> DistParams {
    DistParams::Normal { mean: Fx { raw: 0 }, sd: fx_one() }
}

/// One half, the median probability.
pub open spec fn fx_half() -> Fx {
    Fx { raw: 500000 }
}

/// A step of a Normal solve: the filled bundle, or a query with what to do
/// with its answer.
pub enum NormalStep {
    Done(Normal),
    Query(Query, NormalPending),
}

/// A Normal solve awaiting one answer.
pub enum NormalPending {
    /// Awaiting the quantile that becomes the x slot.
    X { bundle: Normal, ge: bool },
    /// Awaiting a cumulative value for the probability slot.
    P { bundle: Normal, pend: PPending },
    /// Awaiting the standard-normal quantile; the mean becomes
    /// `x - sd * quantile`.
    Mean { bundle: Normal, x: Fx },
    /// Awaiting the standard-normal quantile; the deviation becomes
    /// `(x - mean) / quantile`, with its sign checks.
    Sd { bundle: Normal, x: Fx },
}

/// The direction-resolved x and probability for closed-form solving: the
/// Normal family keeps x and complements the probability on an upward
/// inequality.
pub open spec fn spec_normal_side(xval: Constraint, p: Fx) -> Result<(Fx, Option<Fx>), SolveError> {
    match xval {
        Constraint::GreaterEq(x) | Constraint::GreaterThan(x) => Ok((x, spec_sub(fx_one(), p))),
        Constraint::LessEq(x) | Constraint::LessThan(x) => Ok((x, Some(p))),
        _ => if xval.spec_is_range() {
            Err(SolveError::RangeOnLocation)
        } else {
            Err(SolveError::ExactOnContinuous)
        },
    }
}

impl Normal {
    /// Begins a solve: rejects too few known slots, finishes a full bundle
    /// unchanged, and otherwise validates the one missing slot and asks
    /// for the numeric evaluation it needs.
    pub open spec fn spec_fill_start(self) -> Result<NormalStep, SolveError> {
        if self.known_count() <= 2 {
            Err(SolveError::NotEnoughFilled)
        } else if self.known_count() == 4 {
            Ok(NormalStep::Done(self))
        } else if !self.xval.spec_has_value() {
            match spec_x_plan(
                self.spec_params(),
                self.xval,
                self.pval,
                SolveError::ExactOnContinuous,
                SolveError::RangeOnX,
            ) {
                Ok((q, ge)) => Ok(NormalStep::Query(q, NormalPending::X { bundle: self, ge })),
                Err(e) => Err(e),
            }
        } else if !self.pval.spec_has_value() {
            match spec_p_plan(self.spec_params(), self.xval, SolveError::ExactOnContinuous) {
                Ok((q, pend)) => Ok(
                    NormalStep::Query(q, NormalPending::P { bundle: self, pend }),
                ),
                Err(e) => Err(e),
            }
        } else {
            match self.pval {
                Constraint::Equal(p) => match spec_normal_side(self.xval, p) {
                    Err(e) => Err(e),
                    Ok((x, q)) => match q {
                        None => Err(SolveError::OutOfRange),
                        Some(pq) => if !self.mean.spec_has_value() {
                            Ok(
                                NormalStep::Query(
                                    Query::InverseCdf(std_normal(), pq),
                                    NormalPending::Mean { bundle: self, x },
                                ),
                            )
                        } else if p == fx_half() {
                            Err(SolveError::AmbiguousAtMedian)
                        } else {
                            Ok(
                                NormalStep::Query(
                                    Query::InverseCdf(std_normal(), pq),
                                    NormalPending::Sd { bundle: self, x },
                                ),
                            )
                        },
                    },
                },
                _ => Err(SolveError::ProbabilityNotSet),
            }
        }
    }

    /// Begins a solve; see [`Normal::spec_fill_start`].
    pub fn fill_start(&self) -> (r: Result<NormalStep, SolveError>)
        ensures
            r == self.spec_fill_start(),
    {
        let filled = (if self.mean.has_value() {
            1usize
        } else {
            0usize
        }) + (if self.sd.has_value() {
            1
        } else {
            0
        }) + (if self.xval.has_value() {
            1
        } else {
            0
        }) + (if self.pval.has_value() {
            1
        } else {
            0
        });
        if filled <= 2 {
            return Err(SolveError::NotEnoughFilled);
        }
        if filled == 4 {
            return Ok(NormalStep::Done(*self));
        }
        if !self.xval.has_value() {
            return match x_plan(
                self.params(),
                &self.xval,
                &self.pval,
                SolveError::ExactOnContinuous,
                SolveError::RangeOnX,
            ) {
                Ok((q, ge)) => Ok(NormalStep::Query(q, NormalPending::X { bundle: *self, ge })),
                Err(e) => Err(e),
            };
        }
        if !self.pval.has_value() {
            return match p_plan(self.params(), &self.xval, SolveError::ExactOnContinuous) {
                Ok((q, pend)) => Ok(
                    NormalStep::Query(q, NormalPending::P { bundle: *self, pend }),
                ),
                Err(e) => Err(e),
            };
        }
        let p = match self.pval {
            Constraint::Equal(p) => p,
            _ => {
                return Err(SolveError::ProbabilityNotSet);
            },
        };
        let (x, pq) = match self.xval {
            Constraint::GreaterEq(x) | Constraint::GreaterThan(x) => match Fx::one().try_sub(p) {
                Some(q) => (x, q),
                None => {
                    return Err(SolveError::OutOfRange);
                },
            },
            Constraint::LessEq(x) | Constraint::LessThan(x) => (x, p),
            _ => {
                if self.xval.is_range() {
                    return Err(SolveError::RangeOnLocation);
                } else {
                    return Err(SolveError::ExactOnContinuous);
                }
            },
        };
        let snd = DistParams::Normal { mean: Fx::zero(), sd: Fx::one() };
        if !self.mean.has_value() {
            Ok(
                NormalStep::Query(
                    Query::InverseCdf(snd, pq),
                    NormalPending::Mean { bundle: *self, x },
                ),
            )
        } else if p == Fx::from_raw(500000) {
            Err(SolveError::AmbiguousAtMedian)
        } else {
            Ok(
                NormalStep::Query(
                    Query::InverseCdf(snd, pq),
                    NormalPending::Sd { bundle: *self, x },
                ),
            )
        }
    }
}

impl NormalPending {
    /// Resumes with the awaited value: fills the slot or asks for the next
    /// value; `None` answers and unrepresentable results are errors.
    pub open spec fn spec_resume(self, answer: Option<Fx>) -> Result<NormalStep, SolveError> {
        match self {
            NormalPending::X { bundle, ge } => match answer {
                Some(v) => Ok(
                    NormalStep::Done(
                        Normal {
                            mean: bundle.mean,
                            sd: bundle.sd,
                            xval: if ge {
                                Constraint::GreaterEq(v)
                            } else {
                                Constraint::LessEq(v)
                            },
                            pval: bundle.pval,
                        },
                    ),
                ),
                None => Err(SolveError::InvalidProbability),
            },
            NormalPending::P { bundle, pend } => match spec_p_resume(pend, answer) {
                Ok(PResume::Value(v)) => Ok(
                    NormalStep::Done(
                        Normal {
                            mean: bundle.mean,
                            sd: bundle.sd,
                            xval: bundle.xval,
                            pval: Constraint::Equal(v),
                        },
                    ),
                ),
                Ok(PResume::Next(q, p2)) => Ok(
                    NormalStep::Query(q, NormalPending::P { bundle, pend: p2 }),
                ),
                Err(e) => Err(e),
            },
            NormalPending::Mean { bundle, x } => match answer {
                None => Err(SolveError::InvalidProbability),
                Some(inv) => match bundle.sd.spec_as_value() {
                    None => Err(SolveError::ScaleNotSet),
                    Some(sd) => match spec_mul(sd, inv) {
                        None => Err(SolveError::OutOfRange),
                        Some(m) => match spec_sub(x, m) {
                            None => Err(SolveError::OutOfRange),
                            Some(v) => Ok(
                                NormalStep::Done(
                                    Normal {
                                        mean: Constraint::Equal(v),
                                        sd: bundle.sd,
                                        xval: bundle.xval,
                                        pval: bundle.pval,
                                    },
                                ),
                            ),
                        },
                    },
                },
            },
            NormalPending::Sd { bundle, x } => match answer {
                None => Err(SolveError::InvalidProbability),
                Some(inv) => if inv.raw == 0 {
                    Err(SolveError::AmbiguousAtMedian)
                } else {
                    match bundle.mean.spec_as_value() {
                        None => Err(SolveError::MeanNotSet),
                        Some(m) => match spec_sub(x, m) {
                            None => Err(SolveError::OutOfRange),
                            Some(d) => match spec_div(d, inv) {
                                None => Err(SolveError::OutOfRange),
                                Some(fill) => if fill.raw < 0 {
                                    if inv.raw > 0 {
                                        Err(SolveError::ProbHighXLowMean)
                                    } else {
                                        Err(SolveError::ProbLowXHighMean)
                                    }
                                } else if fill.raw == 0 {
                                    Err(SolveError::MeanEqualsX)
                                } else {
                                    Ok(
                                        NormalStep::Done(
                                            Normal {
                                                mean: bundle.mean,
                                                sd: Constraint::Equal(fill),
                                                xval: bundle.xval,
                                                pval: bundle.pval,
                                            },
                                        ),
                                    )
                                },
                            },
                        },
                    }
                },
            },
        }
    }

    /// Resumes with the awaited value; see [`NormalPending::spec_resume`].
    pub fn resume(self, answer: Option<Fx>) -> (r: Result<NormalStep, SolveError>)
        ensures
            r == self.spec_resume(answer),
    {
        match self {
            NormalPending::X { bundle, ge } => match answer {
                Some(v) => Ok(
                    NormalStep::Done(
                        Normal {
                            mean: bundle.mean,
                            sd: bundle.sd,
                            xval: if ge {
                                Constraint::GreaterEq(v)
                            } else {
                                Constraint::LessEq(v)
                            },
                            pval: bundle.pval,
                        },
                    ),
                ),
                None => Err(SolveError::InvalidProbability),
            },
            NormalPending::P { bundle, pend } => match p_resume(pend, answer) {
                Ok(PResume::Value(v)) => Ok(
                    NormalStep::Done(
                        Normal {
                            mean: bundle.mean,
                            sd: bundle.sd,
                            xval: bundle.xval,
                            pval: Constraint::Equal(v),
                        },
                    ),
                ),
                Ok(PResume::Next(q, p2)) => Ok(
                    NormalStep::Query(q, NormalPending::P { bundle, pend: p2 }),
                ),
                Err(e) => Err(e),
            },
            NormalPending::Mean { bundle, x } => {
                let inv = match answer {
                    Some(inv) => inv,
                    None => {
                        return Err(SolveError::InvalidProbability);
                    },
                };
                let sd = match bundle.sd.as_value() {
                    Some(sd) => sd,
                    None => {
                        return Err(SolveError::ScaleNotSet);
                    },
                };
                let m = match sd.try_mul(inv) {
                    Some(m) => m,
                    None => {
                        return Err(SolveError::OutOfRange);
                    },
                };
                match x.try_sub(m) {
                    Some(v) => Ok(
                        NormalStep::Done(
                            Normal {
                                mean: Constraint::Equal(v),
                                sd: bundle.sd,
                                xval: bundle.xval,
                                pval: bundle.pval,
                            },
                        ),
                    ),
                    None => Err(SolveError::OutOfRange),
                }
            },
            NormalPending::Sd { bundle, x } => {
                let inv = match answer {
                    Some(inv) => inv,
                    None => {
                        return Err(SolveError::InvalidProbability);
                    },
                };
                if inv.is_zero() {
                    return Err(SolveError::AmbiguousAtMedian);
                }
                let m = match bundle.mean.as_value() {
                    Some(m) => m,
                    None => {
                        return Err(SolveError::MeanNotSet);
                    },
                };
                let d = match x.try_sub(m) {
                    Some(d) => d,
                    None => {
                        return Err(SolveError::OutOfRange);
                    },
                };
                let fill = match d.try_div(inv) {
                    Some(f) => f,
                    None => {
                        return Err(SolveError::OutOfRange);
                    },
                };
                if fill.is_neg() {
                    if inv.is_pos() {
                        Err(SolveError::ProbHighXLowMean)
                    } else {
                        Err(SolveError::ProbLowXHighMean)
                    }
                } else if fill.is_zero() {
                    Err(SolveError::MeanEqualsX)
                } else {
                    Ok(
                        NormalStep::Done(
                            Normal {
                                mean: bundle.mean,
                                sd: Constraint::Equal(fill),
                                xval: bundle.xval,
                                pval: bundle.pval,
                            },
                        ),
                    )
                }
            },
        }
    }
}

/// Solving the deviation of a Normal at the median probability always
/// fails as ambiguous: with the probability exactly one half and a
/// one-sided x, the solve is rejected before any evaluation is asked for.
pub proof fn lemma_normal_median_ambiguous(n: Normal)
    requires
        n.mean.spec_has_value(),
        n.xval.spec_has_value(),
        !n.sd.spec_has_value(),
        n.pval == Constraint::Equal(fx_half()),
        matches!(
            n.xval,
            Constraint::GreaterEq(_)
                | Constraint::GreaterThan(_)
                | Constraint::LessEq(_)
                | Constraint::LessThan(_)
        ),
    ensures
        n.spec_fill_start() == Result::<NormalStep, SolveError>::Err(
            SolveError::AmbiguousAtMedian,
        ),
{
    assert(n.known_count() == 3);
}

impl FDist {
    /// Begins a solve. The F family solves only its x value or its
    /// probability; a missing degrees-of-freedom slot is reported as
    /// unsolvable.
    pub open spec fn spec_fill_start(self) -> Result<FStep, SolveError> {
        if self.known_count() <= 2 {
            Err(SolveError::NotEnoughFilled)
        } else if self.known_count() == 4 {
            Ok(FStep::Done(self))
        } else if !self.xval.spec_has_value() {
            match spec_x_plan(
                self.spec_params(),
                self.xval,
                self.pval,
                SolveError::EqualOnX,
                SolveError::EqualOnX,
            ) {
                Ok((q, ge)) => Ok(FStep::Query(q, FPending::X { bundle: self, ge })),
                Err(e) => Err(e),
            }
        } else if !self.pval.spec_has_value() {
            match spec_p_plan(self.spec_params(), self.xval, SolveError::XNotInequality) {
                Ok((q, pend)) => Ok(FStep::Query(q, FPending::P { bundle: self, pend })),
                Err(e) => Err(e),
            }
        } else {
            Err(SolveError::FreedomNotSolvable)
        }
    }

    /// Begins a solve; see [`FDist::spec_fill_start`].
    pub fn fill_start(&self) -> (r: Result<FStep, SolveError>)
        ensures
            r == self.spec_fill_start(),
    {
        let filled = (if self.freedom1.has_value() {
            1usize
        } else {
            0usize
        }) + (if self.freedom2.has_value() {
            1
        } else {
            0
        }) + (if self.xval.has_value() {
            1
        } else {
            0
        }) + (if self.pval.has_value() {
            1
        } else {
            0
        });
        if filled <= 2 {
            return Err(SolveError::NotEnoughFilled);
        }
        if filled == 4 {
            return Ok(FStep::Done(*self));
        }
        if !self.xval.has_value() {
            return match x_plan(
                self.params(),
                &self.xval,
                &self.pval,
                SolveError::EqualOnX,
                SolveError::EqualOnX,
            ) {
                Ok((q, ge)) => Ok(FStep::Query(q, FPending::X { bundle: *self, ge })),
                Err(e) => Err(e),
            };
        }
        if !self.pval.has_value() {
            return match p_plan(self.params(), &self.xval, SolveError::XNotInequality) {
                Ok((q, pend)) => Ok(FStep::Query(q, FPending::P { bundle: *self, pend })),
                Err(e) => Err(e),
            };
        }
        Err(SolveError::FreedomNotSolvable)
    }
}

/// A step of an F solve.
pub enum FStep {
    Done(FDist),
    Query(Query, FPending),
}

/// An F solve awaiting one answer.
pub enum FPending {
    X { bundle: FDist, ge: bool },
    P { bundle: FDist, pend: PPending },
}

impl FPending {
    /// Resumes with the awaited value, as in [`NormalPending::spec_resume`].
    pub open spec fn spec_resume(self, answer: Option<Fx>) -> Result<FStep, SolveError> {
        match self {
            FPending::X { bundle, ge } => match answer {
                Some(v) => Ok(
                    FStep::Done(
                        FDist {
                            freedom1: bundle.freedom1,
                            freedom2: bundle.freedom2,
                            xval: if ge {
                                Constraint::GreaterEq(v)
                            } else {
                                Constraint::LessEq(v)
                            },
                            pval: bundle.pval,
                        },
                    ),
                ),
                None => Err(SolveError::InvalidProbability),
            },
            FPending::P { bundle, pend } => match spec_p_resume(pend, answer) {
                Ok(PResume::Value(v)) => Ok(
                    FStep::Done(
                        FDist {
                            freedom1: bundle.freedom1,
                            freedom2: bundle.freedom2,
                            xval: bundle.xval,
                            pval: Constraint::Equal(v),
                        },
                    ),
                ),
                Ok(PResume::Next(q, p2)) => Ok(FStep::Query(q, FPending::P { bundle, pend: p2 })),
                Err(e) => Err(e),
            },
        }
    }

    /// Resumes with the awaited value; see [`FPending::spec_resume`].
    pub fn resume(self, answer: Option<Fx>) -> (r: Result<FStep, SolveError>)
        ensures
            r == self.spec_resume(answer),
    {
        match self {
            FPending::X { bundle, ge } => match answer {
                Some(v) => Ok(
                    FStep::Done(
                        FDist {
                            freedom1: bundle.freedom1,
                            freedom2: bundle.freedom2,
                            xval: if ge {
                                Constraint::GreaterEq(v)
                            } else {
                                Constraint::LessEq(v)
                            },
                            pval: bundle.pval,
                        },
                    ),
                ),
                None => Err(SolveError::InvalidProbability),
            },
            FPending::P { bundle, pend } => match p_resume(pend, answer) {
                Ok(PResume::Value(v)) => Ok(
                    FStep::Done(
                        FDist {
                            freedom1: bundle.freedom1,
                            freedom2: bundle.freedom2,
                            xval: bundle.xval,
                            pval: Constraint::Equal(v),
                        },
                    ),
                ),
                Ok(PResume::Next(q, p2)) => Ok(FStep::Query(q, FPending::P { bundle, pend: p2 })),
                Err(e) => Err(e),
            },
        }
    }
}

/// How the searched function's value is formed from a cumulative value `c`
/// and the target probability `p`.
#[derive(Clone, Copy, PartialEq, Eq, Structural, Debug)]
pub enum FForm {
    /// `c - p`: a downward inequality, zero where the cumulative
    /// probability meets the target.
    SubP,
    /// `c + p - 1`: an upward inequality, zero where the upper-tail
    /// probability meets the target.
    PlusPMinusOne,
}

/// The searched function's value, or `None` where it is unrepresentable.
pub open spec fn spec_fval(form: FForm, p: Fx, c: Fx) -> Option<Fx> {
    match form {
        FForm::SubP => spec_sub(c, p),
        FForm::PlusPMinusOne => match spec_add(c, p) {
            Some(t) => spec_sub(t, fx_one()),
            None => None,
        },
    }
}

fn fval(form: FForm, p: Fx, c: Fx) -> (r: Option<Fx>)
    ensures
        r == spec_fval(form, p, c),
{
    match form {
        FForm::SubP => c.try_sub(p),
        FForm::PlusPMinusOne => match c.try_add(p) {
            Some(t) => t.try_sub(Fx::one()),
            None => None,
        },
    }
}

/// A step of a Chi-squared solve.
pub enum ChiStep {
    Done(ChiSquare),
    Query(Query, ChiPending),
}

/// A Chi-squared solve awaiting one answer.
pub enum ChiPending {
    X { bundle: ChiSquare, ge: bool },
    P { bundle: ChiSquare, pend: PPending },
    /// The degrees-of-freedom search: the machine awaits the cumulative
    /// value at `x` under its probe freedom.
    Freedom { bundle: ChiSquare, x: Fx, p: Fx, form: FForm, fz: crate::root::FindZero },
}

impl ChiPending {
    /// Structural soundness: an embedded search machine is well formed.
    pub open spec fn wf(self) -> bool {
        match self {
            ChiPending::Freedom { fz, .. } => fz.wf(),
            _ => true,
        }
    }
}

impl ChiSquare {
    /// Begins a solve, as in [`Normal::spec_fill_start`]; the missing
    /// degrees of freedom start the bisection search at probe one.
    pub open spec fn spec_fill_start(self) -> Result<ChiStep, SolveError> {
        if self.known_count() <= 1 {
            Err(SolveError::NotEnoughFilled)
        } else if self.known_count() == 3 {
            Ok(ChiStep::Done(self))
        } else if !self.xval.spec_has_value() {
            match spec_x_plan(
                self.spec_params(),
                self.xval,
                self.pval,
                SolveError::ExactOnContinuous,
                SolveError::RangeOnX,
            ) {
                Ok((q, ge)) => Ok(ChiStep::Query(q, ChiPending::X { bundle: self, ge })),
                Err(e) => Err(e),
            }
        } else if !self.pval.spec_has_value() {
            match spec_p_plan(self.spec_params(), self.xval, SolveError::XNotInequality) {
                Ok((q, pend)) => Ok(ChiStep::Query(q, ChiPending::P { bundle: self, pend })),
                Err(e) => Err(e),
            }
        } else {
            match self.pval {
                Constraint::Equal(p) => {
                    let probe = fx_one();
                    match self.xval {
                        Constraint::LessEq(x) | Constraint::LessThan(x) => Ok(
                            ChiStep::Query(
                                Query::Cdf(DistParams::ChiSquare { freedom: probe }, x),
                                ChiPending::Freedom {
                                    bundle: self,
                                    x,
                                    p,
                                    form: FForm::SubP,
                                    fz: crate::root::FindZero::SeedHigh,
                                },
                            ),
                        ),
                        Constraint::GreaterEq(x) | Constraint::GreaterThan(x) => Ok(
                            ChiStep::Query(
                                Query::Cdf(DistParams::ChiSquare { freedom: probe }, x),
                                ChiPending::Freedom {
                                    bundle: self,
                                    x,
                                    p,
                                    form: FForm::PlusPMinusOne,
                                    fz: crate::root::FindZero::SeedHigh,
                                },
                            ),
                        ),
                        _ => Err(SolveError::XNotInequalityDot),
                    }
                },
                _ => Err(SolveError::ProbabilityNotSet),
            }
        }
    }

    /// Begins a solve; see [`ChiSquare::spec_fill_start`].
    pub fn fill_start(&self) -> (r: Result<ChiStep, SolveError>)
        ensures
            r == self.spec_fill_start(),
            r matches Ok(ChiStep::Query(_, pend)) ==> pend.wf(),
    {
        let filled = (if self.freedom.has_value() {
            1usize
        } else {
            0usize
        }) + (if self.xval.has_value() {
            1
        } else {
            0
        }) + (if self.pval.has_value() {
            1
        } else {
            0
        });
        if filled <= 1 {
            return Err(SolveError::NotEnoughFilled);
        }
        if filled == 3 {
            return Ok(ChiStep::Done(*self));
        }
        if !self.xval.has_value() {
            return match x_plan(
                self.params(),
                &self.xval,
                &self.pval,
                SolveError::ExactOnContinuous,
                SolveError::RangeOnX,
            ) {
                Ok((q, ge)) => Ok(ChiStep::Query(q, ChiPending::X { bundle: *self, ge })),
                Err(e) => Err(e),
            };
        }
        if !self.pval.has_value() {
            return match p_plan(self.params(), &self.xval, SolveError::XNotInequality) {
                Ok((q, pend)) => Ok(ChiStep::Query(q, ChiPending::P { bundle: *self, pend })),
                Err(e) => Err(e),
            };
        }
        let p = match self.pval {
            Constraint::Equal(p) => p,
            _ => {
                return Err(SolveError::ProbabilityNotSet);
            },
        };
        let (x, form) = match self.xval {
            Constraint::LessEq(x) | Constraint::LessThan(x) => (x, FForm::SubP),
            Constraint::GreaterEq(x) | Constraint::GreaterThan(x) => (x, FForm::PlusPMinusOne),
            _ => {
                return Err(SolveError::XNotInequalityDot);
            },
        };
        let (fz, probe) = crate::root::FindZero::start();
        Ok(
            ChiStep::Query(
                Query::Cdf(DistParams::ChiSquare { freedom: probe }, x),
                ChiPending::Freedom { bundle: *self, x, p, form, fz },
            ),
        )
    }
}

impl ChiPending {
    /// Resumes with the awaited value. The x and probability cases fill
    /// their slot exactly as the Normal family does; the freedom search
    /// feeds the value's sign to the bisection machine, answers probes at
    /// nonpositive freedom itself (the family is undefined there), and
    /// either asks for the next cumulative value, fills the freedom slot
    /// with the zero it found, or reports how the search failed.
    pub fn resume(self, answer: Option<Fx>) -> (r: Result<ChiStep, SolveError>)
        requires
            self.wf(),
        ensures
            r matches Ok(ChiStep::Query(_, pend)) ==> pend.wf(),
            self matches ChiPending::X { bundle, ge } ==> r == (match answer {
                Some(v) => Ok::<ChiStep, SolveError>(
                    ChiStep::Done(
                        ChiSquare {
                            freedom: bundle.freedom,
                            xval: if ge {
                                Constraint::GreaterEq(v)
                            } else {
                                Constraint::LessEq(v)
                            },
                            pval: bundle.pval,
                        },
                    ),
                ),
                None => Err::<ChiStep, SolveError>(SolveError::InvalidProbability),
            }),
            self matches ChiPending::P { bundle, pend } ==> r == (match spec_p_resume(
                pend,
                answer,
            ) {
                Ok(PResume::Value(v)) => Ok(
                    ChiStep::Done(
                        ChiSquare {
                            freedom: bundle.freedom,
                            xval: bundle.xval,
                            pval: Constraint::Equal(v),
                        },
                    ),
                ),
                Ok(PResume::Next(q, p2)) => Ok(
                    ChiStep::Query(q, ChiPending::P { bundle, pend: p2 }),
                ),
                Err(e) => Err(e),
            }),
            self matches ChiPending::Freedom { bundle, x, p, form, .. } ==> match r {
                Ok(ChiStep::Done(b2)) => b2.xval == bundle.xval && b2.pval == bundle.pval
                    && b2.freedom is Equal,
                Ok(ChiStep::Query(q, pend2)) => pend2 matches ChiPending::Freedom {
                    bundle: b2,
                    x: x2,
                    p: p2,
                    form: f2,
                    fz,
                } && b2 == bundle && x2 == x && p2 == p && f2 == form && fz.spec_probe().raw > 0
                    && q == Query::Cdf(
                    DistParams::ChiSquare { freedom: fz.spec_probe() },
                    x,
                ),
                Err(e) => e == SolveError::NoBracket || e == SolveError::NoSignChange,
            },
    {
        match self {
            ChiPending::X { bundle, ge } => match answer {
                Some(v) => Ok(
                    ChiStep::Done(
                        ChiSquare {
                            freedom: bundle.freedom,
                            xval: if ge {
                                Constraint::GreaterEq(v)
                            } else {
                                Constraint::LessEq(v)
                            },
                            pval: bundle.pval,
                        },
                    ),
                ),
                None => Err(SolveError::InvalidProbability),
            },
            ChiPending::P { bundle, pend } => match p_resume(pend, answer) {
                Ok(PResume::Value(v)) => Ok(
                    ChiStep::Done(
                        ChiSquare {
                            freedom: bundle.freedom,
                            xval: bundle.xval,
                            pval: Constraint::Equal(v),
                        },
                    ),
                ),
                Ok(PResume::Next(q, p2)) => Ok(
                    ChiStep::Query(q, ChiPending::P { bundle, pend: p2 }),
                ),
                Err(e) => Err(e),
            },
            ChiPending::Freedom { bundle, x, p, form, fz } => {
                let mut st = fz;
                let mut ans: Option<Fx> = match answer {
                    Some(c) => fval(form, p, c),
                    None => None,
                };
                loop
                    invariant
                        st.wf(),
                        self == (ChiPending::Freedom { bundle, x, p, form, fz }),
                    decreases st.measure(),
                {
                    match st.step(ans) {
                        crate::root::RootStep::Continue(s2, probe) => {
                            if probe.is_pos() {
                                return Ok(
                                    ChiStep::Query(
                                        Query::Cdf(DistParams::ChiSquare { freedom: probe }, x),
                                        ChiPending::Freedom { bundle, x, p, form, fz: s2 },
                                    ),
                                );
                            }
                            // The family is undefined at a nonpositive
                            // freedom: answer the probe here.
                            st = s2;
                            ans = None;
                        },
                        crate::root::RootStep::Done(root) => {
                            return Ok(
                                ChiStep::Done(
                                    ChiSquare {
                                        freedom: Constraint::Equal(root),
                                        xval: bundle.xval,
                                        pval: bundle.pval,
                                    },
                                ),
                            );
                        },
                        crate::root::RootStep::Fail(crate::root::RootError::NoBracket) => {
                            return Err(SolveError::NoBracket);
                        },
                        crate::root::RootStep::Fail(crate::root::RootError::NoSignChange) => {
                            return Err(SolveError::NoSignChange);
                        },
                    }
                }
            },
        }
    }
}

/// The freedom value above which a search result is accepted only if its
/// residual error stays within the tolerance: one hundred thousand.
pub open spec fn freedom_ceiling() -> Fx {
    Fx { raw: 100000000000 }
}

/// The residual tolerance for a freedom value above the ceiling: one ten
/// thousandth.
pub open spec fn residual_tol() -> Fx {
    Fx { raw: 100 }
}

/// A step of a Student's-t solve.
pub enum TStep {
    Done(TDist),
    Query(Query, TPending),
}

/// A Student's-t solve awaiting one answer.
pub enum TPending {
    X { bundle: TDist, ge: bool },
    P { bundle: TDist, pend: PPending },
    /// The degrees-of-freedom search under fixed location and scale.
    Freedom { bundle: TDist, x: Fx, p: Fx, l: Fx, sc: Fx, form: FForm, fz: crate::root::FindZero },
    /// A found freedom above the ceiling: the cumulative value at `x`
    /// under it is awaited for the residual check.
    Residual { bundle: TDist, root: Fx, p: Fx, ge: bool },
    /// Awaiting the standard quantile; the location becomes `x - sc * quantile`.
    Location { bundle: TDist, x: Fx, sc: Fx },
    /// Awaiting the standard quantile; the scale becomes `(x - l) / quantile`,
    /// with its sign checks.
    Scale { bundle: TDist, x: Fx, l: Fx },
}

impl TPending {
    /// Structural soundness: an embedded search machine is well formed.
    pub open spec fn wf(self) -> bool {
        match self {
            TPending::Freedom { fz, .. } => fz.wf(),
            _ => true,
        }
    }
}

/// The direction-resolved x for the Student's-t closed forms: the x value
/// is negated on an upward inequality and the probability is untouched.
pub open spec fn spec_student_side(xval: Constraint) -> Result<Option<Fx>, SolveError> {
    match xval {
        Constraint::GreaterEq(x) | Constraint::GreaterThan(x) => Ok(spec_neg(x)),
        Constraint::LessEq(x) | Constraint::LessThan(x) => Ok(Some(x)),
        _ => Err(SolveError::MustUseInequality),
    }
}

impl TDist {
    /// Begins a solve, as in [`Normal::spec_fill_start`]. The missing
    /// freedom starts the bisection search; a missing location or scale is
    /// solved in closed form through the standard quantile, with the x
    /// value negated on an upward inequality.
    pub open spec fn spec_fill_start(self) -> Result<TStep, SolveError> {
        if self.known_count() <= 3 {
            Err(SolveError::NotEnoughFilled)
        } else if self.known_count() == 5 {
            Ok(TStep::Done(self))
        } else if !self.xval.spec_has_value() {
            match spec_x_plan(
                self.spec_params(),
                self.xval,
                self.pval,
                SolveError::EqualOnX,
                SolveError::EqualOnX,
            ) {
                Ok((q, ge)) => Ok(TStep::Query(q, TPending::X { bundle: self, ge })),
                Err(e) => Err(e),
            }
        } else if !self.pval.spec_has_value() {
            match spec_p_plan(self.spec_params(), self.xval, SolveError::XNotInequality) {
                Ok((q, pend)) => Ok(TStep::Query(q, TPending::P { bundle: self, pend })),
                Err(e) => Err(e),
            }
        } else if !self.freedom.spec_has_value() {
            match (self.location, self.scale, self.pval) {
                (Constraint::Equal(l), Constraint::Equal(sc), Constraint::Equal(p)) => {
                    match self.xval {
                        Constraint::GreaterEq(x) | Constraint::GreaterThan(x) => if l == x {
                            Err(SolveError::XAtLocation)
                        } else {
                            Ok(self.spec_freedom_query(x, p, l, sc, FForm::PlusPMinusOne))
                        },
                        Constraint::LessEq(x) | Constraint::LessThan(x) => if l == x {
                            Err(SolveError::XAtLocation)
                        } else {
                            Ok(self.spec_freedom_query(x, p, l, sc, FForm::SubP))
                        },
                        _ => Err(SolveError::MustUseInequalityOther),
                    }
                },
                (Constraint::Equal(_), Constraint::Equal(_), _) => Err(
                    SolveError::ProbabilityNotSet,
                ),
                (Constraint::Equal(_), _, _) => Err(SolveError::ScaleNotSet),
                _ => Err(SolveError::LocationNotSet),
            }
        } else if !self.location.spec_has_value() {
            match (self.freedom, self.scale, self.pval) {
                (Constraint::Equal(f), Constraint::Equal(sc), Constraint::Equal(p)) => {
                    match spec_student_side(self.xval) {
                        Err(e) => Err(e),
                        Ok(None) => Err(SolveError::OutOfRange),
                        Ok(Some(x)) => if f.raw > 0 {
                            Ok(
                                TStep::Query(
                                    Query::InverseCdf(std_student(f), p),
                                    TPending::Location { bundle: self, x, sc },
                                ),
                            )
                        } else {
                            Err(SolveError::FreedomNegative)
                        },
                    }
                },
                (Constraint::Equal(_), Constraint::Equal(_), _) => Err(
                    SolveError::ProbabilityNotSet,
                ),
                (Constraint::Equal(_), _, _) => Err(SolveError::ScaleNotSet),
                _ => Err(SolveError::LocationNotSet),
            }
        } else {
            match (self.freedom, self.location, self.pval) {
                (Constraint::Equal(f), Constraint::Equal(l), Constraint::Equal(p)) => {
                    match spec_student_side(self.xval) {
                        Err(e) => Err(e),
                        Ok(None) => Err(SolveError::OutOfRange),
                        Ok(Some(x)) => if f.raw > 0 {
                            if p == fx_half() {
                                Err(SolveError::AmbiguousAtMedian)
                            } else {
                                Ok(
                                    TStep::Query(
                                        Query::InverseCdf(std_student(f), p),
                                        TPending::Scale { bundle: self, x, l },
                                    ),
                                )
                            }
                        } else {
                            Err(SolveError::FreedomNegative)
                        },
                    }
                },
                (Constraint::Equal(_), Constraint::Equal(_), _) => Err(
                    SolveError::ProbabilityNotSet,
                ),
                (Constraint::Equal(_), _, _) => Err(SolveError::ScaleNotSet),
                _ => Err(SolveError::LocationNotSet),
            }
        }
    }

    /// The first query of the freedom search: the cumulative value at `x`
    /// with the probe freedom one.
    pub open spec fn spec_freedom_query(self, x: Fx, p: Fx, l: Fx, sc: Fx, form: FForm) -> TStep {
        TStep::Query(
            Query::Cdf(DistParams::Student { location: l, scale: sc, freedom: fx_one() }, x),
            TPending::Freedom {
                bundle: self,
                x,
                p,
                l,
                sc,
                form,
                fz: crate::root::FindZero::SeedHigh,
            },
        )
    }

    /// Begins a solve; see [`TDist::spec_fill_start`].
    pub fn fill_start(&self) -> (r: Result<TStep, SolveError>)
        ensures
            r == self.spec_fill_start(),
            r matches Ok(TStep::Query(_, pend)) ==> pend.wf(),
    {
        let filled = (if self.location.has_value() {
            1usize
        } else {
            0usize
        }) + (if self.scale.has_value() {
            1
        } else {
            0
        }) + (if self.freedom.has_value() {
            1
        } else {
            0
        }) + (if self.xval.has_value() {
            1
        } else {
            0
        }) + (if self.pval.has_value() {
            1
        } else {
            0
        });
        if filled <= 3 {
            return Err(SolveError::NotEnoughFilled);
        }
        if filled == 5 {
            return Ok(TStep::Done(*self));
        }
        if !self.xval.has_value() {
            return match x_plan(
                self.params(),
                &self.xval,
                &self.pval,
                SolveError::EqualOnX,
                SolveError::EqualOnX,
            ) {
                Ok((q, ge)) => Ok(TStep::Query(q, TPending::X { bundle: *self, ge })),
                Err(e) => Err(e),
            };
        }
        if !self.pval.has_value() {
            return match p_plan(self.params(), &self.xval, SolveError::XNotInequality) {
                Ok((q, pend)) => Ok(TStep::Query(q, TPending::P { bundle: *self, pend })),
                Err(e) => Err(e),
            };
        }
        if !self.freedom.has_value() {
            let l = match self.location {
                Constraint::Equal(l) => l,
                _ => {
                    return Err(SolveError::LocationNotSet);
                },
            };
            let sc = match self.scale {
                Constraint::Equal(sc) => sc,
                _ => {
                    return Err(SolveError::ScaleNotSet);
                },
            };
            let p = match self.pval {
                Constraint::Equal(p) => p,
                _ => {
                    return Err(SolveError::ProbabilityNotSet);
                },
            };
            let (x, form) = match self.xval {
                Constraint::GreaterEq(x) | Constraint::GreaterThan(x) => (
                    x,
                    FForm::PlusPMinusOne,
                ),
                Constraint::LessEq(x) | Constraint::LessThan(x) => (x, FForm::SubP),
                _ => {
                    return Err(SolveError::MustUseInequalityOther);
                },
            };
            if l == x {
                return Err(SolveError::XAtLocation);
            }
            let (fz, probe) = crate::root::FindZero::start();
            return Ok(
                TStep::Query(
                    Query::Cdf(DistParams::Student { location: l, scale: sc, freedom: probe }, x),
                    TPending::Freedom { bundle: *self, x, p, l, sc, form, fz },
                ),
            );
        }
        let solving_location = !self.location.has_value();
        let f = match self.freedom {
            Constraint::Equal(f) => f,
            _ => {
                return Err(SolveError::LocationNotSet);
            },
        };
        let fixed = if solving_location {
            match self.scale {
                Constraint::Equal(sc) => sc,
                _ => {
                    return Err(SolveError::ScaleNotSet);
                },
            }
        } else {
            match self.location {
                Constraint::Equal(l) => l,
                _ => {
                    return Err(SolveError::ScaleNotSet);
                },
            }
        };
        let p = match self.pval {
            Constraint::Equal(p) => p,
            _ => {
                return Err(SolveError::ProbabilityNotSet);
            },
        };
        let x = match self.xval {
            Constraint::GreaterEq(x) | Constraint::GreaterThan(x) => match x.try_neg() {
                Some(nx) => nx,
                None => {
                    return Err(SolveError::OutOfRange);
                },
            },
            Constraint::LessEq(x) | Constraint::LessThan(x) => x,
            _ => {
                return Err(SolveError::MustUseInequality);
            },
        };
        if !f.is_pos() {
            return Err(SolveError::FreedomNegative);
        }
        let std = DistParams::Student { location: Fx::zero(), scale: Fx::one(), freedom: f };
        if solving_location {
            Ok(
                TStep::Query(
                    Query::InverseCdf(std, p),
                    TPending::Location { bundle: *self, x, sc: fixed },
                ),
            )
        } else {
            if p == Fx::from_raw(500000) {
                return Err(SolveError::AmbiguousAtMedian);
            }
            Ok(
                TStep::Query(
                    Query::InverseCdf(std, p),
                    TPending::Scale { bundle: *self, x, l: fixed },
                ),
            )
        }
    }
}

/// The standard Student's-t parameters with freedom `f`, used for the
/// closed-form location and scale solving.
pub open spec fn std_student(f: Fx) -> DistParams {
    DistParams::Student { location: Fx { raw: 0 }, scale: fx_one(), freedom: f }
}

impl TPending {
    /// Resumes with the awaited value, as the Chi-squared family does; a
    /// found freedom above the ceiling asks for one more cumulative value
    /// and accepts only a residual within the tolerance.
    pub fn resume(self, answer: Option<Fx>) -> (r: Result<TStep, SolveError>)
        requires
            self.wf(),
        ensures
            r matches Ok(TStep::Query(_, pend)) ==> pend.wf(),
            self matches TPending::X { bundle, ge } ==> r == (match answer {
                Some(v) => Ok::<TStep, SolveError>(
                    TStep::Done(
                        TDist {
                            location: bundle.location,
                            scale: bundle.scale,
                            freedom: bundle.freedom,
                            xval: if ge {
                                Constraint::GreaterEq(v)
                            } else {
                                Constraint::LessEq(v)
                            },
                            pval: bundle.pval,
                        },
                    ),
                ),
                None => Err::<TStep, SolveError>(SolveError::InvalidProbability),
            }),
            self matches TPending::P { bundle, pend } ==> r == (match spec_p_resume(
                pend,
                answer,
            ) {
                Ok(PResume::Value(v)) => Ok(
                    TStep::Done(
                        TDist {
                            location: bundle.location,
                            scale: bundle.scale,
                            freedom: bundle.freedom,
                            xval: bundle.xval,
                            pval: Constraint::Equal(v),
                        },
                    ),
                ),
                Ok(PResume::Next(q, p2)) => Ok(TStep::Query(q, TPending::P { bundle, pend: p2 })),
                Err(e) => Err(e),
            }),
            self matches TPending::Freedom { bundle, x, p, l, sc, form, .. } ==> match r {
                Ok(TStep::Done(b2)) => b2.location == bundle.location && b2.scale
                    == bundle.scale && b2.xval == bundle.xval && b2.pval == bundle.pval
                    && b2.freedom is Equal,
                Ok(TStep::Query(q, pend2)) => (pend2 matches TPending::Freedom {
                    bundle: b2,
                    x: x2,
                    p: p2,
                    l: l2,
                    sc: sc2,
                    form: f2,
                    fz,
                } && b2 == bundle && x2 == x && p2 == p && l2 == l && sc2 == sc && f2 == form
                    && fz.spec_probe().raw > 0 && sc.raw > 0 && q == Query::Cdf(
                    DistParams::Student { location: l, scale: sc, freedom: fz.spec_probe() },
                    x,
                )) || (pend2 matches TPending::Residual {
                    bundle: b2,
                    root,
                    p: p2,
                    ge,
                } && b2 == bundle && p2 == p && root.raw >= freedom_ceiling().raw && ge == (
                form is PlusPMinusOne) && q == Query::Cdf(
                    DistParams::Student { location: l, scale: sc, freedom: root },
                    x,
                )),
                Err(e) => e == SolveError::NoBracket || e == SolveError::NoSignChange || e
                    == SolveError::NoSolutionFound,
            },
            self matches TPending::Residual { bundle, root, p, ge } ==> r == (match answer {
                None => Err::<TStep, SolveError>(SolveError::NoSolutionFound),
                Some(c) => {
                    let rv = if ge {
                        spec_sub(fx_one(), c)
                    } else {
                        Some(c)
                    };
                    match rv {
                        None => Err(SolveError::OutOfRange),
                        Some(rv) => match spec_sub(rv, p) {
                            None => Err(SolveError::OutOfRange),
                            Some(d) => if d.raw > residual_tol().raw || d.raw
                                < -residual_tol().raw {
                                Err(SolveError::NoSolutionFound)
                            } else {
                                Ok(
                                    TStep::Done(
                                        TDist {
                                            location: bundle.location,
                                            scale: bundle.scale,
                                            freedom: Constraint::Equal(root),
                                            xval: bundle.xval,
                                            pval: bundle.pval,
                                        },
                                    ),
                                )
                            },
                        },
                    }
                },
            }),
            self matches TPending::Location { bundle, x, sc } ==> r == (match answer {
                None => Err::<TStep, SolveError>(SolveError::InvalidProbability),
                Some(inv) => match spec_mul(sc, inv) {
                    None => Err(SolveError::OutOfRange),
                    Some(m) => match spec_sub(x, m) {
                        None => Err(SolveError::OutOfRange),
                        Some(v) => Ok(
                            TStep::Done(
                                TDist {
                                    location: Constraint::Equal(v),
                                    scale: bundle.scale,
                                    freedom: bundle.freedom,
                                    xval: bundle.xval,
                                    pval: bundle.pval,
                                },
                            ),
                        ),
                    },
                },
            }),
            self matches TPending::Scale { bundle, x, l } ==> r == (match answer {
                None => Err::<TStep, SolveError>(SolveError::InvalidProbability),
                Some(inv) => if inv.raw == 0 {
                    Err(SolveError::AmbiguousAtMedian)
                } else {
                    match spec_sub(x, l) {
                        None => Err(SolveError::OutOfRange),
                        Some(d) => match spec_div(d, inv) {
                            None => Err(SolveError::OutOfRange),
                            Some(fill) => if fill.raw < 0 {
                                if inv.raw > 0 {
                                    Err(SolveError::ProbHighXLowLocation)
                                } else {
                                    Err(SolveError::ProbLowXHighLocation)
                                }
                            } else if fill.raw == 0 {
                                Err(SolveError::LocationEqualsX)
                            } else {
                                Ok(
                                    TStep::Done(
                                        TDist {
                                            location: bundle.location,
                                            scale: Constraint::Equal(fill),
                                            freedom: bundle.freedom,
                                            xval: bundle.xval,
                                            pval: bundle.pval,
                                        },
                                    ),
                                )
                            },
                        },
                    }
                },
            }),
    {
        match self {
            TPending::X { bundle, ge } => match answer {
                Some(v) => Ok(
                    TStep::Done(
                        TDist {
                            location: bundle.location,
                            scale: bundle.scale,
                            freedom: bundle.freedom,
                            xval: if ge {
                                Constraint::GreaterEq(v)
                            } else {
                                Constraint::LessEq(v)
                            },
                            pval: bundle.pval,
                        },
                    ),
                ),
                None => Err(SolveError::InvalidProbability),
            },
            TPending::P { bundle, pend } => match p_resume(pend, answer) {
                Ok(PResume::Value(v)) => Ok(
                    TStep::Done(
                        TDist {
                            location: bundle.location,
                            scale: bundle.scale,
                            freedom: bundle.freedom,
                            xval: bundle.xval,
                            pval: Constraint::Equal(v),
                        },
                    ),
                ),
                Ok(PResume::Next(q, p2)) => Ok(TStep::Query(q, TPending::P { bundle, pend: p2 })),
                Err(e) => Err(e),
            },
            TPending::Freedom { bundle, x, p, l, sc, form, fz } => {
                let mut st = fz;
                let mut ans: Option<Fx> = match answer {
                    Some(c) => fval(form, p, c),
                    None => None,
                };
                loop
                    invariant
                        st.wf(),
                        self == (TPending::Freedom { bundle, x, p, l, sc, form, fz }),
                    decreases st.measure(),
                {
                    match st.step(ans) {
                        crate::root::RootStep::Continue(s2, probe) => {
                            if probe.is_pos() && sc.is_pos() {
                                return Ok(
                                    TStep::Query(
                                        Query::Cdf(
                                            DistParams::Student {
                                                location: l,
                                                scale: sc,
                                                freedom: probe,
                                            },
                                            x,
                                        ),
                                        TPending::Freedom { bundle, x, p, l, sc, form, fz: s2 },
                                    ),
                                );
                            }
                            // The family is undefined at a nonpositive
                            // freedom or scale: answer the probe here.
                            st = s2;
                            ans = None;
                        },
                        crate::root::RootStep::Done(root) => {
                            if root.raw < 100000000000i64 {
                                return Ok(
                                    TStep::Done(
                                        TDist {
                                            location: bundle.location,
                                            scale: bundle.scale,
                                            freedom: Constraint::Equal(root),
                                            xval: bundle.xval,
                                            pval: bundle.pval,
                                        },
                                    ),
                                );
                            }
                            // A freedom this large only passes with a
                            // residual inside the tolerance.
                            return Ok(
                                TStep::Query(
                                    Query::Cdf(
                                        DistParams::Student {
                                            location: l,
                                            scale: sc,
                                            freedom: root,
                                        },
                                        x,
                                    ),
                                    TPending::Residual {
                                        bundle,
                                        root,
                                        p,
                                        ge: matches!(form, FForm::PlusPMinusOne),
                                    },
                                ),
                            );
                        },
                        crate::root::RootStep::Fail(crate::root::RootError::NoBracket) => {
                            return Err(SolveError::NoBracket);
                        },
                        crate::root::RootStep::Fail(crate::root::RootError::NoSignChange) => {
                            return Err(SolveError::NoSignChange);
                        },
                    }
                }
            },
            TPending::Residual { bundle, root, p, ge } => {
                let c = match answer {
                    Some(c) => c,
                    None => {
                        return Err(SolveError::NoSolutionFound);
                    },
                };
                let rv = if ge {
                    match Fx::one().try_sub(c) {
                        Some(rv) => rv,
                        None => {
                            return Err(SolveError::OutOfRange);
                        },
                    }
                } else {
                    c
                };
                let d = match rv.try_sub(p) {
                    Some(d) => d,
                    None => {
                        return Err(SolveError::OutOfRange);
                    },
                };
                if d.raw > 100 || d.raw < -100 {
                    Err(SolveError::NoSolutionFound)
                } else {
                    Ok(
                        TStep::Done(
                            TDist {
                                location: bundle.location,
                                scale: bundle.scale,
                                freedom: Constraint::Equal(root),
                                xval: bundle.xval,
                                pval: bundle.pval,
                            },
                        ),
                    )
                }
            },
            TPending::Location { bundle, x, sc } => {
                let inv = match answer {
                    Some(inv) => inv,
                    None => {
                        return Err(SolveError::InvalidProbability);
                    },
                };
                let m = match sc.try_mul(inv) {
                    Some(m) => m,
                    None => {
                        return Err(SolveError::OutOfRange);
                    },
                };
                match x.try_sub(m) {
                    Some(v) => Ok(
                        TStep::Done(
                            TDist {
                                location: Constraint::Equal(v),
                                scale: bundle.scale,
                                freedom: bundle.freedom,
                                xval: bundle.xval,
                                pval: bundle.pval,
                            },
                        ),
                    ),
                    None => Err(SolveError::OutOfRange),
                }
            },
            TPending::Scale { bundle, x, l } => {
                let inv = match answer {
                    Some(inv) => inv,
                    None => {
                        return Err(SolveError::InvalidProbability);
                    },
                };
                if inv.is_zero() {
                    return Err(SolveError::AmbiguousAtMedian);
                }
                let d = match x.try_sub(l) {
                    Some(d) => d,
                    None => {
                        return Err(SolveError::OutOfRange);
                    },
                };
                let fill = match d.try_div(inv) {
                    Some(f) => f,
                    None => {
                        return Err(SolveError::OutOfRange);
                    },
                };
                if fill.is_neg() {
                    if inv.is_pos() {
                        Err(SolveError::ProbHighXLowLocation)
                    } else {
                        Err(SolveError::ProbLowXHighLocation)
                    }
                } else if fill.is_zero() {
                    Err(SolveError::LocationEqualsX)
                } else {
                    Ok(
                        TStep::Done(
                            TDist {
                                location: bundle.location,
                                scale: Constraint::Equal(fill),
                                freedom: bundle.freedom,
                                xval: bundle.xval,
                                pval: bundle.pval,
                            },
                        ),
                    )
                }
            },
        }
    }
}

/// Solving the scale of a Student's-t at the median probability always
/// fails as ambiguous: with the probability exactly one half, a one-sided
/// x and a positive exact freedom, the solve is rejected before any
/// evaluation is asked for.
pub proof fn lemma_student_median_ambiguous(t: TDist)
    requires
        t.location.spec_has_value(),
        t.freedom.spec_has_value(),
        t.xval.spec_has_value(),
        !t.scale.spec_has_value(),
        t.pval == Constraint::Equal(fx_half()),
        matches!(t.freedom, Constraint::Equal(_)),
        matches!(t.location, Constraint::Equal(_)),
        t.freedom matches Constraint::Equal(f) ==> f.raw > 0,
        matches!(
            t.xval,
            Constraint::GreaterEq(_)
                | Constraint::GreaterThan(_)
                | Constraint::LessEq(_)
                | Constraint::LessThan(_)
        ),
        t.xval matches Constraint::GreaterEq(x) ==> x.raw != i64::MIN,
        t.xval matches Constraint::GreaterThan(x) ==> x.raw != i64::MIN,
    ensures
        t.spec_fill_start() == Result::<TStep, SolveError>::Err(SolveError::AmbiguousAtMedian),
{
    assert(t.known_count() == 4);
}

fn p_resume(pend: PPending, answer: Option<Fx>) -> (r: Result<PResume, SolveError>)
    ensures
        r == spec_p_resume(pend, answer),
{
    let c = match answer {
        Some(c) => c,
        None => {
            return Err(SolveError::InvalidXValue);
        },
    };
    match pend {
        PPending::One { flip } => {
            if flip {
                match Fx::one().try_sub(c) {
                    Some(v) => Ok(PResume::Value(v)),
                    None => Err(SolveError::OutOfRange),
                }
            } else {
                Ok(PResume::Value(c))
            }
        },
        PPending::RangeFirst { a, outside, params } => Ok(
            PResume::Next(Query::Cdf(params, a), PPending::RangeSecond { cb: c, outside }),
        ),
        PPending::RangeSecond { cb, outside } => {
            if outside {
                match Fx::one().try_sub(cb) {
                    Some(t) => match t.try_add(c) {
                        Some(v) => Ok(PResume::Value(v)),
                        None => Err(SolveError::OutOfRange),
                    },
                    None => Err(SolveError::OutOfRange),
                }
            } else {
                match cb.try_sub(c) {
                    Some(v) => Ok(PResume::Value(v)),
                    None => Err(SolveError::OutOfRange),
                }
            }
        },
    }
}

} // verus!
