use opencrunch::constraint::Constraint;
use opencrunch::dist::{CDistr, ChiSquare, DistParams, FDist, Normal, Query, TDist};
use opencrunch::error::{ErrorKind, SolveError};
use opencrunch::fixed::Fx;
use opencrunch::solve::{ChiStep, FStep, NormalStep, TStep};
use statrs::distribution::ContinuousCDF;

fn sfx(x: f64) -> Fx {
    Fx {
        raw: (x * 1_000_000.0).round() as i64,
    }
}

fn sval(v: Fx) -> f64 {
    v.raw as f64 / 1_000_000.0
}

fn clamp_fx(x: f64) -> Option<Fx> {
    if !x.is_finite() {
        return None;
    }
    let r = (x * 1_000_000.0).round();
    if r.abs() > i64::MAX as f64 {
        return None;
    }
    Some(Fx { raw: r as i64 })
}

fn eval_cdf(p: &DistParams, x: f64) -> Option<f64> {
    match *p {
        DistParams::Normal { mean, sd } => statrs::distribution::Normal::new(sval(mean), sval(sd))
            .ok()
            .map(|d| d.cdf(x)),
        DistParams::ChiSquare { freedom } => statrs::distribution::ChiSquared::new(sval(freedom))
            .ok()
            .map(|d| d.cdf(x)),
        DistParams::Student { location, scale, freedom } => statrs::distribution::StudentsT::new(
            sval(location),
            sval(scale),
            sval(freedom),
        )
        .ok()
        .map(|d| d.cdf(x)),
        DistParams::Fisher { freedom1, freedom2 } => statrs::distribution::FisherSnedecor::new(
            sval(freedom1),
            sval(freedom2),
        )
        .ok()
        .map(|d| d.cdf(x)),
    }
}

fn eval_inv(p: &DistParams, q: f64) -> Option<f64> {
    if !(0.0..=1.0).contains(&q) {
        return None;
    }
    match *p {
        DistParams::Normal { mean, sd } => statrs::distribution::Normal::new(sval(mean), sval(sd))
            .ok()
            .map(|d| d.inverse_cdf(q)),
        DistParams::ChiSquare { freedom } => statrs::distribution::ChiSquared::new(sval(freedom))
            .ok()
            .map(|d| d.inverse_cdf(q)),
        DistParams::Student { location, scale, freedom } => statrs::distribution::StudentsT::new(
            sval(location),
            sval(scale),
            sval(freedom),
        )
        .ok()
        .map(|d| d.inverse_cdf(q)),
        DistParams::Fisher { freedom1, freedom2 } => statrs::distribution::FisherSnedecor::new(
            sval(freedom1),
            sval(freedom2),
        )
        .ok()
        .map(|d| d.inverse_cdf(q)),
    }
}

fn answer_query(q: &Query) -> Option<Fx> {
    match q {
        Query::Pdf(_, _) => None,
        Query::Cdf(p, x) => eval_cdf(p, sval(*x)).and_then(clamp_fx),
        Query::InverseCdf(p, pr) => eval_inv(p, sval(*pr)).and_then(clamp_fx),
        Query::Sqrt(x) => {
            let v = sval(*x);
            if v < 0.0 {
                None
            } else {
                clamp_fx(v.sqrt())
            }
        }
    }
}

fn run_normal(n: &Normal) -> Result<Normal, SolveError> {
    let mut step = n.fill_start()?;
    loop {
        match step {
            NormalStep::Done(b) => return Ok(b),
            NormalStep::Query(q, pend) => {
                let a = answer_query(&q);
                step = pend.resume(a)?;
            }
        }
    }
}

fn run_chi(c: &ChiSquare) -> Result<ChiSquare, SolveError> {
    let mut step = c.fill_start()?;
    loop {
        match step {
            ChiStep::Done(b) => return Ok(b),
            ChiStep::Query(q, pend) => {
                let a = answer_query(&q);
                step = pend.resume(a)?;
            }
        }
    }
}

fn run_t(t: &TDist) -> Result<TDist, SolveError> {
    let mut step = t.fill_start()?;
    loop {
        match step {
            TStep::Done(b) => return Ok(b),
            TStep::Query(q, pend) => {
                let a = answer_query(&q);
                step = pend.resume(a)?;
            }
        }
    }
}

fn run_f(f: &FDist) -> Result<FDist, SolveError> {
    let mut step = f.fill_start()?;
    loop {
        match step {
            FStep::Done(b) => return Ok(b),
            FStep::Query(q, pend) => {
                let a = answer_query(&q);
                step = pend.resume(a)?;
            }
        }
    }
}

#[test]
fn solver_closure_normal_probability() {
    // Normal(0, 1) with x <= 1.959963: the solved probability is 0.975.
    let n = Normal {
        mean: Constraint::Equal(sfx(0.0)),
        sd: Constraint::Equal(sfx(1.0)),
        xval: Constraint::LessEq(sfx(1.959963)),
        pval: Constraint::Unset,
    };
    let filled = run_normal(&n).unwrap();
    match filled.pval {
        Constraint::Equal(p) => assert!((sval(p) - 0.975).abs() < 1e-4),
        _ => panic!("probability not filled"),
    }
}

#[test]
fn solver_normal_x_from_probability() {
    let n = Normal {
        mean: Constraint::Equal(sfx(0.0)),
        sd: Constraint::Equal(sfx(1.0)),
        xval: Constraint::LessEqUnknown,
        pval: Constraint::Equal(sfx(0.975)),
    };
    let filled = run_normal(&n).unwrap();
    match filled.xval {
        Constraint::LessEq(x) => assert!((sval(x) - 1.959964).abs() < 1e-3),
        _ => panic!("x not filled as an upper bound"),
    }
    let up = Normal {
        xval: Constraint::GreaterEqUnknown,
        ..n
    };
    match run_normal(&up).unwrap().xval {
        Constraint::GreaterEq(x) => assert!((sval(x) + 1.959964).abs() < 1e-3),
        _ => panic!("x not filled as a lower bound"),
    }
}

#[test]
fn solver_normal_mean_and_sd() {
    // mean = x - sd * z(p)
    let n = Normal {
        mean: Constraint::Unset,
        sd: Constraint::Equal(sfx(2.0)),
        xval: Constraint::LessEq(sfx(1.0)),
        pval: Constraint::Equal(sfx(0.9)),
    };
    match run_normal(&n).unwrap().mean {
        Constraint::Equal(m) => assert!((sval(m) - (1.0 - 2.0 * 1.2815516)).abs() < 1e-4),
        _ => panic!("mean not filled"),
    }
    let s = Normal {
        mean: Constraint::Equal(sfx(0.0)),
        sd: Constraint::Unset,
        xval: Constraint::LessEq(sfx(1.2815516)),
        pval: Constraint::Equal(sfx(0.9)),
    };
    match run_normal(&s).unwrap().sd {
        Constraint::Equal(d) => assert!((sval(d) - 1.0).abs() < 1e-4),
        _ => panic!("deviation not filled"),
    }
    // An upward inequality complements the probability but keeps x.
    let up = Normal {
        mean: Constraint::Unset,
        sd: Constraint::Equal(sfx(2.0)),
        xval: Constraint::GreaterEq(sfx(1.0)),
        pval: Constraint::Equal(sfx(0.9)),
    };
    match run_normal(&up).unwrap().mean {
        Constraint::Equal(m) => assert!((sval(m) - (1.0 + 2.0 * 1.2815516)).abs() < 1e-4),
        _ => panic!("mean not filled"),
    }
}

#[test]
fn solver_more_error_variants() {
    // The complement of a probability far outside the representable range.
    let huge = Normal {
        mean: Constraint::Equal(sfx(0.0)),
        sd: Constraint::Equal(sfx(1.0)),
        xval: Constraint::GreaterEqUnknown,
        pval: Constraint::Equal(Fx { raw: i64::MIN }),
    };
    assert_eq!(run_normal(&huge), Err(SolveError::OutOfRange));
    // A freedom search needs an exact location and scale.
    let loc = TDist {
        location: Constraint::GreaterEq(sfx(0.0)),
        scale: Constraint::Equal(sfx(1.0)),
        freedom: Constraint::Unset,
        xval: Constraint::LessEq(sfx(2.0)),
        pval: Constraint::Equal(sfx(0.9)),
    };
    assert_eq!(run_t(&loc), Err(SolveError::LocationNotSet));
    let sc = TDist {
        location: Constraint::Equal(sfx(0.0)),
        scale: Constraint::Between(sfx(1.0), sfx(2.0)),
        freedom: Constraint::Unset,
        xval: Constraint::LessEq(sfx(2.0)),
        pval: Constraint::Equal(sfx(0.9)),
    };
    assert_eq!(run_t(&sc), Err(SolveError::ScaleNotSet));
    // A nonpositive scale leaves the searched function undefined
    // everywhere, so no bracket ever appears.
    let badsc = TDist {
        location: Constraint::Equal(sfx(0.0)),
        scale: Constraint::Equal(sfx(-1.0)),
        freedom: Constraint::Unset,
        xval: Constraint::LessEq(sfx(2.0)),
        pval: Constraint::Equal(sfx(0.9)),
    };
    assert_eq!(run_t(&badsc), Err(SolveError::NoBracket));
    assert_eq!(SolveError::NoBracket.message(), "No freedom value found");
    assert_eq!(SolveError::NoBracket.kind(), ErrorKind::NoBracket);
    // A probability slot that is not an inequality of x.
    let eqx = ChiSquare {
        freedom: Constraint::Equal(sfx(10.0)),
        xval: Constraint::Equal(sfx(1.0)),
        pval: Constraint::Unset,
    };
    assert_eq!(run_chi(&eqx), Err(SolveError::XNotInequality));
    // Parameters without exact values make the x value unusable.
    let vague = ChiSquare {
        freedom: Constraint::Between(sfx(1.0), sfx(2.0)),
        xval: Constraint::LessEq(sfx(1.0)),
        pval: Constraint::Unset,
    };
    assert_eq!(run_chi(&vague), Err(SolveError::InvalidXValue));
    // Solving the t scale from a range of x values.
    let rng = TDist {
        location: Constraint::Equal(sfx(0.0)),
        scale: Constraint::Unset,
        freedom: Constraint::Equal(sfx(4.0)),
        xval: Constraint::Between(sfx(0.0), sfx(1.0)),
        pval: Constraint::Equal(sfx(0.9)),
    };
    assert_eq!(run_t(&rng), Err(SolveError::MustUseInequality));
}

#[test]
fn solver_range_probability() {
    // P(-1 <= X <= 1) for the standard normal is about 0.6827.
    let n = Normal {
        mean: Constraint::Equal(sfx(0.0)),
        sd: Constraint::Equal(sfx(1.0)),
        xval: Constraint::Between(sfx(-1.0), sfx(1.0)),
        pval: Constraint::Unset,
    };
    match run_normal(&n).unwrap().pval {
        Constraint::Equal(p) => assert!((sval(p) - 0.682689).abs() < 1e-4),
        _ => panic!("probability not filled"),
    }
    let o = Normal {
        xval: Constraint::Outside(sfx(-1.0), sfx(1.0)),
        ..n
    };
    match run_normal(&o).unwrap().pval {
        Constraint::Equal(p) => assert!((sval(p) - 0.317310).abs() < 1e-4),
        _ => panic!("probability not filled"),
    }
}

#[test]
fn degrees_of_freedom_inversion() {
    // location 0, scale 1, x <= 2.0, probability 0.9: the solved freedom
    // reproduces the probability at 2.0.
    let t = TDist {
        location: Constraint::Equal(sfx(0.0)),
        scale: Constraint::Equal(sfx(1.0)),
        freedom: Constraint::Unset,
        xval: Constraint::LessEq(sfx(2.0)),
        pval: Constraint::Equal(sfx(0.9)),
    };
    let filled = run_t(&t).unwrap();
    let df = match filled.freedom {
        Constraint::Equal(f) => sval(f),
        _ => panic!("freedom not filled"),
    };
    let back = statrs::distribution::StudentsT::new(0.0, 1.0, df)
        .unwrap()
        .cdf(2.0);
    assert!((back - 0.9).abs() < 1e-4);
}

#[test]
fn median_ambiguity_normal() {
    let n = Normal {
        mean: Constraint::Equal(sfx(0.0)),
        sd: Constraint::Unset,
        xval: Constraint::LessEq(sfx(1.0)),
        pval: Constraint::Equal(sfx(0.5)),
    };
    assert_eq!(run_normal(&n), Err(SolveError::AmbiguousAtMedian));
    assert_eq!(
        SolveError::AmbiguousAtMedian.kind(),
        ErrorKind::AmbiguousAtMedian
    );
}

#[test]
fn median_ambiguity_student() {
    let t = TDist {
        location: Constraint::Equal(sfx(0.0)),
        scale: Constraint::Unset,
        freedom: Constraint::Equal(sfx(4.0)),
        xval: Constraint::LessEq(sfx(1.0)),
        pval: Constraint::Equal(sfx(0.5)),
    };
    assert_eq!(run_t(&t), Err(SolveError::AmbiguousAtMedian));
}

#[test]
fn solver_error_cases_normal() {
    let base = Normal {
        mean: Constraint::Equal(sfx(0.0)),
        sd: Constraint::Equal(sfx(1.0)),
        xval: Constraint::LessEq(sfx(1.0)),
        pval: Constraint::Unset,
    };
    // Too few known slots.
    let few = Normal {
        sd: Constraint::Unset,
        ..base
    };
    assert_eq!(run_normal(&few), Err(SolveError::NotEnoughFilled));
    // A full bundle solves to itself.
    let full = Normal {
        pval: Constraint::Equal(sfx(0.5)),
        ..base
    };
    assert_eq!(run_normal(&full), Ok(full));
    // An exact x slot cannot carry probability mass.
    let exact = Normal {
        xval: Constraint::Equal(sfx(1.0)),
        ..base
    };
    assert_eq!(run_normal(&exact), Err(SolveError::ExactOnContinuous));
    assert_eq!(
        SolveError::ExactOnContinuous.kind(),
        ErrorKind::ExactOnContinuous
    );
    // Solving x needs the probability as an equality.
    let noneq = Normal {
        xval: Constraint::LessEqUnknown,
        pval: Constraint::GreaterEq(sfx(0.5)),
        ..base
    };
    assert_eq!(run_normal(&noneq), Err(SolveError::ProbabilityNotSet));
    // A range sentinel direction cannot be solved for x.
    let unset_x = Normal {
        xval: Constraint::Unset,
        pval: Constraint::Equal(sfx(0.5)),
        ..base
    };
    assert_eq!(run_normal(&unset_x), Err(SolveError::RangeOnX));
    assert_eq!(SolveError::RangeOnX.kind(), ErrorKind::RangeNotSolvable);
    // A probability outside the unit interval has no quantile.
    let bad_p = Normal {
        xval: Constraint::LessEqUnknown,
        pval: Constraint::Equal(sfx(1.5)),
        ..base
    };
    assert_eq!(run_normal(&bad_p), Err(SolveError::InvalidProbability));
    assert_eq!(SolveError::InvalidProbability.kind(), ErrorKind::DomainInvalid);
    // Solving the deviation on the wrong side of the median.
    let side = Normal {
        mean: Constraint::Equal(sfx(0.0)),
        sd: Constraint::Unset,
        xval: Constraint::LessEq(sfx(-1.0)),
        pval: Constraint::Equal(sfx(0.9)),
    };
    assert_eq!(run_normal(&side), Err(SolveError::ProbHighXLowMean));
    assert_eq!(
        SolveError::ProbHighXLowMean.kind(),
        ErrorKind::ProbabilitySideMismatch
    );
    // The mean and the x value coincide.
    let same = Normal {
        mean: Constraint::Equal(sfx(1.0)),
        sd: Constraint::Unset,
        xval: Constraint::LessEq(sfx(1.0)),
        pval: Constraint::Equal(sfx(0.9)),
    };
    assert_eq!(run_normal(&same), Err(SolveError::MeanEqualsX));
    assert_eq!(SolveError::MeanEqualsX.kind(), ErrorKind::LocationEqualsX);
}

#[test]
fn solver_chi_square_cases() {
    let c = ChiSquare {
        freedom: Constraint::Equal(sfx(10.0)),
        xval: Constraint::LessEq(sfx(3.94)),
        pval: Constraint::Unset,
    };
    match run_chi(&c).unwrap().pval {
        Constraint::Equal(p) => {
            let expect = statrs::distribution::ChiSquared::new(10.0).unwrap().cdf(3.94);
            assert!((sval(p) - expect).abs() < 1e-4);
        }
        _ => panic!("probability not filled"),
    }
    // Solving freedom from a one-sided x and an exact probability.
    let f = ChiSquare {
        freedom: Constraint::Unset,
        xval: Constraint::LessEq(sfx(3.0)),
        pval: Constraint::Equal(sfx(0.776870)),
    };
    let solved = run_chi(&f).unwrap();
    match solved.freedom {
        Constraint::Equal(df) => assert!(sval(df) > 0.0),
        _ => panic!("freedom not filled"),
    }
    // An upward inequality searches for the freedom whose upper tail at x
    // meets the probability.
    let up = ChiSquare {
        freedom: Constraint::Unset,
        xval: Constraint::GreaterEq(sfx(3.0)),
        pval: Constraint::Equal(sfx(0.223130)),
    };
    let solved_up = run_chi(&up).unwrap();
    match solved_up.freedom {
        Constraint::Equal(df) => {
            assert!(sval(df) > 0.0);
            let tail = 1.0
                - statrs::distribution::ChiSquared::new(sval(df))
                    .unwrap()
                    .cdf(3.0);
            assert!((tail - 0.223130).abs() < 0.05);
        }
        _ => panic!("freedom not filled"),
    }
    // An equality x slot cannot drive the freedom search.
    let eq = ChiSquare {
        freedom: Constraint::Unset,
        xval: Constraint::Equal(sfx(3.0)),
        pval: Constraint::Equal(sfx(0.5)),
    };
    assert_eq!(run_chi(&eq), Err(SolveError::XNotInequalityDot));
}

#[test]
fn solver_student_closed_forms() {
    // location = x - scale * t_quantile(p)
    let t = TDist {
        location: Constraint::Unset,
        scale: Constraint::Equal(sfx(1.0)),
        freedom: Constraint::Equal(sfx(4.0)),
        xval: Constraint::LessEq(sfx(2.0)),
        pval: Constraint::Equal(sfx(0.9)),
    };
    let inv = statrs::distribution::StudentsT::new(0.0, 1.0, 4.0)
        .unwrap()
        .inverse_cdf(0.9);
    match run_t(&t).unwrap().location {
        Constraint::Equal(l) => assert!((sval(l) - (2.0 - inv)).abs() < 1e-4),
        _ => panic!("location not filled"),
    }
    // The upward inequality negates x before the same algebra.
    let up = TDist {
        xval: Constraint::GreaterEq(sfx(2.0)),
        ..t
    };
    match run_t(&up).unwrap().location {
        Constraint::Equal(l) => assert!((sval(l) - (-2.0 - inv)).abs() < 1e-4),
        _ => panic!("location not filled"),
    }
    // scale = (x - location) / t_quantile(p)
    let s = TDist {
        location: Constraint::Equal(sfx(0.0)),
        scale: Constraint::Unset,
        freedom: Constraint::Equal(sfx(4.0)),
        xval: Constraint::LessEq(sfx(2.0)),
        pval: Constraint::Equal(sfx(0.9)),
    };
    match run_t(&s).unwrap().scale {
        Constraint::Equal(sc) => assert!((sval(sc) - 2.0 / inv).abs() < 1e-4),
        _ => panic!("scale not filled"),
    }
    // A negative freedom never defines a distribution.
    let negf = TDist {
        location: Constraint::Unset,
        scale: Constraint::Equal(sfx(1.0)),
        freedom: Constraint::Equal(sfx(-4.0)),
        xval: Constraint::LessEq(sfx(2.0)),
        pval: Constraint::Equal(sfx(0.9)),
    };
    assert_eq!(run_t(&negf), Err(SolveError::FreedomNegative));
    // The x value must not sit on the location when searching freedom.
    let atloc = TDist {
        location: Constraint::Equal(sfx(2.0)),
        scale: Constraint::Equal(sfx(1.0)),
        freedom: Constraint::Unset,
        xval: Constraint::LessEq(sfx(2.0)),
        pval: Constraint::Equal(sfx(0.9)),
    };
    assert_eq!(run_t(&atloc), Err(SolveError::XAtLocation));
}

#[test]
fn solver_fisher_cases() {
    let f = FDist {
        freedom1: Constraint::Equal(sfx(4.0)),
        freedom2: Constraint::Equal(sfx(4.0)),
        xval: Constraint::LessEq(sfx(1.0)),
        pval: Constraint::Unset,
    };
    match run_f(&f).unwrap().pval {
        Constraint::Equal(p) => assert!((sval(p) - 0.5).abs() < 1e-4),
        _ => panic!("probability not filled"),
    }
    // Solving either degree of freedom is unsupported.
    let nf = FDist {
        freedom1: Constraint::Unset,
        freedom2: Constraint::Equal(sfx(4.0)),
        xval: Constraint::LessEq(sfx(1.0)),
        pval: Constraint::Equal(sfx(0.5)),
    };
    assert_eq!(run_f(&nf), Err(SolveError::FreedomNotSolvable));
    assert_eq!(
        SolveError::FreedomNotSolvable.message(),
        "Cannot solve for freedom yet"
    );
    // An equality sentinel on the x slot is rejected.
    let eq = FDist {
        freedom1: Constraint::Equal(sfx(4.0)),
        freedom2: Constraint::Equal(sfx(4.0)),
        xval: Constraint::EqualUnknown,
        pval: Constraint::Equal(sfx(0.5)),
    };
    assert_eq!(run_f(&eq), Err(SolveError::EqualOnX));
}

#[test]
fn inverse_consistency_normal() {
    // cdf(inverse_cdf(p)) stays within a millionth of p.
    let d = CDistr::Normal(Normal {
        mean: Constraint::Equal(sfx(0.0)),
        sd: Constraint::Equal(sfx(1.0)),
        xval: Constraint::Unset,
        pval: Constraint::Unset,
    });
    for &p in [0.01, 0.1, 0.25, 0.5, 0.75, 0.9, 0.99].iter() {
        let qi = d.inverse_cdf_query(sfx(p)).unwrap();
        let x = answer_query(&qi).unwrap();
        let qc = d.cdf_query(x).unwrap();
        let back = answer_query(&qc).unwrap();
        assert!((sval(back) - p).abs() < 1e-6);
    }
}

#[test]
fn cdf_monotone_all_families() {
    let families = [
        CDistr::Normal(Normal {
            mean: Constraint::Equal(sfx(0.0)),
            sd: Constraint::Equal(sfx(1.0)),
            xval: Constraint::Unset,
            pval: Constraint::Unset,
        }),
        CDistr::ChiSquare(ChiSquare {
            freedom: Constraint::Equal(sfx(5.0)),
            xval: Constraint::Unset,
            pval: Constraint::Unset,
        }),
        CDistr::TDist(TDist {
            location: Constraint::Equal(sfx(0.0)),
            scale: Constraint::Equal(sfx(1.0)),
            freedom: Constraint::Equal(sfx(4.0)),
            xval: Constraint::Unset,
            pval: Constraint::Unset,
        }),
        CDistr::FDist(FDist {
            freedom1: Constraint::Equal(sfx(4.0)),
            freedom2: Constraint::Equal(sfx(6.0)),
            xval: Constraint::Unset,
            pval: Constraint::Unset,
        }),
    ];
    for d in families.iter() {
        let mut last = -1.0f64;
        for i in 0..21 {
            let x = -2.0 + 0.4 * (i as f64);
            let q = d.cdf_query(sfx(x)).unwrap();
            let c = answer_query(&q).unwrap();
            assert!(sval(c) >= last - 1e-9);
            last = sval(c);
        }
    }
}

#[test]
fn adapter_tolerates_invalid_parameters() {
    // A nonpositive deviation, or a slot without an exact value, gives no
    // query at all rather than failing.
    let bad = CDistr::Normal(Normal {
        mean: Constraint::Equal(sfx(0.0)),
        sd: Constraint::Equal(sfx(-1.0)),
        xval: Constraint::Unset,
        pval: Constraint::Unset,
    });
    assert!(bad.cdf_query(sfx(0.0)).is_none());
    assert!(bad.pdf_query(sfx(0.0)).is_none());
    assert!(bad.inverse_cdf_query(sfx(0.5)).is_none());
    let vague = CDistr::ChiSquare(ChiSquare {
        freedom: Constraint::Between(sfx(1.0), sfx(2.0)),
        xval: Constraint::Unset,
        pval: Constraint::Unset,
    });
    assert!(vague.cdf_query(sfx(1.0)).is_none());
}

#[test]
fn defaults_match_families() {
    let n = Normal::default();
    assert_eq!(n.mean, Constraint::Equal(sfx(0.0)));
    assert_eq!(n.sd, Constraint::Equal(sfx(1.0)));
    assert_eq!(n.xval, Constraint::LessThan(sfx(0.0)));
    assert_eq!(n.pval, Constraint::Equal(sfx(0.5)));
    let c = ChiSquare::default();
    assert_eq!(c.freedom, Constraint::Equal(sfx(10.0)));
    let t = TDist::default();
    assert_eq!(t.freedom, Constraint::Equal(sfx(4.0)));
    assert_eq!(t.xval, Constraint::LessEq(sfx(0.0)));
    let f = FDist::default();
    assert_eq!(f.freedom2, Constraint::Equal(sfx(4.0)));
}

#[test]
fn update_from_text_keeps_bad_fields() {
    let n = Normal::default();
    let (n2, errs) = n.update_from_text("2.5", "nonsense", "<=1", "");
    assert_eq!(n2.mean, Constraint::Equal(sfx(2.5)));
    assert_eq!(n2.sd, n.sd);
    assert_eq!(n2.xval, Constraint::LessEq(sfx(1.0)));
    assert_eq!(n2.pval, Constraint::Unset);
    assert!(errs[0].is_none());
    assert!(errs[1].is_some());
    assert!(errs[2].is_none());
    assert!(errs[3].is_none());
}
