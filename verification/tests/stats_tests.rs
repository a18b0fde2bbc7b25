use opencrunch::constraint::Constraint;
use opencrunch::dist::{DistParams, Query};
use opencrunch::error::SolveError;
use opencrunch::fixed::Fx;
use opencrunch::stats::{
    confidence_bounds, fisher_params, finite_correction, finite_sample_var, hyp_pvalue_finish,
    hyp_pvalue_plan, interval_queries, k_freedom, k_pool_mean, k_statistic, normal_params,
    ratio_bounds, se_from_sqrt, std_err_sq, upper_tail, var_one_pvalue_plan, var_ratio,
    var_two_pvalue_plan, welch_freedom, HypKind,
};
use opencrunch::table::{
    add_col, add_row, get_all_fill, get_fill_shape, get_shape, rc_test_plan, rem_col, rem_row,
};
use statrs::distribution::ContinuousCDF;

fn tfx(x: f64) -> Fx {
    Fx {
        raw: (x * 1_000_000.0).round() as i64,
    }
}

fn tval(v: Fx) -> f64 {
    v.raw as f64 / 1_000_000.0
}

fn eval_stat_query(q: &Query) -> Option<Fx> {
    match q {
        Query::Cdf(DistParams::ChiSquare { freedom }, x) => {
            statrs::distribution::ChiSquared::new(tval(*freedom))
                .ok()
                .map(|d| tfx(d.cdf(tval(*x))))
        }
        Query::Cdf(DistParams::Normal { mean, sd }, x) => {
            statrs::distribution::Normal::new(tval(*mean), tval(*sd))
                .ok()
                .map(|d| tfx(d.cdf(tval(*x))))
        }
        Query::InverseCdf(DistParams::Normal { mean, sd }, p) => {
            statrs::distribution::Normal::new(tval(*mean), tval(*sd))
                .ok()
                .map(|d| tfx(d.inverse_cdf(tval(*p))))
        }
        Query::Sqrt(x) => {
            let v = tval(*x);
            if v < 0.0 {
                None
            } else {
                Some(tfx(v.sqrt()))
            }
        }
        _ => None,
    }
}

#[test]
fn k_sample_identical_groups() {
    // Two groups with one mean, deviation and size: the pooled mean is
    // that mean and the statistic is zero.
    let means = vec![tfx(3.5), tfx(3.5)];
    let devs = vec![tfx(1.25), tfx(1.25)];
    let sizes = vec![30usize, 30usize];
    let pooled = k_pool_mean(&means, &sizes).unwrap();
    assert_eq!(pooled, tfx(3.5));
    let stat = k_statistic(&means, &devs, &sizes, pooled).unwrap();
    assert_eq!(stat, tfx(0.0));
    // The p-value of a zero statistic is one.
    let free = k_freedom(&Constraint::NotEqualUnknown, 2).unwrap();
    assert_eq!(free, 1);
    let q = Query::Cdf(
        DistParams::ChiSquare { freedom: tfx(free as f64) },
        stat,
    );
    let p = upper_tail(eval_stat_query(&q), SolveError::NotValidChiSquared).unwrap();
    assert!(tval(p) > 0.999);
}

#[test]
fn k_sample_statistic_exact_value() {
    // One group: mean 2, reference 1, deviation 2, size 4:
    // (2-1)^2 / (4/4) = 1.
    let means = vec![tfx(2.0)];
    let devs = vec![tfx(2.0)];
    let sizes = vec![4usize];
    let stat = k_statistic(&means, &devs, &sizes, tfx(1.0)).unwrap();
    assert_eq!(stat, tfx(1.0));
}

#[test]
fn k_freedom_hypothesis_forms() {
    assert_eq!(k_freedom(&Constraint::NotEqual(tfx(0.0)), 3), Ok(3));
    assert_eq!(k_freedom(&Constraint::NotEqualUnknown, 3), Ok(2));
    assert_eq!(
        k_freedom(&Constraint::LessEq(tfx(0.0)), 3),
        Err(SolveError::NotValidHypothesis)
    );
}

#[test]
fn std_err_and_welch_exact() {
    // dev1 = 1, n1 = 30, dev2 = 1.2, n2 = 30, all truncated at the sixth
    // decimal place.
    let se2 = std_err_sq(tfx(1.0), 30, tfx(1.2), 30).unwrap();
    assert_eq!(se2.raw, 33333 + 48000);
    let df = welch_freedom(tfx(1.0), 30, tfx(1.2), 30).unwrap();
    assert_eq!(df.raw, 56538461);
    assert!(std_err_sq(tfx(1.0), 0, tfx(1.0), 30).is_err());
}

#[test]
fn z_interval_around_default_sample() {
    // mean 0, deviation 1, thirty observations, 95 percent confidence.
    let root = eval_stat_query(&Query::Sqrt(tfx(30.0)));
    let se = se_from_sqrt(tfx(1.0), root, SolveError::NotValidNormal).unwrap();
    let params = normal_params(tfx(0.0), Some(se), SolveError::NotValidNormal).unwrap();
    let (qlo, qhi) = interval_queries(params, tfx(0.95)).unwrap();
    let lo = eval_stat_query(&qlo).unwrap();
    let hi = eval_stat_query(&qhi).unwrap();
    assert!((tval(lo) + 0.3578).abs() < 1e-3);
    assert!((tval(hi) - 0.3578).abs() < 1e-3);
    let (b_lo, b_hi) = confidence_bounds(tfx(0.95)).unwrap();
    assert_eq!(b_lo, tfx(0.025));
    assert_eq!(b_hi, tfx(0.975));
}

#[test]
fn hypothesis_pvalue_two_sided() {
    // Observed mean 0 against a two-sided bound of 0.2 with standard
    // error 0.182574: p = 2 * (1 - cdf(0.2)).
    let root = eval_stat_query(&Query::Sqrt(tfx(30.0)));
    let se = se_from_sqrt(tfx(1.0), root, SolveError::NotValidNormal).unwrap();
    let params = normal_params(tfx(0.0), Some(se), SolveError::NotValidNormal).unwrap();
    let (q, kind) = hyp_pvalue_plan(params, &Constraint::NotEqual(tfx(0.2)), tfx(0.0)).unwrap();
    assert_eq!(kind, HypKind::TwoMinusDouble);
    let p = hyp_pvalue_finish(kind, eval_stat_query(&q), SolveError::NotValidNormal).unwrap();
    let expect = 2.0 * (1.0 - statrs::distribution::Normal::new(0.0, 0.182574).unwrap().cdf(0.2));
    assert!((tval(p) - expect).abs() < 1e-3);
    // One-sided forms.
    let (_, k2) = hyp_pvalue_plan(params, &Constraint::GreaterEq(tfx(0.2)), tfx(0.0)).unwrap();
    assert_eq!(k2, HypKind::Plain);
    let (_, k3) = hyp_pvalue_plan(params, &Constraint::LessThan(tfx(0.2)), tfx(0.0)).unwrap();
    assert_eq!(k3, HypKind::OneMinus);
    assert!(hyp_pvalue_plan(params, &Constraint::Unset, tfx(0.0)).is_err());
}

#[test]
fn variance_one_sample_plan() {
    let (q, kind) = var_one_pvalue_plan(tfx(1.0), 30, &Constraint::NotEqual(tfx(1.1))).unwrap();
    assert_eq!(kind, HypKind::Double);
    match q {
        Query::Cdf(DistParams::ChiSquare { freedom }, pt) => {
            assert_eq!(freedom, tfx(29.0));
            // err = 29 * 1, point = 29 / 1.21.
            assert!((tval(pt) - 29.0 / 1.21).abs() < 1e-4);
        }
        _ => panic!("not a chi-squared query"),
    }
    assert!(var_one_pvalue_plan(tfx(1.0), 1, &Constraint::NotEqual(tfx(1.0))).is_err());
}

#[test]
fn variance_two_sample_pieces() {
    let params = fisher_params(30, 25).unwrap();
    match params {
        DistParams::Fisher { freedom1, freedom2 } => {
            assert_eq!(freedom1, tfx(29.0));
            assert_eq!(freedom2, tfx(24.0));
        }
        _ => panic!("not F parameters"),
    }
    assert_eq!(fisher_params(1, 25), Err(SolveError::NotValidF));
    let r = var_ratio(tfx(1.0), tfx(1.2)).unwrap();
    assert_eq!(r.raw, 694444);
    let (q2, k2) = var_two_pvalue_plan(tfx(1.0), 30, tfx(1.2), 25, &Constraint::NotEqual(tfx(1.0)))
        .unwrap();
    assert_eq!(k2, HypKind::Double);
    match q2 {
        Query::Cdf(DistParams::Fisher { freedom1, freedom2 }, pt) => {
            assert_eq!(freedom1, tfx(29.0));
            assert_eq!(freedom2, tfx(24.0));
            assert_eq!(pt.raw, 694444);
        }
        _ => panic!("not an F query"),
    }
    let (vlo, vhi) = ratio_bounds(
        tfx(2.0),
        Some(tfx(0.5)),
        Some(tfx(4.0)),
        SolveError::NotValidF,
    )
    .unwrap();
    assert_eq!(vlo, tfx(0.5));
    assert_eq!(vhi, tfx(4.0));
}

#[test]
fn finite_population_pieces() {
    let c = finite_correction(20, 1).unwrap();
    assert_eq!(c, tfx(1.0));
    let c2 = finite_correction(21, 6).unwrap();
    assert_eq!(c2, tfx(0.75));
    let v = finite_sample_var(tfx(2.0), tfx(0.75), 3).unwrap();
    assert_eq!(v, tfx(1.0));
}

#[test]
fn sample_summary_statistics() {
    let vals = vec![Some(tfx(1.0)), Some(tfx(2.0)), Some(tfx(3.0))];
    let (mean, var, q) = opencrunch::stats::sample_stats(&vals).unwrap();
    assert_eq!(mean, tfx(2.0));
    assert_eq!(var, tfx(1.0));
    assert_eq!(q, Query::Sqrt(tfx(1.0)));
    // Blank entries count toward neither the sum nor the divisor.
    let mixed = vec![Some(tfx(1.0)), None, Some(tfx(3.0))];
    let (m2, v2, _) = opencrunch::stats::sample_stats(&mixed).unwrap();
    assert_eq!(m2, tfx(2.0));
    assert_eq!(v2, tfx(2.0));
    let short = vec![Some(tfx(1.0))];
    assert_eq!(
        opencrunch::stats::sample_stats(&short),
        Err(SolveError::NotEnoughValues)
    );
}

#[test]
fn grid_shape_and_fill() {
    let g: Vec<Vec<Option<Fx>>> = vec![
        vec![Some(tfx(1.0)), Some(tfx(2.0)), None],
        vec![Some(tfx(3.0)), None, None],
    ];
    assert_eq!(get_fill_shape(&g), (2, 2));
    assert!(!get_all_fill(&g, (2, 2)));
    let full: Vec<Vec<Option<Fx>>> = vec![
        vec![Some(tfx(1.0)), Some(tfx(2.0))],
        vec![Some(tfx(3.0)), Some(tfx(4.0))],
    ];
    assert!(get_all_fill(&full, (2, 2)));
    assert_eq!(get_shape(&full), (2, 2));
    let empty: Vec<Vec<Option<Fx>>> = vec![];
    assert_eq!(get_fill_shape(&empty), (0, 0));
}

#[test]
fn grid_grow_and_shrink() {
    let mut g: Vec<Vec<Option<Fx>>> = vec![];
    add_row(&mut g);
    assert_eq!(g.len(), 1);
    assert_eq!(g[0].len(), 0);
    add_col(&mut g);
    assert_eq!(g[0].len(), 1);
    add_row(&mut g);
    assert_eq!(g.len(), 2);
    assert_eq!(g[1].len(), 1);
    rem_col(&mut g);
    assert_eq!(g[0].len(), 0);
    rem_row(&mut g);
    assert_eq!(g.len(), 1);
}

#[test]
fn contingency_independent_table() {
    // Rows proportional to columns: the statistic is near zero and the
    // p-value near one.
    let g: Vec<Vec<Option<Fx>>> = vec![
        vec![Some(tfx(10.0)), Some(tfx(20.0))],
        vec![Some(tfx(30.0)), Some(tfx(60.0))],
    ];
    let plan = rc_test_plan(&g).unwrap();
    assert_eq!((plan.width, plan.height), (2, 2));
    assert_eq!(plan.freedom, 1);
    assert!(tval(plan.statistic).abs() < 1e-3);
    let p = upper_tail(eval_stat_query(&plan.query), SolveError::NotValidChiSquared).unwrap();
    assert!(tval(p) > 0.97);
}

#[test]
fn contingency_skewed_table() {
    let g: Vec<Vec<Option<Fx>>> = vec![
        vec![Some(tfx(50.0)), Some(tfx(10.0))],
        vec![Some(tfx(10.0)), Some(tfx(50.0))],
    ];
    let plan = rc_test_plan(&g).unwrap();
    assert!(tval(plan.statistic) > 20.0);
    let p = upper_tail(eval_stat_query(&plan.query), SolveError::NotValidChiSquared).unwrap();
    assert!(tval(p) < 0.01);
}

#[test]
fn contingency_incomplete_table() {
    let g: Vec<Vec<Option<Fx>>> = vec![
        vec![Some(tfx(1.0)), None, Some(tfx(2.0))],
        vec![Some(tfx(3.0)), Some(tfx(4.0)), Some(tfx(5.0))],
    ];
    assert_eq!(rc_test_plan(&g), Err(SolveError::IncompleteTable));
    let empty: Vec<Vec<Option<Fx>>> = vec![vec![None, None]];
    assert_eq!(rc_test_plan(&empty), Err(SolveError::TableTooSmall));
}
