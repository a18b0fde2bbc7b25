use opencrunch::fixed::Fx;
use opencrunch::root::{FindZero, RootError, RootStep};

fn rfx(x: f64) -> Fx {
    Fx {
        raw: (x * 1_000_000.0).round() as i64,
    }
}

fn rval(v: Fx) -> f64 {
    v.raw as f64 / 1_000_000.0
}

fn drive<F: Fn(f64) -> Option<f64>>(f: F) -> Result<f64, RootError> {
    let (mut st, mut probe) = FindZero::start();
    for _ in 0..100000 {
        let ans = f(rval(probe)).map(rfx);
        match st.step(ans) {
            RootStep::Continue(s2, p2) => {
                st = s2;
                probe = p2;
            }
            RootStep::Done(v) => return Ok(rval(v)),
            RootStep::Fail(e) => return Err(e),
        }
    }
    panic!("the search did not terminate");
}

#[test]
fn root_no_bracket_when_undefined_everywhere() {
    assert_eq!(drive(|_| None), Err(RootError::NoBracket));
}

#[test]
fn root_no_sign_change_on_positive_function() {
    // A strictly positive function: the bounds double until one leaves
    // the representable range, then the search gives up.
    assert_eq!(drive(|_| Some(1.0)), Err(RootError::NoSignChange));
    assert_eq!(drive(|_| Some(-1.0)), Err(RootError::NoSignChange));
}

#[test]
fn root_finds_simple_zero() {
    let r = drive(|x| Some(x - 2.0)).unwrap();
    assert!((r - 2.0).abs() < 1e-4);
    let r2 = drive(|x| Some(x - 123.25)).unwrap();
    assert!((r2 - 123.25).abs() < 1e-3);
}

#[test]
fn root_expands_into_partial_domain() {
    // Undefined at the lower seed: the bound shrinks toward the upper one
    // until the function is defined, and the zero is still found.
    let r = drive(|x| if x <= 0.0 { None } else { Some(x.ln()) }).unwrap();
    assert!((r - 1.0).abs() < 1e-4);
}

#[test]
fn root_bracket_lost_when_domain_shrinks_too_far() {
    // Defined nowhere near the seeds even after a hundred shrinking
    // steps: reported as a missing bracket.
    let r = drive(|x| if x > 1e15 { Some(x) } else { None });
    assert_eq!(r, Err(RootError::NoBracket));
}
