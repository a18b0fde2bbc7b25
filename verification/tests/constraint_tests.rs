use opencrunch::constraint::Constraint;
use opencrunch::error::ParseError;
use opencrunch::fixed::Fx;
use opencrunch::numfmt::{fmt_fx, parse_fx};

fn fx(x: f64) -> Fx {
    Fx {
        raw: (x * 1_000_000.0).round() as i64,
    }
}

#[test]
fn number_format_basic() {
    assert_eq!(fmt_fx(fx(0.0)), "0.000000");
    assert_eq!(fmt_fx(fx(3.5)), "3.500000");
    assert_eq!(fmt_fx(fx(-2.25)), "-2.250000");
    assert_eq!(fmt_fx(Fx { raw: 1 }), "0.000001");
    assert_eq!(fmt_fx(Fx { raw: -1 }), "-0.000001");
}

#[test]
fn number_parse_basic() {
    assert_eq!(parse_fx("3.5"), Some(fx(3.5)));
    assert_eq!(parse_fx("3"), Some(fx(3.0)));
    assert_eq!(parse_fx("-2.25"), Some(fx(-2.25)));
    assert_eq!(parse_fx("0.000001"), Some(Fx { raw: 1 }));
    assert_eq!(parse_fx("007"), Some(fx(7.0)));
    assert_eq!(parse_fx("-0"), Some(fx(0.0)));
}

#[test]
fn number_parse_rejects() {
    assert_eq!(parse_fx(""), None);
    assert_eq!(parse_fx("."), None);
    assert_eq!(parse_fx("3."), None);
    assert_eq!(parse_fx(".5"), None);
    assert_eq!(parse_fx("1.2345678"), None);
    assert_eq!(parse_fx("abc"), None);
    assert_eq!(parse_fx("1e3"), None);
    assert_eq!(parse_fx("+5"), None);
    assert_eq!(parse_fx("1 2"), None);
}

#[test]
fn number_round_trip() {
    let samples = [0.0, 1.0, -1.0, 3.141592, -0.000001, 123456.789012];
    for &s in samples.iter() {
        let v = fx(s);
        assert_eq!(parse_fx(&fmt_fx(v)), Some(v));
    }
    let extremes = [Fx { raw: i64::MAX }, Fx { raw: i64::MIN }, Fx { raw: 0 }];
    for &v in extremes.iter() {
        assert_eq!(parse_fx(&fmt_fx(v)), Some(v));
    }
}

#[test]
fn constraint_round_trip_every_variant() {
    let a = fx(-1.5);
    let b = fx(2.25);
    let cases = [
        Constraint::GreaterEq(a),
        Constraint::LessEq(a),
        Constraint::GreaterThan(b),
        Constraint::LessThan(b),
        Constraint::Equal(a),
        Constraint::NotEqual(b),
        Constraint::Between(a, b),
        Constraint::Outside(a, b),
        Constraint::GreaterEqUnknown,
        Constraint::LessEqUnknown,
        Constraint::GreaterThanUnknown,
        Constraint::LessThanUnknown,
        Constraint::EqualUnknown,
        Constraint::NotEqualUnknown,
        Constraint::Unset,
    ];
    for &c in cases.iter() {
        assert_eq!(Constraint::parse(&c.format()), Ok(c));
    }
}

#[test]
fn constraint_parse_grammar() {
    assert_eq!(Constraint::parse(">=3.000000"), Ok(Constraint::GreaterEq(fx(3.0))));
    assert_eq!(Constraint::parse("<=3"), Ok(Constraint::LessEq(fx(3.0))));
    assert_eq!(Constraint::parse(">3"), Ok(Constraint::GreaterThan(fx(3.0))));
    assert_eq!(Constraint::parse("<3"), Ok(Constraint::LessThan(fx(3.0))));
    assert_eq!(Constraint::parse("==3"), Ok(Constraint::Equal(fx(3.0))));
    assert_eq!(Constraint::parse("=3"), Ok(Constraint::Equal(fx(3.0))));
    assert_eq!(Constraint::parse("3"), Ok(Constraint::Equal(fx(3.0))));
    assert_eq!(Constraint::parse("!=3"), Ok(Constraint::NotEqual(fx(3.0))));
    assert_eq!(
        Constraint::parse("[1.5,2.5]"),
        Ok(Constraint::Between(fx(1.5), fx(2.5)))
    );
    assert_eq!(
        Constraint::parse("]1.5,2.5["),
        Ok(Constraint::Outside(fx(1.5), fx(2.5)))
    );
    assert_eq!(Constraint::parse(""), Ok(Constraint::Unset));
    assert_eq!(Constraint::parse(">="), Ok(Constraint::GreaterEqUnknown));
    assert_eq!(Constraint::parse("<="), Ok(Constraint::LessEqUnknown));
    assert_eq!(Constraint::parse(">"), Ok(Constraint::GreaterThanUnknown));
    assert_eq!(Constraint::parse("<"), Ok(Constraint::LessThanUnknown));
    assert_eq!(Constraint::parse("="), Ok(Constraint::EqualUnknown));
    assert_eq!(Constraint::parse("!="), Ok(Constraint::NotEqualUnknown));
    assert_eq!(Constraint::parse("-1.5"), Ok(Constraint::Equal(fx(-1.5))));
}

#[test]
fn constraint_parse_errors() {
    assert_eq!(Constraint::parse(">=abc"), Err(ParseError::InvalidInput));
    assert_eq!(Constraint::parse("=="), Err(ParseError::InvalidInput));
    assert_eq!(Constraint::parse("abc"), Err(ParseError::NotAConstraint));
    assert_eq!(Constraint::parse("[1 2]"), Err(ParseError::CommaExpected));
    assert_eq!(Constraint::parse("[1,2"), Err(ParseError::EndBracketExpected));
    assert_eq!(Constraint::parse("]1,2"), Err(ParseError::EndBracketOutExpected));
    assert_eq!(Constraint::parse("[1,2]x"), Err(ParseError::InvalidInput));
    assert_eq!(
        Constraint::parse(">=abc").unwrap_err().message(),
        "Not a valid input"
    );
    assert_eq!(
        Constraint::parse("abc").unwrap_err().message(),
        "Not a valid constraint"
    );
}

#[test]
fn constraint_matches_cases() {
    let v2 = fx(2.0);
    let v3 = fx(3.0);
    assert!(Constraint::GreaterEq(v2).matches(v2));
    assert!(Constraint::GreaterEq(v2).matches(v3));
    assert!(!Constraint::GreaterThan(v2).matches(v2));
    assert!(Constraint::LessEq(v2).matches(v2));
    assert!(!Constraint::LessThan(v2).matches(v2));
    assert!(Constraint::Equal(v2).matches(v2));
    assert!(!Constraint::Equal(v2).matches(v3));
    assert!(Constraint::NotEqual(v2).matches(v3));
    assert!(Constraint::Between(v2, v3).matches(fx(2.5)));
    assert!(!Constraint::Between(v2, v3).matches(fx(3.5)));
    assert!(Constraint::Outside(v2, v3).matches(fx(3.5)));
    assert!(!Constraint::Outside(v2, v3).matches(fx(2.5)));
    assert!(Constraint::Unset.matches(v2));
    assert!(!Constraint::GreaterEqUnknown.matches(v2));
    assert!(!Constraint::EqualUnknown.matches(v2));
}

#[test]
fn constraint_value_predicates() {
    assert_eq!(Constraint::Equal(fx(1.0)).as_value(), Some(fx(1.0)));
    assert_eq!(Constraint::NotEqual(fx(1.0)).as_value(), Some(fx(1.0)));
    assert_eq!(Constraint::GreaterEq(fx(1.0)).as_value(), None);
    assert_eq!(Constraint::Between(fx(1.0), fx(2.0)).as_value(), None);
    assert!(Constraint::Equal(fx(1.0)).has_value());
    assert!(!Constraint::Unset.has_value());
    assert!(!Constraint::GreaterEqUnknown.has_value());
    assert!(Constraint::Between(fx(1.0), fx(2.0)).is_range());
    assert!(Constraint::Between(fx(1.0), fx(2.0)).is_ineq());
    assert!(Constraint::EqualUnknown.is_eq());
    assert!(!Constraint::LessThan(fx(1.0)).is_eq());
}

#[test]
fn fixed_arithmetic_exact() {
    assert_eq!(fx(1.5).try_add(fx(2.25)), Some(fx(3.75)));
    assert_eq!(fx(1.5).try_sub(fx(2.0)), Some(fx(-0.5)));
    assert_eq!(fx(1.5).try_mul(fx(2.0)), Some(fx(3.0)));
    assert_eq!(fx(3.0).try_div(fx(2.0)), Some(fx(1.5)));
    assert_eq!(fx(1.0).try_div(fx(0.0)), None);
    assert_eq!(Fx { raw: i64::MAX }.try_add(Fx { raw: 1 }), None);
    // Truncation toward zero at the sixth decimal place.
    assert_eq!(fx(1.0).try_div(fx(3.0)), Some(Fx { raw: 333333 }));
    assert_eq!(fx(-1.0).try_div(fx(3.0)), Some(Fx { raw: -333333 }));
}
