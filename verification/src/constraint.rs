//! Typed knowledge about one numeric quantity.
//!
//! A [`Constraint`] is either a comparison against known bounds, a bare
//! operator whose magnitude is still unknown (the slot to solve for), or
//! `Unset`. The textual forms are `>=3`, `<=3`, `>3`, `<3`, `==3`, `!=3`,
//! `[a,b]`, `]a,b[`, a bare operator, a bare number (read as `==`), and the
//! empty string for `Unset`. Parsing and formatting are exact inverses,
//! which [`lemma_parse_format_round_trip`] proves.

use vstd::prelude::*;

use crate::error::ParseError;
use crate::numfmt::lemma_fmt_shape;
use crate::numfmt::lemma_parse_fmt_round_trip;
use crate::fixed::Fx;
use crate::numfmt::fmt_fx;
use crate::numfmt::is_digit;
use crate::numfmt::parse_fx;
use crate::numfmt::spec_fmt_raw;
use crate::numfmt::spec_parse_num;

verus! {

/// Knowledge about one numeric quantity.
#[derive(Clone, Copy, PartialEq, Eq, Structural, Debug)]
pub enum Constraint {
    GreaterEq(Fx),
    LessEq(Fx),
    GreaterThan(Fx),
    LessThan(Fx),
    Equal(Fx),
    NotEqual(Fx),
    /// Both bounds included.
    Between(Fx, Fx),
    /// The open complement of a range.
    Outside(Fx, Fx),
    GreaterEqUnknown,
    LessEqUnknown,
    GreaterThanUnknown,
    LessThanUnknown,
    EqualUnknown,
    NotEqualUnknown,
    Unset,
}

/// The index of the first occurrence of `c` in `s` at or after `i`, or `-1`.
pub open spec fn first_from(s: Seq<char>, i: int, c: char) -> int
    decreases s.len() - i,
{
    if i < 0 || i >= s.len() {
        -1
    } else if s[i] == c {
        i
    } else {
        first_from(s, i + 1, c)
    }
}

proof fn lemma_first_from_at(s: Seq<char>, i: int, k: int, c: char)
    requires
        0 <= i <= k < s.len(),
        s[k] == c,
        forall|j: int| i <= j < k ==> #[trigger] s[j] != c,
    ensures
        first_from(s, i, c) == k,
    decreases k - i,
{
    if i < k {
        lemma_first_from_at(s, i + 1, k, c);
    }
}

proof fn lemma_first_from_none(s: Seq<char>, i: int, c: char)
    requires
        0 <= i,
        forall|j: int| i <= j < s.len() ==> #[trigger] s[j] != c,
    ensures
        first_from(s, i, c) == -1,
    decreases s.len() - i,
{
    if i < s.len() {
        lemma_first_from_none(s, i + 1, c);
    }
}

impl Constraint {
    /// Whether the quantity is known: not `Unset` and not a bare operator.
    pub open spec fn spec_has_value(self) -> bool {
        !matches!(
            self,
            Constraint::Unset
                | Constraint::GreaterEqUnknown
                | Constraint::LessEqUnknown
                | Constraint::GreaterThanUnknown
                | Constraint::LessThanUnknown
                | Constraint::EqualUnknown
                | Constraint::NotEqualUnknown
        )
    }

    /// Whether the quantity is known: not `Unset` and not a bare operator.
    pub fn has_value(&self) -> (r: bool)
        ensures
            r == self.spec_has_value(),
    {
        !matches!(
            self,
            Constraint::Unset
                | Constraint::GreaterEqUnknown
                | Constraint::LessEqUnknown
                | Constraint::GreaterThanUnknown
                | Constraint::LessThanUnknown
                | Constraint::EqualUnknown
                | Constraint::NotEqualUnknown
        )
    }

    /// Whether this is an equality form (`==` or `!=`, known or not).
    pub open spec fn spec_is_eq(self) -> bool {
        matches!(
            self,
            Constraint::Equal(_)
                | Constraint::NotEqual(_)
                | Constraint::EqualUnknown
                | Constraint::NotEqualUnknown
        )
    }

    /// Whether this is an equality form (`==` or `!=`, known or not).
    pub fn is_eq(&self) -> (r: bool)
        ensures
            r == self.spec_is_eq(),
    {
        matches!(
            self,
            Constraint::Equal(_)
                | Constraint::NotEqual(_)
                | Constraint::EqualUnknown
                | Constraint::NotEqualUnknown
        )
    }

    /// Whether this is an inequality or range form, known or not.
    pub open spec fn spec_is_ineq(self) -> bool {
        matches!(
            self,
            Constraint::GreaterEq(_)
                | Constraint::LessEq(_)
                | Constraint::GreaterThan(_)
                | Constraint::LessThan(_)
                | Constraint::GreaterEqUnknown
                | Constraint::LessEqUnknown
                | Constraint::GreaterThanUnknown
                | Constraint::LessThanUnknown
                | Constraint::Between(_, _)
                | Constraint::Outside(_, _)
        )
    }

    /// Whether this is an inequality or range form, known or not.
    pub fn is_ineq(&self) -> (r: bool)
        ensures
            r == self.spec_is_ineq(),
    {
        matches!(
            self,
            Constraint::GreaterEq(_)
                | Constraint::LessEq(_)
                | Constraint::GreaterThan(_)
                | Constraint::LessThan(_)
                | Constraint::GreaterEqUnknown
                | Constraint::LessEqUnknown
                | Constraint::GreaterThanUnknown
                | Constraint::LessThanUnknown
                | Constraint::Between(_, _)
                | Constraint::Outside(_, _)
        )
    }

    /// Whether this is a range form.
    pub open spec fn spec_is_range(self) -> bool {
        matches!(self, Constraint::Between(_, _) | Constraint::Outside(_, _))
    }

    /// Whether this is a range form.
    pub fn is_range(&self) -> (r: bool)
        ensures
            r == self.spec_is_range(),
    {
        matches!(self, Constraint::Between(_, _) | Constraint::Outside(_, _))
    }

    /// The single representative number, defined only for the equality forms.
    pub open spec fn spec_as_value(self) -> Option<Fx> {
        match self {
            Constraint::Equal(v) => Some(v),
            Constraint::NotEqual(v) => Some(v),
            _ => None,
        }
    }

    /// The single representative number, defined only for the equality forms.
    pub fn as_value(&self) -> (r: Option<Fx>)
        ensures
            r == self.spec_as_value(),
    {
        match self {
            Constraint::Equal(v) => Some(*v),
            Constraint::NotEqual(v) => Some(*v),
            _ => None,
        }
    }

    /// Whether the number with `x` millionths satisfies this constraint.
    /// `Unset` matches everything; a bare operator matches nothing.
    pub open spec fn spec_matches(self, x: int) -> bool {
        match self {
            Constraint::GreaterEq(v) => x >= v.raw,
            Constraint::LessEq(v) => x <= v.raw,
            Constraint::GreaterThan(v) => x > v.raw,
            Constraint::LessThan(v) => x < v.raw,
            Constraint::Equal(v) => x == v.raw,
            Constraint::NotEqual(v) => x != v.raw,
            Constraint::Between(a, b) => x >= a.raw && x <= b.raw,
            Constraint::Outside(a, b) => x < a.raw || x > b.raw,
            Constraint::Unset => true,
            _ => false,
        }
    }

    /// Whether `val` satisfies this constraint. `Unset` matches everything;
    /// a bare operator matches nothing.
    pub fn matches(&self, val: Fx) -> (r: bool)
        ensures
            r == self.spec_matches(val.raw as int),
    {
        match self {
            Constraint::GreaterEq(v) => val.ge(*v),
            Constraint::LessEq(v) => val.le(*v),
            Constraint::GreaterThan(v) => val.gt(*v),
            Constraint::LessThan(v) => val.lt(*v),
            Constraint::Equal(v) => val == *v,
            Constraint::NotEqual(v) => !(val == *v),
            Constraint::Between(a, b) => val.ge(*a) && val.le(*b),
            Constraint::Outside(a, b) => val.lt(*a) || val.gt(*b),
            Constraint::Unset => true,
            _ => false,
        }
    }

    /// The canonical text of this constraint.
    pub open spec fn spec_format(self) -> Seq<char> {
        match self {
            Constraint::GreaterEq(v) => seq!['>', '='] + spec_fmt_raw(v.raw as int),
            Constraint::LessEq(v) => seq!['<', '='] + spec_fmt_raw(v.raw as int),
            Constraint::GreaterThan(v) => seq!['>'] + spec_fmt_raw(v.raw as int),
            Constraint::LessThan(v) => seq!['<'] + spec_fmt_raw(v.raw as int),
            Constraint::Equal(v) => seq!['=', '='] + spec_fmt_raw(v.raw as int),
            Constraint::NotEqual(v) => seq!['!', '='] + spec_fmt_raw(v.raw as int),
            Constraint::Between(a, b) => seq!['['] + spec_fmt_raw(a.raw as int) + seq![',']
                + spec_fmt_raw(b.raw as int) + seq![']'],
            Constraint::Outside(a, b) => seq![']'] + spec_fmt_raw(a.raw as int) + seq![',']
                + spec_fmt_raw(b.raw as int) + seq!['['],
            Constraint::GreaterEqUnknown => seq!['>', '='],
            Constraint::LessEqUnknown => seq!['<', '='],
            Constraint::GreaterThanUnknown => seq!['>'],
            Constraint::LessThanUnknown => seq!['<'],
            Constraint::EqualUnknown => seq!['='],
            Constraint::NotEqualUnknown => seq!['!', '='],
            Constraint::Unset => Seq::empty(),
        }
    }

    /// The text `s` read as a constraint, by the grammar above.
    pub open spec fn spec_parse(s: Seq<char>) -> Result<Constraint, ParseError> {
        if s == seq!['>', '='] {
            Ok(Constraint::GreaterEqUnknown)
        } else if s == seq!['>'] {
            Ok(Constraint::GreaterThanUnknown)
        } else if s == seq!['<'] {
            Ok(Constraint::LessThanUnknown)
        } else if s == seq!['<', '='] {
            Ok(Constraint::LessEqUnknown)
        } else if s == seq!['!', '='] {
            Ok(Constraint::NotEqualUnknown)
        } else if s == seq!['='] {
            Ok(Constraint::EqualUnknown)
        } else if s.len() >= 2 && s[0] == '>' && s[1] == '=' {
            match spec_parse_num(s.subrange(2, s.len() as int)) {
                Some(v) => Ok(Constraint::GreaterEq(v)),
                None => Err(ParseError::InvalidInput),
            }
        } else if s.len() >= 2 && s[0] == '<' && s[1] == '=' {
            match spec_parse_num(s.subrange(2, s.len() as int)) {
                Some(v) => Ok(Constraint::LessEq(v)),
                None => Err(ParseError::InvalidInput),
            }
        } else if s.len() >= 2 && s[0] == '=' && s[1] == '=' {
            match spec_parse_num(s.subrange(2, s.len() as int)) {
                Some(v) => Ok(Constraint::Equal(v)),
                None => Err(ParseError::InvalidInput),
            }
        } else if s.len() >= 2 && s[0] == '!' && s[1] == '=' {
            match spec_parse_num(s.subrange(2, s.len() as int)) {
                Some(v) => Ok(Constraint::NotEqual(v)),
                None => Err(ParseError::InvalidInput),
            }
        } else if s.len() >= 1 && s[0] == '>' {
            match spec_parse_num(s.subrange(1, s.len() as int)) {
                Some(v) => Ok(Constraint::GreaterThan(v)),
                None => Err(ParseError::InvalidInput),
            }
        } else if s.len() >= 1 && s[0] == '<' {
            match spec_parse_num(s.subrange(1, s.len() as int)) {
                Some(v) => Ok(Constraint::LessThan(v)),
                None => Err(ParseError::InvalidInput),
            }
        } else if s.len() >= 1 && s[0] == '=' {
            match spec_parse_num(s.subrange(1, s.len() as int)) {
                Some(v) => Ok(Constraint::Equal(v)),
                None => Err(ParseError::InvalidInput),
            }
        } else if s.len() >= 1 && s[0] == '[' {
            let k = first_from(s, 1, ',');
            if k < 0 {
                Err(ParseError::CommaExpected)
            } else {
                let e = first_from(s, k, ']');
                if e < 0 {
                    Err(ParseError::EndBracketExpected)
                } else if e != s.len() - 1 {
                    Err(ParseError::InvalidInput)
                } else {
                    match (spec_parse_num(s.subrange(1, k)), spec_parse_num(
                        s.subrange(k + 1, e),
                    )) {
                        (Some(a), Some(b)) => Ok(Constraint::Between(a, b)),
                        _ => Err(ParseError::InvalidInput),
                    }
                }
            }
        } else if s.len() >= 1 && s[0] == ']' {
            let k = first_from(s, 1, ',');
            if k < 0 {
                Err(ParseError::CommaExpected)
            } else {
                let e = first_from(s, k, '[');
                if e < 0 {
                    Err(ParseError::EndBracketOutExpected)
                } else if e != s.len() - 1 {
                    Err(ParseError::InvalidInput)
                } else {
                    match (spec_parse_num(s.subrange(1, k)), spec_parse_num(
                        s.subrange(k + 1, e),
                    )) {
                        (Some(a), Some(b)) => Ok(Constraint::Outside(a, b)),
                        _ => Err(ParseError::InvalidInput),
                    }
                }
            }
        } else {
            match spec_parse_num(s) {
                Some(v) => Ok(Constraint::Equal(v)),
                None => if s.len() == 0 {
                    Ok(Constraint::Unset)
                } else {
                    Err(ParseError::NotAConstraint)
                },
            }
        }
    }

    /// Renders this constraint as its canonical text.
    pub fn format(&self) -> (r: String)
        ensures
            r@ == self.spec_format(),
    {
        proof {
            reveal_strlit(">=");
            reveal_strlit("<=");
            reveal_strlit("==");
            reveal_strlit("!=");
            reveal_strlit(">");
            reveal_strlit("<");
            reveal_strlit("=");
            reveal_strlit("[");
            reveal_strlit("]");
            reveal_strlit(",");
        }
        match self {
            Constraint::GreaterEq(v) => {
                let mut s = String::from_str(">=");
                s.append(fmt_fx(*v).as_str());
                proof {
                    assert(s@ =~= self.spec_format());
                }
                s
            },
            Constraint::LessEq(v) => {
                let mut s = String::from_str("<=");
                s.append(fmt_fx(*v).as_str());
                proof {
                    assert(s@ =~= self.spec_format());
                }
                s
            },
            Constraint::GreaterThan(v) => {
                let mut s = String::from_str(">");
                s.append(fmt_fx(*v).as_str());
                proof {
                    assert(s@ =~= self.spec_format());
                }
                s
            },
            Constraint::LessThan(v) => {
                let mut s = String::from_str("<");
                s.append(fmt_fx(*v).as_str());
                proof {
                    assert(s@ =~= self.spec_format());
                }
                s
            },
            Constraint::Equal(v) => {
                let mut s = String::from_str("==");
                s.append(fmt_fx(*v).as_str());
                proof {
                    assert(s@ =~= self.spec_format());
                }
                s
            },
            Constraint::NotEqual(v) => {
                let mut s = String::from_str("!=");
                s.append(fmt_fx(*v).as_str());
                proof {
                    assert(s@ =~= self.spec_format());
                }
                s
            },
            Constraint::Between(a, b) => {
                let mut s = String::from_str("[");
                s.append(fmt_fx(*a).as_str());
                s.append(",");
                s.append(fmt_fx(*b).as_str());
                s.append("]");
                proof {
                    assert(s@ =~= self.spec_format());
                }
                s
            },
            Constraint::Outside(a, b) => {
                let mut s = String::from_str("]");
                s.append(fmt_fx(*a).as_str());
                s.append(",");
                s.append(fmt_fx(*b).as_str());
                s.append("[");
                proof {
                    assert(s@ =~= self.spec_format());
                }
                s
            },
            Constraint::GreaterEqUnknown => {
                let s = String::from_str(">=");
                proof {
                    assert(s@ =~= self.spec_format());
                }
                s
            },
            Constraint::LessEqUnknown => {
                let s = String::from_str("<=");
                proof {
                    assert(s@ =~= self.spec_format());
                }
                s
            },
            Constraint::GreaterThanUnknown => {
                let s = String::from_str(">");
                proof {
                    assert(s@ =~= self.spec_format());
                }
                s
            },
            Constraint::LessThanUnknown => {
                let s = String::from_str("<");
                proof {
                    assert(s@ =~= self.spec_format());
                }
                s
            },
            Constraint::EqualUnknown => {
                let s = String::from_str("=");
                proof {
                    assert(s@ =~= self.spec_format());
                }
                s
            },
            Constraint::NotEqualUnknown => {
                let s = String::from_str("!=");
                proof {
                    assert(s@ =~= self.spec_format());
                }
                s
            },
            Constraint::Unset => {
                let s = String::new();
                proof {
                    assert(s@ =~= self.spec_format());
                }
                s
            },
        }
    }
}

fn find_char(s: &str, from: usize, c: char) -> (r: Option<usize>)
    requires
        from <= s@.len(),
    ensures
        match r {
            Some(k) => from <= k < s@.len() && s@[k as int] == c && first_from(
                s@,
                from as int,
                c,
            ) == k,
            None => first_from(s@, from as int, c) == -1,
        },
{
    let len = s.unicode_len();
    let mut i: usize = from;
    while i < len
        invariant
            from <= i <= len == s@.len(),
            forall|j: int| from <= j < i ==> #[trigger] s@[j] != c,
        decreases len - i,
    {
        if s.get_char(i) == c {
            proof {
                lemma_first_from_at(s@, from as int, i as int, c);
            }
            return Some(i);
        }
        i = i + 1;
    }
    proof {
        lemma_first_from_none(s@, from as int, c);
    }
    None
}

impl Constraint {
    /// Reads constraint text. A bare number is an equality; the empty
    /// string is `Unset`; any other unrecognized text is an error.
    pub fn parse(s: &str) -> (r: Result<Constraint, ParseError>)
        ensures
            r == Self::spec_parse(s@),
    {
        let len = s.unicode_len();
        if len == 1 {
            let c0 = s.get_char(0);
            if c0 == '>' {
                proof {
                    assert(s@ =~= seq!['>']);
                }
                return Ok(Constraint::GreaterThanUnknown);
            }
            if c0 == '<' {
                proof {
                    assert(s@ =~= seq!['<']);
                }
                return Ok(Constraint::LessThanUnknown);
            }
            if c0 == '=' {
                proof {
                    assert(s@ =~= seq!['=']);
                }
                return Ok(Constraint::EqualUnknown);
            }
        }
        if len == 2 {
            let c0 = s.get_char(0);
            let c1 = s.get_char(1);
            if c0 == '>' && c1 == '=' {
                proof {
                    assert(s@ =~= seq!['>', '=']);
                }
                return Ok(Constraint::GreaterEqUnknown);
            }
            if c0 == '<' && c1 == '=' {
                proof {
                    assert(s@ =~= seq!['<', '=']);
                }
                return Ok(Constraint::LessEqUnknown);
            }
            if c0 == '!' && c1 == '=' {
                proof {
                    assert(s@ =~= seq!['!', '=']);
                }
                return Ok(Constraint::NotEqualUnknown);
            }
        }
        if len >= 2 {
            let c0 = s.get_char(0);
            let c1 = s.get_char(1);
            if c1 == '=' && (c0 == '>' || c0 == '<' || c0 == '=' || c0 == '!') {
                let payload = s.substring_char(2, len);
                let num = parse_fx(payload);
                return match (num, c0) {
                    (Some(v), '>') => Ok(Constraint::GreaterEq(v)),
                    (Some(v), '<') => Ok(Constraint::LessEq(v)),
                    (Some(v), '=') => Ok(Constraint::Equal(v)),
                    (Some(v), _) => Ok(Constraint::NotEqual(v)),
                    (None, _) => Err(ParseError::InvalidInput),
                };
            }
        }
        if len >= 1 {
            let c0 = s.get_char(0);
            if c0 == '>' || c0 == '<' || c0 == '=' {
                let payload = s.substring_char(1, len);
                let num = parse_fx(payload);
                return match (num, c0) {
                    (Some(v), '>') => Ok(Constraint::GreaterThan(v)),
                    (Some(v), '<') => Ok(Constraint::LessThan(v)),
                    (Some(v), _) => Ok(Constraint::Equal(v)),
                    (None, _) => Err(ParseError::InvalidInput),
                };
            }
            if c0 == '[' || c0 == ']' {
                let k = match find_char(s, 1, ',') {
                    Some(k) => k,
                    None => {
                        return Err(ParseError::CommaExpected);
                    },
                };
                let close = if c0 == '[' {
                    ']'
                } else {
                    '['
                };
                let e = match find_char(s, k, close) {
                    Some(e) => e,
                    None => {
                        return Err(if c0 == '[' {
                            ParseError::EndBracketExpected
                        } else {
                            ParseError::EndBracketOutExpected
                        });
                    },
                };
                if e != len - 1 {
                    return Err(ParseError::InvalidInput);
                }
                let a = parse_fx(s.substring_char(1, k));
                let b = parse_fx(s.substring_char(k + 1, e));
                return match (a, b) {
                    (Some(a), Some(b)) => if c0 == '[' {
                        Ok(Constraint::Between(a, b))
                    } else {
                        Ok(Constraint::Outside(a, b))
                    },
                    _ => Err(ParseError::InvalidInput),
                };
            }
        }
        proof {
            if s@.len() >= 1 {
                assert(s@.subrange(0, s@.len() as int) =~= s@);
            }
        }
        match parse_fx(s) {
            Some(v) => Ok(Constraint::Equal(v)),
            None => if len == 0 {
                Ok(Constraint::Unset)
            } else {
                Err(ParseError::NotAConstraint)
            },
        }
    }
}

/// Reading back the canonical text of any constraint gives exactly that
/// constraint: `parse(format(c)) == Ok(c)`.
pub proof fn lemma_parse_format_round_trip(c: Constraint)
    ensures
        Constraint::spec_parse(c.spec_format()) == Result::<Constraint, ParseError>::Ok(c),
{
    let s = c.spec_format();
    match c {
        Constraint::GreaterEq(v) => {
            lemma_fmt_shape(v.raw as int);
            lemma_parse_fmt_round_trip(v);
            assert(s.subrange(2, s.len() as int) =~= spec_fmt_raw(v.raw as int));
        },
        Constraint::LessEq(v) => {
            lemma_fmt_shape(v.raw as int);
            lemma_parse_fmt_round_trip(v);
            assert(s.subrange(2, s.len() as int) =~= spec_fmt_raw(v.raw as int));
        },
        Constraint::Equal(v) => {
            lemma_fmt_shape(v.raw as int);
            lemma_parse_fmt_round_trip(v);
            assert(s.subrange(2, s.len() as int) =~= spec_fmt_raw(v.raw as int));
        },
        Constraint::NotEqual(v) => {
            lemma_fmt_shape(v.raw as int);
            lemma_parse_fmt_round_trip(v);
            assert(s.subrange(2, s.len() as int) =~= spec_fmt_raw(v.raw as int));
        },
        Constraint::GreaterThan(v) => {
            lemma_fmt_shape(v.raw as int);
            lemma_parse_fmt_round_trip(v);
            let n = spec_fmt_raw(v.raw as int);
            assert(s[1] == n[0]);
            assert(s.subrange(1, s.len() as int) =~= n);
        },
        Constraint::LessThan(v) => {
            lemma_fmt_shape(v.raw as int);
            lemma_parse_fmt_round_trip(v);
            let n = spec_fmt_raw(v.raw as int);
            assert(s[1] == n[0]);
            assert(s.subrange(1, s.len() as int) =~= n);
        },
        Constraint::Between(a, b) => {
            lemma_round_trip_range(a, b, '[', ']');
        },
        Constraint::Outside(a, b) => {
            lemma_round_trip_range(a, b, ']', '[');
        },
        Constraint::GreaterEqUnknown => {
        },
        Constraint::LessEqUnknown => {
        },
        Constraint::GreaterThanUnknown => {
        },
        Constraint::LessThanUnknown => {
        },
        Constraint::EqualUnknown => {
        },
        Constraint::NotEqualUnknown => {
        },
        Constraint::Unset => {
        },
    }
}

proof fn lemma_round_trip_range(a: Fx, b: Fx, open_c: char, close_c: char)
    requires
        (open_c == '[' && close_c == ']') || (open_c == ']' && close_c == '['),
    ensures
        open_c == '[' ==> Constraint::spec_parse(Constraint::Between(a, b).spec_format())
            == Result::<Constraint, ParseError>::Ok(Constraint::Between(a, b)),
        open_c == ']' ==> Constraint::spec_parse(Constraint::Outside(a, b).spec_format())
            == Result::<Constraint, ParseError>::Ok(Constraint::Outside(a, b)),
{
    let cc = if open_c == '[' {
        Constraint::Between(a, b)
    } else {
        Constraint::Outside(a, b)
    };
    let s = cc.spec_format();
    let na = spec_fmt_raw(a.raw as int);
    let nb = spec_fmt_raw(b.raw as int);
    lemma_fmt_shape(a.raw as int);
    lemma_fmt_shape(b.raw as int);
    lemma_parse_fmt_round_trip(a);
    lemma_parse_fmt_round_trip(b);
    assert(s =~= seq![open_c] + na + seq![','] + nb + seq![close_c]);
    let la = na.len() as int;
    let lb = nb.len() as int;
    let k = 1 + la;
    let e = k + 1 + lb;
    assert(s.len() == e + 1);
    assert(s[0] == open_c);
    assert(s[k] == ',');
    assert(s[e] == close_c);
    assert(forall|i: int| 0 <= i < la ==> #[trigger] s[1 + i] == na[i]);
    assert(forall|i: int| 0 <= i < lb ==> #[trigger] s[k + 1 + i] == nb[i]);
    assert(forall|j: int| 1 <= j < k ==> #[trigger] s[j] != ',') by {
        assert(forall|i: int|
            0 <= i < la ==> (#[trigger] na[i] == '-' || na[i] == '.' || is_digit(na[i])));
    }
    lemma_first_from_at(s, 1, k, ',');
    assert(forall|j: int| k <= j < e ==> #[trigger] s[j] != close_c) by {
        assert(forall|i: int|
            0 <= i < lb ==> (#[trigger] nb[i] == '-' || nb[i] == '.' || is_digit(nb[i])));
    }
    lemma_first_from_at(s, k, e, close_c);
    assert(s.subrange(1, k) =~= na);
    assert(s.subrange(k + 1, e) =~= nb);
}

} // verus!
