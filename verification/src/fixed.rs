//! Exact fixed-point numbers with six decimal places.
//!
//! Every numeric quantity of the library is an [`Fx`]: a signed count of
//! millionths held in an `i64`. All arithmetic is exact integer arithmetic;
//! an operation whose result does not fit the `i64` range reports that by
//! returning `None` instead of wrapping.

use vstd::prelude::*;

verus! {

/// Millionths per unit: the denominator of every [`Fx`].
pub const SCALE: i64 = 1_000_000;

/// A signed fixed-point number: the real value `raw / 1_000_000`.
#[derive(Clone, Copy, PartialEq, Eq, Structural, Debug)]
pub struct Fx {
    pub raw: i64,
}

/// Round-toward-zero integer division: the semantics of `/` on Rust's
/// machine integers (spec `/` alone is Euclidean).
pub open spec fn tdiv(x: int, d: int) -> int {
    if x == 0 {
        0
    } else if x > 0 && d > 0 {
        x / d
    } else if x < 0 && d < 0 {
        (x * -1) / (d * -1)
    } else if x < 0 {
        ((x * -1) / d) * -1
    } else {
        (x / (d * -1)) * -1
    }
}

proof fn lemma_i64_product_fits_i128(a: int, b: int)
    requires
        i64::MIN <= a <= i64::MAX,
        i64::MIN <= b <= i64::MAX,
    ensures
        i128::MIN <= a * b <= i128::MAX,
{
    assert(i128::MIN <= a * b <= i128::MAX) by (nonlinear_arith)
        requires
            -0x8000000000000000 <= a <= 0x7fffffffffffffff,
            -0x8000000000000000 <= b <= 0x7fffffffffffffff,
    ;
}

proof fn lemma_tdiv_bound(x: int, d: int, m: int)
    requires
        d > 0,
        m >= 0,
        -(d * m) <= x <= d * m,
    ensures
        -m <= tdiv(x, d) <= m,
{
    vstd::arithmetic::div_mod::lemma_div_multiples_vanish(m, d);
    if x >= 0 {
        vstd::arithmetic::div_mod::lemma_div_is_ordered(x, d * m, d);
        vstd::arithmetic::div_mod::lemma_div_pos_is_pos(x, d);
    } else {
        vstd::arithmetic::div_mod::lemma_div_is_ordered(-x, d * m, d);
        vstd::arithmetic::div_mod::lemma_div_pos_is_pos(-x, d);
    }
}

/// The product of an `i64` value and a `usize` value fits an `i128`.
pub proof fn lemma_i64_times_usize_fits(a: int, n: int)
    requires
        i64::MIN <= a <= i64::MAX,
        0 <= n <= 0xffffffffffffffff,
    ensures
        i128::MIN <= a * n <= i128::MAX,
{
    assert(i128::MIN <= a * n <= i128::MAX) by (nonlinear_arith)
        requires
            -0x8000000000000000 <= a <= 0x7fffffffffffffff,
            0 <= n <= 0xffffffffffffffff,
    ;
}

/// A quotient whose dividend is bounded by the divisor times the `i64`
/// bounds stays inside the `i64` range.
pub proof fn lemma_tdiv_range(x: int, d: int)
    requires
        d > 0,
        -(d * 0x8000000000000000) <= x <= d * 0x7fffffffffffffff,
    ensures
        i64::MIN <= tdiv(x, d) <= i64::MAX,
{
    if x >= 0 {
        vstd::arithmetic::div_mod::lemma_div_is_ordered(x, d * 0x7fffffffffffffff, d);
        vstd::arithmetic::div_mod::lemma_div_multiples_vanish(0x7fffffffffffffff, d);
        vstd::arithmetic::div_mod::lemma_div_pos_is_pos(x, d);
    } else {
        vstd::arithmetic::div_mod::lemma_div_is_ordered(-x, d * 0x8000000000000000, d);
        vstd::arithmetic::div_mod::lemma_div_multiples_vanish(0x8000000000000000, d);
        vstd::arithmetic::div_mod::lemma_div_pos_is_pos(-x, d);
    }
}

/// Dividing an exact multiple gives back the factor.
pub proof fn lemma_tdiv_multiples(x: int, d: int)
    requires
        d > 0,
    ensures
        tdiv(x * d, d) == x,
{
    if x == 0 {
        assert(x * d == 0) by (nonlinear_arith)
            requires
                x == 0,
        ;
    } else if x > 0 {
        assert(x * d > 0) by (nonlinear_arith)
            requires
                x > 0,
                d > 0,
        ;
        vstd::arithmetic::div_mod::lemma_div_multiples_vanish(x, d);
        assert(x * d == d * x);
    } else {
        assert(x * d < 0) by (nonlinear_arith)
            requires
                x < 0,
                d > 0,
        ;
        vstd::arithmetic::div_mod::lemma_div_multiples_vanish(-x, d);
        assert((x * d) * -1 == d * (-x)) by (nonlinear_arith);
    }
}

/// The truncated midpoint of two numbers lies weakly between them.
pub proof fn lemma_mid_between(a: int, b: int)
    ensures
        a <= b ==> a <= tdiv(a + b, 2) <= b,
        b <= a ==> b <= tdiv(a + b, 2) <= a,
{
    let lo = if a <= b {
        a
    } else {
        b
    };
    let hi = if a <= b {
        b
    } else {
        a
    };
    assert(2 * lo <= a + b <= 2 * hi);
    if a + b >= 0 {
        vstd::arithmetic::div_mod::lemma_div_is_ordered(a + b, 2 * hi, 2);
        vstd::arithmetic::div_mod::lemma_div_multiples_vanish(hi, 2);
        vstd::arithmetic::div_mod::lemma_div_pos_is_pos(a + b, 2);
        if lo >= 0 {
            vstd::arithmetic::div_mod::lemma_div_is_ordered(2 * lo, a + b, 2);
            vstd::arithmetic::div_mod::lemma_div_multiples_vanish(lo, 2);
        }
    } else {
        vstd::arithmetic::div_mod::lemma_div_is_ordered(-(a + b), -(2 * lo), 2);
        vstd::arithmetic::div_mod::lemma_div_multiples_vanish(-lo, 2);
        vstd::arithmetic::div_mod::lemma_div_pos_is_pos(-(a + b), 2);
        if hi < 0 {
            vstd::arithmetic::div_mod::lemma_div_is_ordered(-(2 * hi), -(a + b), 2);
            vstd::arithmetic::div_mod::lemma_div_multiples_vanish(-hi, 2);
        }
    }
}

/// The exact sum, or `None` outside the representable range.
pub open spec fn spec_add(a: Fx, b: Fx) -> Option<Fx> {
    if i64::MIN <= a.raw + b.raw <= i64::MAX {
        Some(Fx { raw: (a.raw + b.raw) as i64 })
    } else {
        None
    }
}

/// The exact difference, or `None` outside the representable range.
pub open spec fn spec_sub(a: Fx, b: Fx) -> Option<Fx> {
    if i64::MIN <= a.raw - b.raw <= i64::MAX {
        Some(Fx { raw: (a.raw - b.raw) as i64 })
    } else {
        None
    }
}

/// The negation, or `None` for the one unrepresentable case.
pub open spec fn spec_neg(a: Fx) -> Option<Fx> {
    if a.raw == i64::MIN {
        None
    } else {
        Some(Fx { raw: (-a.raw) as i64 })
    }
}

/// The truncated product, or `None` outside the representable range.
pub open spec fn spec_mul(a: Fx, b: Fx) -> Option<Fx> {
    if i64::MIN <= tdiv(a.raw * b.raw, SCALE as int) <= i64::MAX {
        Some(Fx { raw: tdiv(a.raw * b.raw, SCALE as int) as i64 })
    } else {
        None
    }
}

/// The truncated quotient; `None` for a zero divisor or a result outside
/// the representable range.
pub open spec fn spec_div(a: Fx, b: Fx) -> Option<Fx> {
    if b.raw == 0 {
        None
    } else if i64::MIN <= tdiv(a.raw * (SCALE as int), b.raw as int) <= i64::MAX {
        Some(Fx { raw: tdiv(a.raw * (SCALE as int), b.raw as int) as i64 })
    } else {
        None
    }
}

/// The exact product with a whole number, or `None` outside the
/// representable range.
pub open spec fn spec_mul_int(a: Fx, n: int) -> Option<Fx> {
    if i64::MIN <= a.raw * n <= i64::MAX {
        Some(Fx { raw: (a.raw * n) as i64 })
    } else {
        None
    }
}

/// The truncated quotient by a whole number, or `None` for zero.
pub open spec fn spec_div_int(a: Fx, n: int) -> Option<Fx> {
    if n == 0 {
        None
    } else {
        Some(Fx { raw: tdiv(a.raw as int, n) as i64 })
    }
}

impl Fx {
    /// The number zero.
    pub fn zero() -> (r: Fx)
        ensures
            r.raw == 0,
    {
        Fx { raw: 0 }
    }

    /// The number one.
    pub fn one() -> (r: Fx)
        ensures
            r.raw == SCALE,
    {
        Fx { raw: SCALE }
    }

    /// The number minus one.
    pub fn neg_one() -> (r: Fx)
        ensures
            r.raw == -SCALE,
    {
        Fx { raw: -SCALE }
    }

    /// Builds a number directly from its count of millionths.
    pub fn from_raw(raw: i64) -> (r: Fx)
        ensures
            r.raw == raw,
    {
        Fx { raw }
    }

    /// Exact sum, or `None` when it leaves the representable range.
    pub fn try_add(self, o: Fx) -> (r: Option<Fx>)
        ensures
            r == spec_add(self, o),
    {
        match self.raw.checked_add(o.raw) {
            Some(s) => Some(Fx { raw: s }),
            None => None,
        }
    }

    /// Exact difference, or `None` when it leaves the representable range.
    pub fn try_sub(self, o: Fx) -> (r: Option<Fx>)
        ensures
            r == spec_sub(self, o),
    {
        match self.raw.checked_sub(o.raw) {
            Some(s) => Some(Fx { raw: s }),
            None => None,
        }
    }

    /// Negation, or `None` for the one unrepresentable case.
    pub fn try_neg(self) -> (r: Option<Fx>)
        ensures
            r == spec_neg(self),
    {
        match 0i64.checked_sub(self.raw) {
            Some(s) => Some(Fx { raw: s }),
            None => None,
        }
    }

    /// Product, truncated toward zero at the sixth decimal place, or `None`
    /// when it leaves the representable range.
    pub fn try_mul(self, o: Fx) -> (r: Option<Fx>)
        ensures
            r == spec_mul(self, o),
    {
        proof {
            lemma_i64_product_fits_i128(self.raw as int, o.raw as int);
        }
        let p: i128 = (self.raw as i128) * (o.raw as i128);
        let q: i128 = p.checked_div(SCALE as i128).unwrap();
        if i64::MIN as i128 <= q && q <= i64::MAX as i128 {
            Some(Fx { raw: q as i64 })
        } else {
            None
        }
    }

    /// Quotient, truncated toward zero at the sixth decimal place; `None`
    /// when the divisor is zero or the result leaves the representable range.
    pub fn try_div(self, o: Fx) -> (r: Option<Fx>)
        ensures
            r == spec_div(self, o),
    {
        if o.raw == 0 {
            return None;
        }
        proof {
            lemma_i64_product_fits_i128(self.raw as int, SCALE as int);
        }
        let p: i128 = (self.raw as i128) * (SCALE as i128);
        let q: i128 = p.checked_div(o.raw as i128).unwrap();
        if i64::MIN as i128 <= q && q <= i64::MAX as i128 {
            Some(Fx { raw: q as i64 })
        } else {
            None
        }
    }

    /// The number `n`, or `None` when it does not fit.
    pub fn from_usize(n: usize) -> (r: Option<Fx>)
        ensures
            r == (if n * (SCALE as int) <= i64::MAX {
                Some(Fx { raw: (n * (SCALE as int)) as i64 })
            } else {
                None::<Fx>
            }),
    {
        proof {
            assert((n as u128) * (SCALE as u128) <= 0xffffffffffffffff * 1000000)
                by (nonlinear_arith)
                requires
                    n <= 0xffffffffffffffffu128,
                    SCALE == 1000000,
            ;
        }
        let w: u128 = (n as u128) * (SCALE as u128);
        if w <= i64::MAX as u128 {
            Some(Fx { raw: w as i64 })
        } else {
            None
        }
    }

    /// The product with the whole number `n`, or `None` outside the
    /// representable range.
    pub fn try_mul_int(self, n: usize) -> (r: Option<Fx>)
        ensures
            r == spec_mul_int(self, n as int),
    {
        match (self.raw as i128).checked_mul(n as i128) {
            Some(p) => if i64::MIN as i128 <= p && p <= i64::MAX as i128 {
                Some(Fx { raw: p as i64 })
            } else {
                None
            },
            None => None,
        }
    }

    /// The quotient by the whole number `n`, truncated toward zero; `None`
    /// for a zero `n`.
    pub fn try_div_int(self, n: usize) -> (r: Option<Fx>)
        ensures
            r == spec_div_int(self, n as int),
    {
        if n == 0 {
            return None;
        }
        let q: i128 = (self.raw as i128).checked_div(n as i128).unwrap();
        proof {
            lemma_tdiv_bound(self.raw as int, n as int, 0x8000000000000000);
        }
        Some(Fx { raw: q as i64 })
    }

    /// The midpoint of `self` and `o`, truncated toward zero. Always
    /// representable, and always weakly between the two.
    pub fn mid(self, o: Fx) -> (r: Fx)
        ensures
            r.raw == tdiv(self.raw + o.raw, 2),
            if self.raw <= o.raw {
                self.raw <= r.raw <= o.raw
            } else {
                o.raw <= r.raw <= self.raw
            },
    {
        proof {
            lemma_mid_between(self.raw as int, o.raw as int);
            lemma_tdiv_bound(self.raw + o.raw, 2, 0x8000000000000000);
        }
        let s: i128 = (self.raw as i128) + (o.raw as i128);
        let q: i128 = s.checked_div(2).unwrap();
        Fx { raw: q as i64 }
    }

    /// One convex step of `self` toward `other`: nine tenths of `self` plus
    /// one tenth of `other`, truncated toward zero. Always representable.
    pub fn expand_step(self, other: Fx) -> (r: Fx)
        ensures
            r.raw == tdiv(9 * self.raw + other.raw, 10),
    {
        proof {
            lemma_tdiv_bound(9 * self.raw + other.raw, 10, 0x8000000000000000);
        }
        let s: i128 = 9 * (self.raw as i128) + (other.raw as i128);
        let q: i128 = s.checked_div(10).unwrap();
        Fx { raw: q as i64 }
    }

    /// `self <= o`, exactly.
    pub fn le(self, o: Fx) -> (r: bool)
        ensures
            r == (self.raw <= o.raw),
    {
        self.raw <= o.raw
    }

    /// `self < o`, exactly.
    pub fn lt(self, o: Fx) -> (r: bool)
        ensures
            r == (self.raw < o.raw),
    {
        self.raw < o.raw
    }

    /// `self >= o`, exactly.
    pub fn ge(self, o: Fx) -> (r: bool)
        ensures
            r == (self.raw >= o.raw),
    {
        self.raw >= o.raw
    }

    /// `self > o`, exactly.
    pub fn gt(self, o: Fx) -> (r: bool)
        ensures
            r == (self.raw > o.raw),
    {
        self.raw > o.raw
    }

    /// Whether the number is exactly zero.
    pub fn is_zero(self) -> (r: bool)
        ensures
            r == (self.raw == 0),
    {
        self.raw == 0
    }

    /// Whether the number is strictly negative.
    pub fn is_neg(self) -> (r: bool)
        ensures
            r == (self.raw < 0),
    {
        self.raw < 0
    }

    /// Whether the number is strictly positive.
    pub fn is_pos(self) -> (r: bool)
        ensures
            r == (self.raw > 0),
    {
        self.raw > 0
    }
}

} // verus!
