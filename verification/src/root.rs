//! Bisection root finding for a monotone partial function, as a step
//! machine.
//!
//! The function `f` whose zero is sought lives with the caller (its values
//! come from distribution evaluations the library does not compute itself).
//! The machine hands out one probe point at a time; the caller answers with
//! `Some(f(probe))`, or `None` where `f` is undefined, and the machine takes
//! one [`FindZero::step`]. The search: seed the bracket at `[-1, 1]`,
//! shrink an undefined bound toward the defined one by convex steps (at
//! most one hundred), double the bounds until the signs differ, orient the
//! bracket so `f` is nonnegative at `high`, then bisect while the
//! fractional gap exceeds one part in a hundred million.
//!
//! Every step strictly decreases [`FindZero::measure`], so any driver loop
//! terminates. A run whose answers never change sign can only keep
//! doubling or fail with [`RootError::NoSignChange`] (the `keeps_one_sign`
//! clauses of [`FindZero::step`]); a run answering `None` at both seeds
//! fails with [`RootError::NoBracket`] at once.

use vstd::prelude::*;

use crate::fixed::spec_add;
use crate::fixed::tdiv;
use crate::fixed::Fx;

verus! {

/// The sign of an f-value as the search reads it: zero counts as positive.
#[derive(Clone, Copy, PartialEq, Eq, Structural, Debug)]
pub enum Sign {
    Positive,
    Negative,
}

/// The sign of the number with `x` millionths, zero counting as positive.
pub open spec fn spec_sign(x: int) -> Sign {
    if x < 0 {
        Sign::Negative
    } else {
        Sign::Positive
    }
}

fn sign_of(v: Fx) -> (r: Sign)
    ensures
        r == spec_sign(v.raw as int),
{
    if v.raw < 0 {
        Sign::Negative
    } else {
        Sign::Positive
    }
}

/// Why no zero was found.
#[derive(Clone, Copy, PartialEq, Eq, Structural, Debug)]
pub enum RootError {
    /// Undefined at both seeds, still undefined after a hundred shrinking
    /// steps, or undefined at a point inside an established bracket.
    NoBracket,
    /// The two bounds kept one sign until a bound left the representable
    /// range (the finite stand-in for an infinite bound), or both bounds
    /// sat at zero where no doubling can move them.
    NoSignChange,
}

/// The magnitude of `x`.
pub open spec fn iabs(x: int) -> int {
    if x < 0 {
        -x
    } else {
        x
    }
}

/// Whether the fractional gap `(h - l) / m` exceeds one part in a hundred
/// million, read as real-number division (a zero `m` behaves as the
/// infinity of the corresponding sign, which exceeds the tolerance exactly
/// when `h > l`).
pub open spec fn spec_gap_exceeds(h: int, l: int, m: int) -> bool {
    if m == 0 {
        h - l > 0
    } else if m > 0 {
        (h - l) * 100000000 > m
    } else {
        (h - l) * 100000000 < m
    }
}

fn gap_exceeds(h: Fx, l: Fx, m: Fx) -> (r: bool)
    ensures
        r == spec_gap_exceeds(h.raw as int, l.raw as int, m.raw as int),
{
    let d: i128 = (h.raw as i128) - (l.raw as i128);
    if m.raw == 0 {
        d > 0
    } else if m.raw > 0 {
        d * 100000000 > m.raw as i128
    } else {
        d * 100000000 < m.raw as i128
    }
}

/// The search state. Each state names the point whose f-value it awaits.
#[derive(Clone, Copy, PartialEq, Eq, Structural, Debug)]
pub enum FindZero {
    /// Awaiting f at the seed one.
    SeedHigh,
    /// Awaiting f at the seed minus one; the sign at one, where defined.
    SeedLow { seed_sign: Option<Sign> },
    /// One seed was undefined: that bound shrinks toward the defined one.
    /// Awaiting f at `moving`; `count` convex steps taken so far.
    Expanding { moving_high: bool, moving: Fx, fixed: Fx, sgn_fixed: Sign, count: u8 },
    /// Both bounds defined with one sign; the upper bound was doubled.
    /// Awaiting f at `high`.
    DoubledHigh { high: Fx, low: Fx, sgn_low: Sign },
    /// Both bounds defined with one sign; the lower bound was doubled.
    /// Awaiting f at `low`.
    DoubledLow { high: Fx, sgn_high: Sign, low: Fx },
    /// An oriented bracket: f nonnegative at `high`, negative at `low`.
    /// Awaiting f at `middle`.
    Bisecting { high: Fx, low: Fx, middle: Fx },
}

/// One step's outcome: the next state and probe, a zero, or a failure.
#[derive(Clone, Copy, PartialEq, Eq, Structural, Debug)]
pub enum RootStep {
    Continue(FindZero, Fx),
    Done(Fx),
    Fail(RootError),
}

impl FindZero {
    /// Structural soundness of a state: a doubled bound is never zero, and
    /// a bisection middle is the true midpoint, strictly inside.
    pub open spec fn wf(self) -> bool {
        match self {
            FindZero::DoubledHigh { high, .. } => high.raw != 0,
            FindZero::DoubledLow { low, .. } => low.raw != 0,
            FindZero::Bisecting { high, low, middle } => middle.raw == tdiv(
                high.raw + low.raw,
                2,
            ) && middle.raw != high.raw && middle.raw != low.raw,
            _ => true,
        }
    }

    /// The point whose f-value the state awaits.
    pub open spec fn spec_probe(self) -> Fx {
        match self {
            FindZero::SeedHigh => Fx { raw: 1000000 },
            FindZero::SeedLow { .. } => Fx { raw: -1000000i64 },
            FindZero::Expanding { moving, .. } => moving,
            FindZero::DoubledHigh { high, .. } => high,
            FindZero::DoubledLow { low, .. } => low,
            FindZero::Bisecting { middle, .. } => middle,
        }
    }

    /// Whether the state is in the bound-doubling phase.
    pub open spec fn is_doubling(self) -> bool {
        matches!(self, FindZero::DoubledHigh { .. } | FindZero::DoubledLow { .. })
    }

    /// Whether `answer` reports, at a state with both bounds defined, the
    /// same sign the other bound already has - the case in which no
    /// bracket with a sign change has appeared yet.
    pub open spec fn keeps_one_sign(self, answer: Option<Fx>) -> bool {
        match (self, answer) {
            (FindZero::SeedLow { seed_sign: Some(sh) }, Some(v)) => spec_sign(v.raw as int) == sh,
            (FindZero::Expanding { sgn_fixed, .. }, Some(v)) => spec_sign(v.raw as int)
                == sgn_fixed,
            (FindZero::DoubledHigh { sgn_low, .. }, Some(v)) => spec_sign(v.raw as int)
                == sgn_low,
            (FindZero::DoubledLow { sgn_high, .. }, Some(v)) => spec_sign(v.raw as int)
                == sgn_high,
            _ => false,
        }
    }

    /// A strictly decreasing, nonnegative measure: every step shrinks it,
    /// so every run of the machine ends.
    pub open spec fn measure(self) -> int {
        let c: int = 0x100000000000000000;
        let b: int = 0x8000000000000000;
        match self {
            FindZero::SeedHigh => 5 * c,
            FindZero::SeedLow { .. } => 4 * c,
            FindZero::Expanding { count, .. } => 3 * c + 101 - count,
            FindZero::DoubledHigh { high, low, .. } => 2 * c + (b - iabs(high.raw as int)) + (b
                - iabs(low.raw as int)),
            FindZero::DoubledLow { high, low, .. } => 2 * c + (b - iabs(high.raw as int)) + (b
                - iabs(low.raw as int)),
            FindZero::Bisecting { high, low, .. } => c + iabs(high.raw - low.raw),
        }
    }

    /// A fresh search, with its first probe: the seed one.
    pub fn start() -> (r: (FindZero, Fx))
        ensures
            r.0 == FindZero::SeedHigh,
            r.0.wf(),
            r.1 == r.0.spec_probe(),
            r.0.measure() >= 0,
    {
        (FindZero::SeedHigh, Fx::one())
    }
}

/// The outcome of entering bisection on an oriented bracket: the midpoint
/// at once when the bracket has closed to the resolution of the number
/// type or its fractional gap is within tolerance, else the state
/// awaiting f at the midpoint.
pub open spec fn spec_bisect_entry(high: Fx, low: Fx) -> RootStep {
    let m = Fx { raw: tdiv(high.raw + low.raw, 2) as i64 };
    if m.raw == high.raw || m.raw == low.raw || !spec_gap_exceeds(
        high.raw as int,
        low.raw as int,
        m.raw as int,
    ) {
        RootStep::Done(m)
    } else {
        RootStep::Continue(FindZero::Bisecting { high, low, middle: m }, m)
    }
}

fn bisect_entry(high: Fx, low: Fx) -> (r: RootStep)
    ensures
        r == spec_bisect_entry(high, low),
        match r {
            RootStep::Continue(s, p) => s.wf() && s.is_doubling() == false && s.measure() == (
            0x100000000000000000 + iabs(high.raw - low.raw)) && p == s.spec_probe(),
            RootStep::Done(_) => true,
            RootStep::Fail(_) => false,
        },
{
    let middle = high.mid(low);
    if middle == high || middle == low {
        // The bracket has closed to the resolution of the number type:
        // no point strictly between the bounds remains to probe.
        return RootStep::Done(middle);
    }
    if !gap_exceeds(high, low, middle) {
        return RootStep::Done(middle);
    }
    RootStep::Continue(FindZero::Bisecting { high, low, middle }, middle)
}

fn orient_and_bisect(high: Fx, low: Fx, sgn_high: Sign) -> (r: RootStep)
    ensures
        r == (if sgn_high == Sign::Negative {
            spec_bisect_entry(low, high)
        } else {
            spec_bisect_entry(high, low)
        }),
        match r {
            RootStep::Continue(s, p) => s.wf() && s.is_doubling() == false && s.measure() == (
            0x100000000000000000 + iabs(high.raw - low.raw)) && p == s.spec_probe(),
            RootStep::Done(_) => true,
            RootStep::Fail(_) => false,
        },
{
    match sgn_high {
        Sign::Negative => bisect_entry(low, high),
        Sign::Positive => bisect_entry(high, low),
    }
}

/// The next doubling move from a one-sign bracket: the upper bound
/// doubles (the lower one when the upper sits at zero); both bounds at
/// zero, or a doubled bound out of the representable range, end the
/// search without a sign change.
pub open spec fn spec_start_double(high: Fx, low: Fx, sgn_high: Sign, sgn_low: Sign) -> RootStep {
    if high.raw != 0 {
        match spec_add(high, high) {
            Some(h2) => RootStep::Continue(FindZero::DoubledHigh { high: h2, low, sgn_low }, h2),
            None => RootStep::Fail(RootError::NoSignChange),
        }
    } else if low.raw != 0 {
        match spec_add(low, low) {
            Some(l2) => RootStep::Continue(FindZero::DoubledLow { high, sgn_high, low: l2 }, l2),
            None => RootStep::Fail(RootError::NoSignChange),
        }
    } else {
        RootStep::Fail(RootError::NoSignChange)
    }
}

fn start_double(high: Fx, low: Fx, sgn_high: Sign, sgn_low: Sign) -> (r: RootStep)
    ensures
        r == spec_start_double(high, low, sgn_high, sgn_low),
        match r {
            RootStep::Continue(s, p) => s.wf() && s.is_doubling() && s.measure()
                < 0x200000000000000000 + (0x8000000000000000 - iabs(high.raw as int)) + (
            0x8000000000000000 - iabs(low.raw as int)) && p == s.spec_probe(),
            RootStep::Done(_) => false,
            RootStep::Fail(e) => e == RootError::NoSignChange,
        },
{
    if high.raw != 0 {
        match high.try_add(high) {
            Some(h2) => RootStep::Continue(
                FindZero::DoubledHigh { high: h2, low, sgn_low },
                h2,
            ),
            None => RootStep::Fail(RootError::NoSignChange),
        }
    } else if low.raw != 0 {
        match low.try_add(low) {
            Some(l2) => RootStep::Continue(
                FindZero::DoubledLow { high, sgn_high, low: l2 },
                l2,
            ),
            None => RootStep::Fail(RootError::NoSignChange),
        }
    } else {
        // Doubling moves neither bound off zero, so the signs can never
        // start to differ.
        RootStep::Fail(RootError::NoSignChange)
    }
}

impl FindZero {
    /// Consumes the answer for the awaited probe and moves one step.
    ///
    /// Each continuation strictly shrinks the measure, so a driver loop
    /// always ends. While the answers keep one sign, the machine stays in
    /// the doubling phase or fails with `NoSignChange`; a search whose
    /// seeds are both undefined fails with `NoBracket` at once.
    #[verifier::rlimit(100)]
    pub fn step(self, answer: Option<Fx>) -> (r: RootStep)
        requires
            self.wf(),
        ensures
            match r {
                RootStep::Continue(s2, p) => s2.wf() && 0 <= s2.measure() < self.measure()
                    && p == s2.spec_probe(),
                _ => true,
            },
            self == (FindZero::SeedLow { seed_sign: Option::<Sign>::None }) && answer is None
                ==> r == RootStep::Fail(RootError::NoBracket),
            self.keeps_one_sign(answer) ==> match r {
                RootStep::Continue(s2, _) => s2.is_doubling(),
                RootStep::Done(_) => false,
                RootStep::Fail(e) => e == RootError::NoSignChange,
            },
            self == FindZero::SeedHigh ==> r == RootStep::Continue(
                FindZero::SeedLow {
                    seed_sign: match answer {
                        Some(v) => Some(spec_sign(v.raw as int)),
                        None => None,
                    },
                },
                Fx { raw: -1000000i64 },
            ),
            self matches FindZero::SeedLow { seed_sign: Some(sh) } ==> (match answer {
                None => r == RootStep::Continue(
                    FindZero::Expanding {
                        moving_high: false,
                        moving: Fx { raw: -800000i64 },
                        fixed: Fx { raw: 1000000i64 },
                        sgn_fixed: sh,
                        count: 1,
                    },
                    Fx { raw: -800000i64 },
                ),
                Some(v) => r == (if spec_sign(v.raw as int) == sh {
                    spec_start_double(
                        Fx { raw: 1000000i64 },
                        Fx { raw: -1000000i64 },
                        sh,
                        spec_sign(v.raw as int),
                    )
                } else if sh == Sign::Negative {
                    spec_bisect_entry(Fx { raw: -1000000i64 }, Fx { raw: 1000000i64 })
                } else {
                    spec_bisect_entry(Fx { raw: 1000000i64 }, Fx { raw: -1000000i64 })
                }),
            }),
            self matches FindZero::SeedLow { seed_sign: Option::<Sign>::None } ==> r == (
            match answer {
                Some(v) => RootStep::Continue(
                    FindZero::Expanding {
                        moving_high: true,
                        moving: Fx { raw: 800000i64 },
                        fixed: Fx { raw: -1000000i64 },
                        sgn_fixed: spec_sign(v.raw as int),
                        count: 1,
                    },
                    Fx { raw: 800000i64 },
                ),
                None => RootStep::Fail(RootError::NoBracket),
            }),
            self matches FindZero::Expanding { moving_high, moving, fixed, sgn_fixed, count }
                ==> (answer is None ==> r == (if count >= 100 {
                RootStep::Fail(RootError::NoBracket)
            } else {
                RootStep::Continue(
                    FindZero::Expanding {
                        moving_high,
                        moving: Fx { raw: tdiv(9 * moving.raw + fixed.raw, 10) as i64 },
                        fixed,
                        sgn_fixed,
                        count: (count + 1) as u8,
                    },
                    Fx { raw: tdiv(9 * moving.raw + fixed.raw, 10) as i64 },
                )
            })),
            self matches FindZero::Bisecting { high, low, middle } ==> r == (match answer {
                None => RootStep::Fail(RootError::NoBracket),
                Some(v) => if v.raw > 0 {
                    spec_bisect_entry(middle, low)
                } else if v.raw < 0 {
                    spec_bisect_entry(high, middle)
                } else {
                    RootStep::Done(middle)
                },
            }),
            self matches FindZero::Expanding { moving_high, moving, fixed, sgn_fixed, count }
                ==> (match answer {
                None => true,
                Some(v) => {
                    let sm = spec_sign(v.raw as int);
                    let high = if moving_high {
                        moving
                    } else {
                        fixed
                    };
                    let low = if moving_high {
                        fixed
                    } else {
                        moving
                    };
                    let sgn_high = if moving_high {
                        sm
                    } else {
                        sgn_fixed
                    };
                    let sgn_low = if moving_high {
                        sgn_fixed
                    } else {
                        sm
                    };
                    r == (if sgn_high == sgn_low {
                        spec_start_double(high, low, sgn_high, sgn_low)
                    } else if sgn_high == Sign::Negative {
                        spec_bisect_entry(low, high)
                    } else {
                        spec_bisect_entry(high, low)
                    })
                },
            }),
            self matches FindZero::DoubledHigh { high, low, sgn_low } ==> r == (match answer {
                None => RootStep::Fail(RootError::NoBracket),
                Some(v) => {
                    let sh = spec_sign(v.raw as int);
                    if sh != sgn_low {
                        if sh == Sign::Negative {
                            spec_bisect_entry(low, high)
                        } else {
                            spec_bisect_entry(high, low)
                        }
                    } else if low.raw != 0 {
                        match spec_add(low, low) {
                            Some(l2) => RootStep::Continue(
                                FindZero::DoubledLow { high, sgn_high: sh, low: l2 },
                                l2,
                            ),
                            None => RootStep::Fail(RootError::NoSignChange),
                        }
                    } else {
                        match spec_add(high, high) {
                            Some(h2) => RootStep::Continue(
                                FindZero::DoubledHigh { high: h2, low, sgn_low },
                                h2,
                            ),
                            None => RootStep::Fail(RootError::NoSignChange),
                        }
                    }
                },
            }),
            self matches FindZero::DoubledLow { high, sgn_high, low } ==> r == (match answer {
                None => RootStep::Fail(RootError::NoBracket),
                Some(v) => {
                    let sl = spec_sign(v.raw as int);
                    if sl != sgn_high {
                        if sgn_high == Sign::Negative {
                            spec_bisect_entry(low, high)
                        } else {
                            spec_bisect_entry(high, low)
                        }
                    } else if high.raw != 0 {
                        match spec_add(high, high) {
                            Some(h2) => RootStep::Continue(
                                FindZero::DoubledHigh { high: h2, low, sgn_low: sl },
                                h2,
                            ),
                            None => RootStep::Fail(RootError::NoSignChange),
                        }
                    } else {
                        match spec_add(low, low) {
                            Some(l2) => RootStep::Continue(
                                FindZero::DoubledLow { high, sgn_high, low: l2 },
                                l2,
                            ),
                            None => RootStep::Fail(RootError::NoSignChange),
                        }
                    }
                },
            }),
    {
        match self {
            FindZero::SeedHigh => {
                let seed_sign = match answer {
                    Some(v) => Some(sign_of(v)),
                    None => None,
                };
                RootStep::Continue(FindZero::SeedLow { seed_sign }, Fx::neg_one())
            },
            FindZero::SeedLow { seed_sign } => {
                match (seed_sign, answer) {
                    (None, None) => RootStep::Fail(RootError::NoBracket),
                    (None, Some(v)) => {
                        // f is undefined at one: shrink the upper bound
                        // toward the defined lower seed.
                        let moving = Fx::one().expand_step(Fx::neg_one());
                        RootStep::Continue(
                            FindZero::Expanding {
                                moving_high: true,
                                moving,
                                fixed: Fx::neg_one(),
                                sgn_fixed: sign_of(v),
                                count: 1,
                            },
                            moving,
                        )
                    },
                    (Some(sh), None) => {
                        let moving = Fx::neg_one().expand_step(Fx::one());
                        RootStep::Continue(
                            FindZero::Expanding {
                                moving_high: false,
                                moving,
                                fixed: Fx::one(),
                                sgn_fixed: sh,
                                count: 1,
                            },
                            moving,
                        )
                    },
                    (Some(sh), Some(v)) => {
                        let sl = sign_of(v);
                        if matches!(sh, Sign::Positive) == matches!(sl, Sign::Positive) {
                            start_double(Fx::one(), Fx::neg_one(), sh, sl)
                        } else {
                            orient_and_bisect(Fx::one(), Fx::neg_one(), sh)
                        }
                    },
                }
            },
            FindZero::Expanding { moving_high, moving, fixed, sgn_fixed, count } => {
                match answer {
                    Some(v) => {
                        let sm = sign_of(v);
                        let (high, low, sgn_high, sgn_low) = if moving_high {
                            (moving, fixed, sm, sgn_fixed)
                        } else {
                            (fixed, moving, sgn_fixed, sm)
                        };
                        if matches!(sgn_high, Sign::Positive) == matches!(
                            sgn_low,
                            Sign::Positive,
                        ) {
                            start_double(high, low, sgn_high, sgn_low)
                        } else {
                            orient_and_bisect(high, low, sgn_high)
                        }
                    },
                    None => {
                        if count >= 100 {
                            RootStep::Fail(RootError::NoBracket)
                        } else {
                            let next = moving.expand_step(fixed);
                            RootStep::Continue(
                                FindZero::Expanding {
                                    moving_high,
                                    moving: next,
                                    fixed,
                                    sgn_fixed,
                                    count: count + 1,
                                },
                                next,
                            )
                        }
                    },
                }
            },
            FindZero::DoubledHigh { high, low, sgn_low } => {
                match answer {
                    None => RootStep::Fail(RootError::NoBracket),
                    Some(v) => {
                        let sh = sign_of(v);
                        if matches!(sh, Sign::Positive) != matches!(sgn_low, Sign::Positive) {
                            orient_and_bisect(high, low, sh)
                        } else if low.raw != 0 {
                            match low.try_add(low) {
                                Some(l2) => RootStep::Continue(
                                    FindZero::DoubledLow { high, sgn_high: sh, low: l2 },
                                    l2,
                                ),
                                None => RootStep::Fail(RootError::NoSignChange),
                            }
                        } else {
                            // The lower bound is pinned at zero and cannot
                            // grow; keep doubling the upper bound.
                            match high.try_add(high) {
                                Some(h2) => RootStep::Continue(
                                    FindZero::DoubledHigh { high: h2, low, sgn_low },
                                    h2,
                                ),
                                None => RootStep::Fail(RootError::NoSignChange),
                            }
                        }
                    },
                }
            },
            FindZero::DoubledLow { high, sgn_high, low } => {
                match answer {
                    None => RootStep::Fail(RootError::NoBracket),
                    Some(v) => {
                        let sl = sign_of(v);
                        if matches!(sl, Sign::Positive) != matches!(sgn_high, Sign::Positive) {
                            orient_and_bisect(high, low, sgn_high)
                        } else if high.raw != 0 {
                            match high.try_add(high) {
                                Some(h2) => RootStep::Continue(
                                    FindZero::DoubledHigh { high: h2, low, sgn_low: sl },
                                    h2,
                                ),
                                None => RootStep::Fail(RootError::NoSignChange),
                            }
                        } else {
                            match low.try_add(low) {
                                Some(l2) => RootStep::Continue(
                                    FindZero::DoubledLow { high, sgn_high, low: l2 },
                                    l2,
                                ),
                                None => RootStep::Fail(RootError::NoSignChange),
                            }
                        }
                    },
                }
            },
            FindZero::Bisecting { high, low, middle } => {
                match answer {
                    None => RootStep::Fail(RootError::NoBracket),
                    Some(v) => {
                        proof {
                            crate::fixed::lemma_mid_between(
                                high.raw as int,
                                low.raw as int,
                            );
                        }
                        if v.raw > 0 {
                            bisect_entry(middle, low)
                        } else if v.raw < 0 {
                            bisect_entry(high, middle)
                        } else {
                            RootStep::Done(middle)
                        }
                    },
                }
            },
        }
    }
}

} // verus!
