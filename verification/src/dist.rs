//! Distribution descriptors and the evaluation protocol.
//!
//! A descriptor holds one [`Constraint`] per logical slot of its family.
//! The library never evaluates a density or a distribution function itself:
//! it builds a [`Query`] naming the family, its checked parameters and the
//! point, and the caller answers with the value, or `None` where the
//! computation yields none. A query is only built when the parameter slots
//! carry exact values inside the family's valid domain ([`DistParams::valid`]);
//! otherwise the adapter reports "no value", so a solver can probe it
//! while parameters are still being discovered.

use vstd::prelude::*;

use crate::constraint::Constraint;
use crate::error::ParseError;
use crate::fixed::Fx;

verus! {

/// Checked parameters of one distribution family.
#[derive(Clone, Copy, PartialEq, Eq, Structural, Debug)]
pub enum DistParams {
    Normal { mean: Fx, sd: Fx },
    ChiSquare { freedom: Fx },
    Student { location: Fx, scale: Fx, freedom: Fx },
    Fisher { freedom1: Fx, freedom2: Fx },
}

impl DistParams {
    /// The family's domain: a positive scale and positive shape parameters.
    pub open spec fn valid(self) -> bool {
        match self {
            DistParams::Normal { sd, .. } => sd.raw > 0,
            DistParams::ChiSquare { freedom } => freedom.raw > 0,
            DistParams::Student { scale, freedom, .. } => scale.raw > 0 && freedom.raw > 0,
            DistParams::Fisher { freedom1, freedom2 } => freedom1.raw > 0 && freedom2.raw > 0,
        }
    }
}

/// One numeric evaluation for the caller to perform.
#[derive(Clone, Copy, PartialEq, Eq, Structural, Debug)]
pub enum Query {
    /// The density of the distribution at the point.
    Pdf(DistParams, Fx),
    /// The cumulative distribution function at the point.
    Cdf(DistParams, Fx),
    /// The quantile function at the probability.
    InverseCdf(DistParams, Fx),
    /// The nonnegative square root of the number.
    Sqrt(Fx),
}

/// The Normal family: mean, standard deviation, an x value, a probability.
#[derive(Clone, Copy, PartialEq, Eq, Structural, Debug)]
pub struct Normal {
    pub mean: Constraint,
    pub sd: Constraint,
    pub xval: Constraint,
    pub pval: Constraint,
}

/// The Chi-squared family: degrees of freedom, an x value, a probability.
#[derive(Clone, Copy, PartialEq, Eq, Structural, Debug)]
pub struct ChiSquare {
    pub freedom: Constraint,
    pub xval: Constraint,
    pub pval: Constraint,
}

/// The Student's-t family: location, scale, degrees of freedom, an x value,
/// a probability.
#[derive(Clone, Copy, PartialEq, Eq, Structural, Debug)]
pub struct TDist {
    pub location: Constraint,
    pub scale: Constraint,
    pub freedom: Constraint,
    pub xval: Constraint,
    pub pval: Constraint,
}

/// The F family: two degrees of freedom, an x value, a probability.
#[derive(Clone, Copy, PartialEq, Eq, Structural, Debug)]
pub struct FDist {
    pub freedom1: Constraint,
    pub freedom2: Constraint,
    pub xval: Constraint,
    pub pval: Constraint,
}

/// One of the four continuous families.
#[derive(Clone, Copy, PartialEq, Eq, Structural, Debug)]
pub enum CDistr {
    Normal(Normal),
    ChiSquare(ChiSquare),
    TDist(TDist),
    FDist(FDist),
}

impl Normal {
    /// The checked parameters: both slots exact values, the deviation
    /// positive; `None` otherwise.
    pub open spec fn spec_params(self) -> Option<DistParams> {
        match (self.mean.spec_as_value(), self.sd.spec_as_value()) {
            (Some(m), Some(s)) => if s.raw > 0 {
                Some(DistParams::Normal { mean: m, sd: s })
            } else {
                None
            },
            _ => None,
        }
    }

    /// The checked parameters: both slots exact values, the deviation
    /// positive; `None` otherwise.
    pub fn params(&self) -> (r: Option<DistParams>)
        ensures
            r == self.spec_params(),
            r matches Some(p) ==> p.valid(),
    {
        match (self.mean.as_value(), self.sd.as_value()) {
            (Some(m), Some(s)) => if s.is_pos() {
                Some(DistParams::Normal { mean: m, sd: s })
            } else {
                None
            },
            _ => None,
        }
    }
}

impl Default for Normal {
    /// A standard normal asking for the probability below zero.
    fn default() -> (r: Normal)
        ensures
            r.mean == Constraint::Equal(Fx { raw: 0 }),
            r.sd == Constraint::Equal(Fx { raw: 1000000 }),
            r.xval == Constraint::LessThan(Fx { raw: 0 }),
            r.pval == Constraint::Equal(Fx { raw: 500000 }),
    {
        Normal {
            mean: Constraint::Equal(Fx::zero()),
            sd: Constraint::Equal(Fx::one()),
            xval: Constraint::LessThan(Fx::zero()),
            pval: Constraint::Equal(Fx::from_raw(500000)),
        }
    }
}

impl ChiSquare {
    /// The checked parameters: an exact, positive degrees-of-freedom slot.
    pub open spec fn spec_params(self) -> Option<DistParams> {
        match self.freedom.spec_as_value() {
            Some(f) => if f.raw > 0 {
                Some(DistParams::ChiSquare { freedom: f })
            } else {
                None
            },
            None => None,
        }
    }

    /// The checked parameters: an exact, positive degrees-of-freedom slot.
    pub fn params(&self) -> (r: Option<DistParams>)
        ensures
            r == self.spec_params(),
            r matches Some(p) ==> p.valid(),
    {
        match self.freedom.as_value() {
            Some(f) => if f.is_pos() {
                Some(DistParams::ChiSquare { freedom: f })
            } else {
                None
            },
            None => None,
        }
    }
}

impl Default for ChiSquare {
    /// Ten degrees of freedom, asking for the probability below one.
    fn default() -> (r: ChiSquare)
        ensures
            r.freedom == Constraint::Equal(Fx { raw: 10000000 }),
            r.xval == Constraint::LessThan(Fx { raw: 1000000 }),
            r.pval == Constraint::Unset,
    {
        ChiSquare {
            freedom: Constraint::Equal(Fx::from_raw(10000000)),
            xval: Constraint::LessThan(Fx::one()),
            pval: Constraint::Unset,
        }
    }
}

impl TDist {
    /// The checked parameters: exact location, scale and freedom, the
    /// latter two positive; `None` otherwise.
    pub open spec fn spec_params(self) -> Option<DistParams> {
        match (self.location.spec_as_value(), self.scale.spec_as_value(),
        self.freedom.spec_as_value()) {
            (Some(l), Some(s), Some(f)) => if s.raw > 0 && f.raw > 0 {
                Some(DistParams::Student { location: l, scale: s, freedom: f })
            } else {
                None
            },
            _ => None,
        }
    }

    /// The checked parameters: exact location, scale and freedom, the
    /// latter two positive; `None` otherwise.
    pub fn params(&self) -> (r: Option<DistParams>)
        ensures
            r == self.spec_params(),
            r matches Some(p) ==> p.valid(),
    {
        match (self.location.as_value(), self.scale.as_value(), self.freedom.as_value()) {
            (Some(l), Some(s), Some(f)) => if s.is_pos() && f.is_pos() {
                Some(DistParams::Student { location: l, scale: s, freedom: f })
            } else {
                None
            },
            _ => None,
        }
    }
}

impl Default for TDist {
    /// A standard t with four degrees of freedom, asking for the
    /// probability at or below zero.
    fn default() -> (r: TDist)
        ensures
            r.location == Constraint::Equal(Fx { raw: 0 }),
            r.scale == Constraint::Equal(Fx { raw: 1000000 }),
            r.freedom == Constraint::Equal(Fx { raw: 4000000 }),
            r.xval == Constraint::LessEq(Fx { raw: 0 }),
            r.pval == Constraint::Unset,
    {
        TDist {
            location: Constraint::Equal(Fx::zero()),
            scale: Constraint::Equal(Fx::one()),
            freedom: Constraint::Equal(Fx::from_raw(4000000)),
            xval: Constraint::LessEq(Fx::zero()),
            pval: Constraint::Unset,
        }
    }
}

impl FDist {
    /// The checked parameters: both freedom slots exact and positive.
    pub open spec fn spec_params(self) -> Option<DistParams> {
        match (self.freedom1.spec_as_value(), self.freedom2.spec_as_value()) {
            (Some(a), Some(b)) => if a.raw > 0 && b.raw > 0 {
                Some(DistParams::Fisher { freedom1: a, freedom2: b })
            } else {
                None
            },
            _ => None,
        }
    }

    /// The checked parameters: both freedom slots exact and positive.
    pub fn params(&self) -> (r: Option<DistParams>)
        ensures
            r == self.spec_params(),
            r matches Some(p) ==> p.valid(),
    {
        match (self.freedom1.as_value(), self.freedom2.as_value()) {
            (Some(a), Some(b)) => if a.is_pos() && b.is_pos() {
                Some(DistParams::Fisher { freedom1: a, freedom2: b })
            } else {
                None
            },
            _ => None,
        }
    }
}

impl Default for FDist {
    /// Four and four degrees of freedom, asking for the probability at or
    /// below one.
    fn default() -> (r: FDist)
        ensures
            r.freedom1 == Constraint::Equal(Fx { raw: 4000000 }),
            r.freedom2 == Constraint::Equal(Fx { raw: 4000000 }),
            r.xval == Constraint::LessEq(Fx { raw: 1000000 }),
            r.pval == Constraint::Unset,
    {
        FDist {
            freedom1: Constraint::Equal(Fx::from_raw(4000000)),
            freedom2: Constraint::Equal(Fx::from_raw(4000000)),
            xval: Constraint::LessEq(Fx::one()),
            pval: Constraint::Unset,
        }
    }
}

impl CDistr {
    /// The checked parameters of the selected family.
    pub open spec fn spec_params(self) -> Option<DistParams> {
        match self {
            CDistr::Normal(n) => n.spec_params(),
            CDistr::ChiSquare(c) => c.spec_params(),
            CDistr::TDist(t) => t.spec_params(),
            CDistr::FDist(f) => f.spec_params(),
        }
    }

    /// The checked parameters of the selected family.
    pub fn params(&self) -> (r: Option<DistParams>)
        ensures
            r == self.spec_params(),
            r matches Some(p) ==> p.valid(),
    {
        match self {
            CDistr::Normal(n) => n.params(),
            CDistr::ChiSquare(c) => c.params(),
            CDistr::TDist(t) => t.params(),
            CDistr::FDist(f) => f.params(),
        }
    }

    /// The density evaluation at `x`, or `None` while the parameters are
    /// incomplete or out of the valid domain.
    pub fn pdf_query(&self, x: Fx) -> (r: Option<Query>)
        ensures
            r == match self.spec_params() {
                Some(p) => Some(Query::Pdf(p, x)),
                None => None::<Query>,
            },
    {
        match self.params() {
            Some(p) => Some(Query::Pdf(p, x)),
            None => None,
        }
    }

    /// The cumulative-probability evaluation at `x`, or `None` while the
    /// parameters are incomplete or out of the valid domain.
    pub fn cdf_query(&self, x: Fx) -> (r: Option<Query>)
        ensures
            r == match self.spec_params() {
                Some(p) => Some(Query::Cdf(p, x)),
                None => None::<Query>,
            },
    {
        match self.params() {
            Some(p) => Some(Query::Cdf(p, x)),
            None => None,
        }
    }

    /// The quantile evaluation at `p`, or `None` while the parameters are
    /// incomplete or out of the valid domain.
    pub fn inverse_cdf_query(&self, p: Fx) -> (r: Option<Query>)
        ensures
            r == match self.spec_params() {
                Some(q) => Some(Query::InverseCdf(q, p)),
                None => None::<Query>,
            },
    {
        match self.params() {
            Some(q) => Some(Query::InverseCdf(q, p)),
            None => None,
        }
    }
}

/// `text` parsed over `old`: the parsed constraint, or `old` kept when the
/// text is rejected.
pub open spec fn spec_updated(old: Constraint, text: Seq<char>) -> Constraint {
    match Constraint::spec_parse(text) {
        Ok(c) => c,
        Err(_) => old,
    }
}

/// The error that parsing `text` reports, if any.
pub open spec fn spec_update_err(text: Seq<char>) -> Option<ParseError> {
    match Constraint::spec_parse(text) {
        Ok(_) => None,
        Err(e) => Some(e),
    }
}

fn update_slot(old: &Constraint, text: &str) -> (r: (Constraint, Option<ParseError>))
    ensures
        r.0 == spec_updated(*old, text@),
        r.1 == spec_update_err(text@),
{
    match Constraint::parse(text) {
        Ok(c) => (c, None),
        Err(e) => (*old, Some(e)),
    }
}

impl Normal {
    /// Reads the four text fields over this bundle: a field that parses
    /// replaces its slot, one that does not leaves the slot and reports
    /// its error.
    pub fn update_from_text(&self, mean: &str, sd: &str, xval: &str, pval: &str) -> (r: (
        Normal,
        Vec<Option<ParseError>>,
    ))
        ensures
            r.0.mean == spec_updated(self.mean, mean@),
            r.0.sd == spec_updated(self.sd, sd@),
            r.0.xval == spec_updated(self.xval, xval@),
            r.0.pval == spec_updated(self.pval, pval@),
            r.1@ == seq![
                spec_update_err(mean@),
                spec_update_err(sd@),
                spec_update_err(xval@),
                spec_update_err(pval@),
            ],
    {
        let (m, em) = update_slot(&self.mean, mean);
        let (s, es) = update_slot(&self.sd, sd);
        let (x, ex) = update_slot(&self.xval, xval);
        let (p, ep) = update_slot(&self.pval, pval);
        let mut errs: Vec<Option<ParseError>> = Vec::new();
        errs.push(em);
        errs.push(es);
        errs.push(ex);
        errs.push(ep);
        proof {
            assert(errs@ =~= seq![
                spec_update_err(mean@),
                spec_update_err(sd@),
                spec_update_err(xval@),
                spec_update_err(pval@),
            ]);
        }
        (Normal { mean: m, sd: s, xval: x, pval: p }, errs)
    }
}

impl ChiSquare {
    /// Reads the three text fields over this bundle, as in
    /// [`Normal::update_from_text`].
    pub fn update_from_text(&self, freedom: &str, xval: &str, pval: &str) -> (r: (
        ChiSquare,
        Vec<Option<ParseError>>,
    ))
        ensures
            r.0.freedom == spec_updated(self.freedom, freedom@),
            r.0.xval == spec_updated(self.xval, xval@),
            r.0.pval == spec_updated(self.pval, pval@),
            r.1@ == seq![
                spec_update_err(freedom@),
                spec_update_err(xval@),
                spec_update_err(pval@),
            ],
    {
        let (f, ef) = update_slot(&self.freedom, freedom);
        let (x, ex) = update_slot(&self.xval, xval);
        let (p, ep) = update_slot(&self.pval, pval);
        let mut errs: Vec<Option<ParseError>> = Vec::new();
        errs.push(ef);
        errs.push(ex);
        errs.push(ep);
        proof {
            assert(errs@ =~= seq![
                spec_update_err(freedom@),
                spec_update_err(xval@),
                spec_update_err(pval@),
            ]);
        }
        (ChiSquare { freedom: f, xval: x, pval: p }, errs)
    }
}

impl TDist {
    /// Reads the five text fields over this bundle, as in
    /// [`Normal::update_from_text`].
    pub fn update_from_text(
        &self,
        location: &str,
        scale: &str,
        freedom: &str,
        xval: &str,
        pval: &str,
    ) -> (r: (TDist, Vec<Option<ParseError>>))
        ensures
            r.0.location == spec_updated(self.location, location@),
            r.0.scale == spec_updated(self.scale, scale@),
            r.0.freedom == spec_updated(self.freedom, freedom@),
            r.0.xval == spec_updated(self.xval, xval@),
            r.0.pval == spec_updated(self.pval, pval@),
            r.1@ == seq![
                spec_update_err(location@),
                spec_update_err(scale@),
                spec_update_err(freedom@),
                spec_update_err(xval@),
                spec_update_err(pval@),
            ],
    {
        let (l, el) = update_slot(&self.location, location);
        let (s, es) = update_slot(&self.scale, scale);
        let (f, ef) = update_slot(&self.freedom, freedom);
        let (x, ex) = update_slot(&self.xval, xval);
        let (p, ep) = update_slot(&self.pval, pval);
        let mut errs: Vec<Option<ParseError>> = Vec::new();
        errs.push(el);
        errs.push(es);
        errs.push(ef);
        errs.push(ex);
        errs.push(ep);
        proof {
            assert(errs@ =~= seq![
                spec_update_err(location@),
                spec_update_err(scale@),
                spec_update_err(freedom@),
                spec_update_err(xval@),
                spec_update_err(pval@),
            ]);
        }
        (TDist { location: l, scale: s, freedom: f, xval: x, pval: p }, errs)
    }
}

impl FDist {
    /// Reads the four text fields over this bundle, as in
    /// [`Normal::update_from_text`].
    pub fn update_from_text(&self, freedom1: &str, freedom2: &str, xval: &str, pval: &str) -> (r:
        (FDist, Vec<Option<ParseError>>))
        ensures
            r.0.freedom1 == spec_updated(self.freedom1, freedom1@),
            r.0.freedom2 == spec_updated(self.freedom2, freedom2@),
            r.0.xval == spec_updated(self.xval, xval@),
            r.0.pval == spec_updated(self.pval, pval@),
            r.1@ == seq![
                spec_update_err(freedom1@),
                spec_update_err(freedom2@),
                spec_update_err(xval@),
                spec_update_err(pval@),
            ],
    {
        let (a, ea) = update_slot(&self.freedom1, freedom1);
        let (b, eb) = update_slot(&self.freedom2, freedom2);
        let (x, ex) = update_slot(&self.xval, xval);
        let (p, ep) = update_slot(&self.pval, pval);
        let mut errs: Vec<Option<ParseError>> = Vec::new();
        errs.push(ea);
        errs.push(eb);
        errs.push(ex);
        errs.push(ep);
        proof {
            assert(errs@ =~= seq![
                spec_update_err(freedom1@),
                spec_update_err(freedom2@),
                spec_update_err(xval@),
                spec_update_err(pval@),
            ]);
        }
        (FDist { freedom1: a, freedom2: b, xval: x, pval: p }, errs)
    }
}

} // verus!
