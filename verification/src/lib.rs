//! A constraint-based solver for continuous probability distributions.
//!
//! Quantities (location, scale, shape, an x-value, a probability) are held as
//! [`constraint::Constraint`] values over the exact fixed-point numbers of
//! [`fixed`]. A per-family solver classifies which slot is unknown and fills
//! it, either by closed-form algebra or by driving the bisection machine of
//! [`root`]. Transcendental evaluations (cdf, inverse cdf, square roots) are
//! requested from the caller as [`dist::Query`] values and their answers are
//! handed back in, so every decision and every algebraic step here is checked,
//! for every possible answer.

pub mod constraint;
pub mod dist;
pub mod error;
pub mod fixed;
pub mod numfmt;
pub mod root;
pub mod solve;
pub mod stats;
pub mod table;
