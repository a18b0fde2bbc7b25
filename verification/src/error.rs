//! The failures the library reports. Every failure is a value; no verified
//! function panics. Each [`SolveError`] carries a fixed message, surfaced
//! verbatim to callers, and belongs to one coarse [`ErrorKind`].

use vstd::prelude::*;

verus! {

/// Why a piece of constraint text was rejected.
#[derive(Clone, Copy, PartialEq, Eq, Structural, Debug)]
pub enum ParseError {
    /// A recognized operator with a malformed numeric payload.
    InvalidInput,
    /// A range without a comma between its bounds.
    CommaExpected,
    /// A closed range without its closing bracket.
    EndBracketExpected,
    /// A open-complement range without its closing bracket.
    EndBracketOutExpected,
    /// Text that fits no form of the grammar.
    NotAConstraint,
}

impl ParseError {
    /// The text of this error.
    pub open spec fn spec_message(self) -> Seq<char> {
        match self {
            ParseError::InvalidInput => "Not a valid input"@,
            ParseError::CommaExpected => "Comma expected in range"@,
            ParseError::EndBracketExpected => "End ] expected"@,
            ParseError::EndBracketOutExpected => "End [ expected"@,
            ParseError::NotAConstraint => "Not a valid constraint"@,
        }
    }

    /// The text of this error.
    pub fn message(&self) -> (r: String)
        ensures
            r@ == self.spec_message(),
    {
        match self {
            ParseError::InvalidInput => String::from_str("Not a valid input"),
            ParseError::CommaExpected => String::from_str("Comma expected in range"),
            ParseError::EndBracketExpected => String::from_str("End ] expected"),
            ParseError::EndBracketOutExpected => String::from_str("End [ expected"),
            ParseError::NotAConstraint => String::from_str("Not a valid constraint"),
        }
    }
}

/// The coarse classes of solving failure.
#[derive(Clone, Copy, PartialEq, Eq, Structural, Debug)]
pub enum ErrorKind {
    /// Fewer known slots than the solve needs; recoverable with more input.
    InsufficientInputs,
    /// An exact-equality constraint where only inequalities are meaningful
    /// for a continuous quantity.
    ExactOnContinuous,
    /// A range constraint where a single-sided inversion is required.
    RangeNotSolvable,
    /// Parameters or values outside the valid domain, including values that
    /// leave the representable fixed-point range.
    DomainInvalid,
    /// The root finder found no defined seed point to bracket from.
    NoBracket,
    /// The root finder found no sign change before its bounds ran out.
    NoSignChange,
    /// A candidate root failed the residual accuracy check.
    NoSolutionFound,
    /// Solving scale at the median probability is under-determined.
    AmbiguousAtMedian,
    /// The probability lies on the wrong side of one half for the relative
    /// position of the x value.
    ProbabilitySideMismatch,
    /// The x value coincides with the location, so no shape fits.
    LocationEqualsX,
    /// A contingency table with logical cells still missing.
    IncompleteTable,
    /// A slot this family cannot solve for.
    UnsupportedSlot,
}

/// A solving failure: one fixed message per variant.
#[derive(Clone, Copy, PartialEq, Eq, Structural, Debug)]
pub enum SolveError {
    NotEnoughFilled,
    NotEnoughValues,
    ProbabilityNotSet,
    LocationNotSet,
    ScaleNotSet,
    MeanNotSet,
    ExactOnContinuous,
    RangeOnX,
    RangeOnLocation,
    XNotInequality,
    XNotInequalityDot,
    EqualOnX,
    MustUseInequalityOther,
    MustUseInequality,
    InvalidProbability,
    InvalidXValue,
    NotValidNormal,
    NotValidT,
    NotValidChiSquared,
    NotValidF,
    NotValidHypothesis,
    FreedomNegative,
    AmbiguousAtMedian,
    ProbHighXLowMean,
    ProbLowXHighMean,
    ProbHighXLowLocation,
    ProbLowXHighLocation,
    MeanEqualsX,
    LocationEqualsX,
    XAtLocation,
    NoBracket,
    NoSignChange,
    NoSolutionFound,
    FreedomNotSolvable,
    IncompleteTable,
    TableTooSmall,
    /// A computed value left the representable fixed-point range.
    OutOfRange,
}

impl SolveError {
    /// The text of this error, surfaced verbatim.
    pub open spec fn spec_message(self) -> Seq<char> {
        match self {
            SolveError::NotEnoughFilled => "Not enough filled"@,
            SolveError::NotEnoughValues => "Not enough values"@,
            SolveError::ProbabilityNotSet => "Probability must be set"@,
            SolveError::LocationNotSet => "Location must be set"@,
            SolveError::ScaleNotSet => "Scale must be set"@,
            SolveError::MeanNotSet => "Mean must be set"@,
            SolveError::ExactOnContinuous => "Cannot use exact in a continuous distribution."@,
            SolveError::RangeOnX => "Cannot use ranges for solving for x values."@,
            SolveError::RangeOnLocation => "Cannot use range to solve for mean."@,
            SolveError::XNotInequality => "X value must be an inequality"@,
            SolveError::XNotInequalityDot => "X value must be an inequality."@,
            SolveError::EqualOnX => "Cannot use equal on x value."@,
            SolveError::MustUseInequalityOther => "X value must use inequality to solve for other value"@,
            SolveError::MustUseInequality => "Must use inequality to solve for another value."@,
            SolveError::InvalidProbability => "Not a valid probability."@,
            SolveError::InvalidXValue => "Invalid x value"@,
            SolveError::NotValidNormal => "Not a valid Normal distr"@,
            SolveError::NotValidT => "Not a valid T distr"@,
            SolveError::NotValidChiSquared => "Not a valid Chi squared distr"@,
            SolveError::NotValidF => "Not a valid F distr"@,
            SolveError::NotValidHypothesis => "Not a valid hypothesis"@,
            SolveError::FreedomNegative => "Freedom cannot be negative"@,
            SolveError::AmbiguousAtMedian => "Not enough information, prob must not be 0.5"@,
            SolveError::ProbHighXLowMean => "Prob > 0.5 but x value is less than the mean"@,
            SolveError::ProbLowXHighMean => "Prob < 0.5 but x value is greater than the mean"@,
            SolveError::ProbHighXLowLocation => "Prob > 0.5 but x value is less than the location"@,
            SolveError::ProbLowXHighLocation => "Prob < 0.5 but x value is greater than the location"@,
            SolveError::MeanEqualsX => "Not enough information, mean and x value are the same"@,
            SolveError::LocationEqualsX => "Not enough information, location and x value are the same"@,
            SolveError::XAtLocation => "X value must not be the location"@,
            SolveError::NoBracket => "No freedom value found"@,
            SolveError::NoSignChange => "No freedom value found"@,
            SolveError::NoSolutionFound => "No freedom value found. P value must be closer to 0.5 than for the normal distribution"@,
            SolveError::FreedomNotSolvable => "Cannot solve for freedom yet"@,
            SolveError::IncompleteTable => "Not a filled table"@,
            SolveError::TableTooSmall => "Not large enough table"@,
            SolveError::OutOfRange => "Value out of range"@,
        }
    }

    /// The coarse class this failure belongs to.
    pub open spec fn spec_kind(self) -> ErrorKind {
        match self {
            SolveError::NotEnoughFilled => ErrorKind::InsufficientInputs,
            SolveError::NotEnoughValues => ErrorKind::InsufficientInputs,
            SolveError::ProbabilityNotSet => ErrorKind::InsufficientInputs,
            SolveError::LocationNotSet => ErrorKind::InsufficientInputs,
            SolveError::ScaleNotSet => ErrorKind::InsufficientInputs,
            SolveError::MeanNotSet => ErrorKind::InsufficientInputs,
            SolveError::ExactOnContinuous => ErrorKind::ExactOnContinuous,
            SolveError::RangeOnX => ErrorKind::RangeNotSolvable,
            SolveError::RangeOnLocation => ErrorKind::RangeNotSolvable,
            SolveError::XNotInequality => ErrorKind::ExactOnContinuous,
            SolveError::XNotInequalityDot => ErrorKind::ExactOnContinuous,
            SolveError::EqualOnX => ErrorKind::ExactOnContinuous,
            SolveError::MustUseInequalityOther => ErrorKind::ExactOnContinuous,
            SolveError::MustUseInequality => ErrorKind::ExactOnContinuous,
            SolveError::InvalidProbability => ErrorKind::DomainInvalid,
            SolveError::InvalidXValue => ErrorKind::DomainInvalid,
            SolveError::NotValidNormal => ErrorKind::DomainInvalid,
            SolveError::NotValidT => ErrorKind::DomainInvalid,
            SolveError::NotValidChiSquared => ErrorKind::DomainInvalid,
            SolveError::NotValidF => ErrorKind::DomainInvalid,
            SolveError::NotValidHypothesis => ErrorKind::DomainInvalid,
            SolveError::FreedomNegative => ErrorKind::DomainInvalid,
            SolveError::AmbiguousAtMedian => ErrorKind::AmbiguousAtMedian,
            SolveError::ProbHighXLowMean => ErrorKind::ProbabilitySideMismatch,
            SolveError::ProbLowXHighMean => ErrorKind::ProbabilitySideMismatch,
            SolveError::ProbHighXLowLocation => ErrorKind::ProbabilitySideMismatch,
            SolveError::ProbLowXHighLocation => ErrorKind::ProbabilitySideMismatch,
            SolveError::MeanEqualsX => ErrorKind::LocationEqualsX,
            SolveError::LocationEqualsX => ErrorKind::LocationEqualsX,
            SolveError::XAtLocation => ErrorKind::LocationEqualsX,
            SolveError::NoBracket => ErrorKind::NoBracket,
            SolveError::NoSignChange => ErrorKind::NoSignChange,
            SolveError::NoSolutionFound => ErrorKind::NoSolutionFound,
            SolveError::FreedomNotSolvable => ErrorKind::UnsupportedSlot,
            SolveError::IncompleteTable => ErrorKind::IncompleteTable,
            SolveError::TableTooSmall => ErrorKind::IncompleteTable,
            SolveError::OutOfRange => ErrorKind::DomainInvalid,
        }
    }

    /// The coarse class this failure belongs to.
    pub fn kind(&self) -> (r: ErrorKind)
        ensures
            r == self.spec_kind(),
    {
        match self {
            SolveError::NotEnoughFilled => ErrorKind::InsufficientInputs,
            SolveError::NotEnoughValues => ErrorKind::InsufficientInputs,
            SolveError::ProbabilityNotSet => ErrorKind::InsufficientInputs,
            SolveError::LocationNotSet => ErrorKind::InsufficientInputs,
            SolveError::ScaleNotSet => ErrorKind::InsufficientInputs,
            SolveError::MeanNotSet => ErrorKind::InsufficientInputs,
            SolveError::ExactOnContinuous => ErrorKind::ExactOnContinuous,
            SolveError::RangeOnX => ErrorKind::RangeNotSolvable,
            SolveError::RangeOnLocation => ErrorKind::RangeNotSolvable,
            SolveError::XNotInequality => ErrorKind::ExactOnContinuous,
            SolveError::XNotInequalityDot => ErrorKind::ExactOnContinuous,
            SolveError::EqualOnX => ErrorKind::ExactOnContinuous,
            SolveError::MustUseInequalityOther => ErrorKind::ExactOnContinuous,
            SolveError::MustUseInequality => ErrorKind::ExactOnContinuous,
            SolveError::InvalidProbability => ErrorKind::DomainInvalid,
            SolveError::InvalidXValue => ErrorKind::DomainInvalid,
            SolveError::NotValidNormal => ErrorKind::DomainInvalid,
            SolveError::NotValidT => ErrorKind::DomainInvalid,
            SolveError::NotValidChiSquared => ErrorKind::DomainInvalid,
            SolveError::NotValidF => ErrorKind::DomainInvalid,
            SolveError::NotValidHypothesis => ErrorKind::DomainInvalid,
            SolveError::FreedomNegative => ErrorKind::DomainInvalid,
            SolveError::AmbiguousAtMedian => ErrorKind::AmbiguousAtMedian,
            SolveError::ProbHighXLowMean => ErrorKind::ProbabilitySideMismatch,
            SolveError::ProbLowXHighMean => ErrorKind::ProbabilitySideMismatch,
            SolveError::ProbHighXLowLocation => ErrorKind::ProbabilitySideMismatch,
            SolveError::ProbLowXHighLocation => ErrorKind::ProbabilitySideMismatch,
            SolveError::MeanEqualsX => ErrorKind::LocationEqualsX,
            SolveError::LocationEqualsX => ErrorKind::LocationEqualsX,
            SolveError::XAtLocation => ErrorKind::LocationEqualsX,
            SolveError::NoBracket => ErrorKind::NoBracket,
            SolveError::NoSignChange => ErrorKind::NoSignChange,
            SolveError::NoSolutionFound => ErrorKind::NoSolutionFound,
            SolveError::FreedomNotSolvable => ErrorKind::UnsupportedSlot,
            SolveError::IncompleteTable => ErrorKind::IncompleteTable,
            SolveError::TableTooSmall => ErrorKind::IncompleteTable,
            SolveError::OutOfRange => ErrorKind::DomainInvalid,
        }
    }

    /// The text of this error, surfaced verbatim.
    pub fn message(&self) -> (r: String)
        ensures
            r@ == self.spec_message(),
    {
        match self {
            SolveError::NotEnoughFilled => String::from_str("Not enough filled"),
            SolveError::NotEnoughValues => String::from_str("Not enough values"),
            SolveError::ProbabilityNotSet => String::from_str("Probability must be set"),
            SolveError::LocationNotSet => String::from_str("Location must be set"),
            SolveError::ScaleNotSet => String::from_str("Scale must be set"),
            SolveError::MeanNotSet => String::from_str("Mean must be set"),
            SolveError::ExactOnContinuous => String::from_str(
                "Cannot use exact in a continuous distribution.",
            ),
            SolveError::RangeOnX => String::from_str(
                "Cannot use ranges for solving for x values.",
            ),
            SolveError::RangeOnLocation => String::from_str(
                "Cannot use range to solve for mean.",
            ),
            SolveError::XNotInequality => String::from_str("X value must be an inequality"),
            SolveError::XNotInequalityDot => String::from_str("X value must be an inequality."),
            SolveError::EqualOnX => String::from_str("Cannot use equal on x value."),
            SolveError::MustUseInequalityOther => String::from_str(
                "X value must use inequality to solve for other value",
            ),
            SolveError::MustUseInequality => String::from_str(
                "Must use inequality to solve for another value.",
            ),
            SolveError::InvalidProbability => String::from_str("Not a valid probability."),
            SolveError::InvalidXValue => String::from_str("Invalid x value"),
            SolveError::NotValidNormal => String::from_str("Not a valid Normal distr"),
            SolveError::NotValidT => String::from_str("Not a valid T distr"),
            SolveError::NotValidChiSquared => String::from_str("Not a valid Chi squared distr"),
            SolveError::NotValidF => String::from_str("Not a valid F distr"),
            SolveError::NotValidHypothesis => String::from_str("Not a valid hypothesis"),
            SolveError::FreedomNegative => String::from_str("Freedom cannot be negative"),
            SolveError::AmbiguousAtMedian => String::from_str(
                "Not enough information, prob must not be 0.5",
            ),
            SolveError::ProbHighXLowMean => String::from_str(
                "Prob > 0.5 but x value is less than the mean",
            ),
            SolveError::ProbLowXHighMean => String::from_str(
                "Prob < 0.5 but x value is greater than the mean",
            ),
            SolveError::ProbHighXLowLocation => String::from_str(
                "Prob > 0.5 but x value is less than the location",
            ),
            SolveError::ProbLowXHighLocation => String::from_str(
                "Prob < 0.5 but x value is greater than the location",
            ),
            SolveError::MeanEqualsX => String::from_str(
                "Not enough information, mean and x value are the same",
            ),
            SolveError::LocationEqualsX => String::from_str(
                "Not enough information, location and x value are the same",
            ),
            SolveError::XAtLocation => String::from_str("X value must not be the location"),
            SolveError::NoBracket => String::from_str("No freedom value found"),
            SolveError::NoSignChange => String::from_str("No freedom value found"),
            SolveError::NoSolutionFound => String::from_str(
                "No freedom value found. P value must be closer to 0.5 than for the normal distribution",
            ),
            SolveError::FreedomNotSolvable => String::from_str("Cannot solve for freedom yet"),
            SolveError::IncompleteTable => String::from_str("Not a filled table"),
            SolveError::TableTooSmall => String::from_str("Not large enough table"),
            SolveError::OutOfRange => String::from_str("Value out of range"),
        }
    }
}

} // verus!
