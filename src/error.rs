//! The errors that construction, conversion and parsing report.
use vstd::prelude::*;

verus! {

/// A conversion whose value lies outside the destination's range.
#[derive(Debug, Clone, Copy, PartialEq, Eq, Structural)]
pub struct TryFromIntError;

impl TryFromIntError {
    /// The text that describes the error.
    pub fn message(&self) -> (r: &'static str)
        ensures
            r@ == "out of range integral type conversion attempted"@,
    {
        "out of range integral type conversion attempted"
    }
}

/// Why text could not be parsed as a bounded integer.
#[derive(Debug, Clone, Copy, PartialEq, Eq, Structural)]
pub enum IntErrorKind {
    /// The text is empty.
    Empty,
    /// The text holds something other than an optional sign and digits.
    InvalidDigit,
    /// The value is above the range.
    PosOverflow,
    /// The value is below the range.
    NegOverflow,
    /// The value would be zero for a kind that excludes zero.
    Zero,
}

/// An error from parsing text as a bounded integer.
#[derive(Debug, Clone, Copy, PartialEq, Eq, Structural)]
pub struct ParseIntError {
    pub(crate) kind: IntErrorKind,
}

impl ParseIntError {
    pub closed spec fn spec_kind(&self) -> IntErrorKind {
        self.kind
    }

    pub(crate) fn from_kind(kind: IntErrorKind) -> (r: ParseIntError)
        ensures
            r.spec_kind() == kind,
    {
        ParseIntError { kind }
    }

    /// The text that describes the error, by its kind.
    pub fn message(&self) -> (r: &'static str)
        ensures
            r@ == (match self.spec_kind() {
                IntErrorKind::Empty => "cannot parse integer from empty string"@,
                IntErrorKind::InvalidDigit => "invalid digit found in string"@,
                IntErrorKind::PosOverflow => "number too large to fit in target type"@,
                IntErrorKind::NegOverflow => "number too small to fit in target type"@,
                IntErrorKind::Zero => "number would be zero for non-zero type"@,
            }),
    {
        match self.kind {
            IntErrorKind::Empty => "cannot parse integer from empty string",
            IntErrorKind::InvalidDigit => "invalid digit found in string",
            IntErrorKind::PosOverflow => "number too large to fit in target type",
            IntErrorKind::NegOverflow => "number too small to fit in target type",
            IntErrorKind::Zero => "number would be zero for non-zero type",
        }
    }

    /// The detailed cause of the failure.
    pub fn kind(&self) -> (r: &IntErrorKind)
        ensures
            *r == self.spec_kind(),
    {
        &self.kind
    }
}

} // verus!
