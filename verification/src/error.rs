//! The ways in which building a color can fail.

use vstd::prelude::*;

verus! {

/// Crate-wide error type.
///
/// Only the validating constructors return it; no conversion can fail.
#[derive(Clone, Copy, PartialEq, Eq, Structural, Debug)]
pub enum Error {
    /// A parameter that stands for a percentage is greater than 100.
    /// Returned by [`Cmyk::new`](crate::Cmyk::new) and
    /// [`Hsl::new`](crate::Hsl::new).
    PercentageOverflow,
    /// A parameter that stands for a degree value is greater than 360.
    /// Returned by [`Hsl::new`](crate::Hsl::new).
    DegreeOverflow,
}

} // verus!
