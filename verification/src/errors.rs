//! The configuration and arithmetic errors that trajectory construction and
//! evaluation report.

use vstd::prelude::*;

verus! {

/// Why an operation on a trajectory, a field or a local k-space was refused.
#[derive(Clone, Copy, PartialEq, Eq, Structural, Debug)]
pub enum KError {
    /// Two dimensioned values (a field of view and a grid) differ in arity.
    ArityMismatch,
    /// A sample or spoke does not match the established channel count.
    ChannelMismatch,
    /// A step size was requested from a zero extent.
    ZeroDivisor,
    /// An intermediate value does not fit the fixed-point representation,
    /// or a count does not fit `usize`.
    Overflow,
    /// A gradient lacks the axis that the queried position requires.
    MissingAxis,
    /// A field expression could not be evaluated at the queried position.
    EvalFailed,
}

} // verus!
