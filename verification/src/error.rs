//! Failures of the differentiation core.
//!
//! All three indicate inconsistent shapes handed in by the caller; none
//! is transient, and no partial result accompanies any of them.

use vstd::prelude::*;

verus! {

/// A shape error raised by forward evaluation, gradient reduction or
/// gradient expansion.
#[derive(Clone, Copy, PartialEq, Eq, Structural, Debug)]
pub enum OpError {
    /// Two operand shapes cannot be broadcast together.
    ShapeIncompatible,
    /// During gradient reduction, a target axis size exceeds the
    /// corresponding gradient axis size: the declared pre-broadcast shape
    /// disagrees with the observed output-gradient shape.
    GradientShapeInconsistent,
    /// The expander cannot broadcast a reduced gradient into the
    /// requested target shape.
    BroadcastFailure,
}

} // verus!
