use vstd::prelude::*;

verus! {

/// The ways a clustering call can fail.
#[derive(Debug, Clone, Copy, PartialEq, Eq, Structural)]
pub enum ClusterError {
    /// The dataset has no points.
    EmptyInput,
    /// Points of differing lengths, or points with no coordinates.
    DimensionMismatch,
    /// A parameter that the dataset cannot satisfy.
    InvalidParameter,
    /// The iterative engine could not fit the data.
    FitError,
}

} // verus!
