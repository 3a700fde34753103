use vstd::prelude::*;
use crate::error::ClusterError;

verus! {

/// Every row length equals `d`.
pub open spec fn uniform_rows(row_lens: Seq<usize>, d: usize) -> bool {
    forall|i: int| 0 <= i < row_lens.len() ==> row_lens[i] == d
}

/// The outcome of checking a dataset's shape, given each point's length: its
/// dimensionality, or why the points do not form a dataset.
pub open spec fn shape_check(row_lens: Seq<usize>) -> Result<usize, ClusterError> {
    if row_lens.len() == 0 {
        Err(ClusterError::EmptyInput)
    } else if row_lens[0] > 0 && uniform_rows(row_lens, row_lens[0]) {
        Ok(row_lens[0])
    } else {
        Err(ClusterError::DimensionMismatch)
    }
}

/// A shape check followed by a parameter check: the shape's failure if it
/// failed, else `err` when the parameters are not acceptable.
pub open spec fn then_params(
    shape: Result<usize, ClusterError>,
    params_ok: bool,
    err: ClusterError,
) -> Result<usize, ClusterError> {
    match shape {
        Err(e) => Err(e),
        Ok(d) => if params_ok {
            Ok(d)
        } else {
            Err(err)
        },
    }
}

/// Checks the shape of a dataset given the length of each of its points.
///
/// Succeeds with the common dimensionality when there is at least one point
/// and every point has the same, non-zero, number of coordinates.
pub fn validate_dataset(row_lens: &Vec<usize>) -> (r: Result<usize, ClusterError>)
    ensures
        r == shape_check(row_lens@),
{
    if row_lens.len() == 0 {
        return Err(ClusterError::EmptyInput);
    }
    let d = row_lens[0];
    if d == 0 {
        return Err(ClusterError::DimensionMismatch);
    }
    let mut i: usize = 1;
    while i < row_lens.len()
        invariant
            1 <= i <= row_lens@.len(),
            d == row_lens@[0],
            forall|j: int| 0 <= j < i ==> row_lens@[j] == d,
        decreases row_lens@.len() - i,
    {
        if row_lens[i] != d {
            return Err(ClusterError::DimensionMismatch);
        }
        i += 1;
    }
    Ok(d)
}

/// Checks the inputs of density-based clustering: a well-shaped dataset, and
/// a neighbour count `min_samples` of at least one that leaves a `min_samples`-th
/// other point for every point, i.e. below the number of points.
pub fn validate_density_input(row_lens: &Vec<usize>, min_samples: usize) -> (r: Result<
    usize,
    ClusterError,
>)
    ensures
        r == then_params(
            shape_check(row_lens@),
            1 <= min_samples < row_lens@.len(),
            ClusterError::InvalidParameter,
        ),
{
    let d = validate_dataset(row_lens)?;
    if min_samples == 0 || min_samples >= row_lens.len() {
        return Err(ClusterError::InvalidParameter);
    }
    Ok(d)
}

/// Checks the inputs of centroid clustering: a well-shaped dataset and a
/// cluster count between one and the number of points; a count outside that
/// range is a `FitError`.
pub fn validate_centroid_input(row_lens: &Vec<usize>, n_clusters: usize) -> (r: Result<
    usize,
    ClusterError,
>)
    ensures
        r == then_params(
            shape_check(row_lens@),
            1 <= n_clusters <= row_lens@.len(),
            ClusterError::FitError,
        ),
{
    let d = validate_dataset(row_lens)?;
    if n_clusters == 0 || n_clusters > row_lens.len() {
        return Err(ClusterError::FitError);
    }
    Ok(d)
}

/// Checks the inputs of mixture clustering: a well-shaped dataset and a
/// component count between one and the number of points; a count outside
/// that range is an `InvalidParameter`.
pub fn validate_mixture_input(row_lens: &Vec<usize>, n_clusters: usize) -> (r: Result<
    usize,
    ClusterError,
>)
    ensures
        r == then_params(
            shape_check(row_lens@),
            1 <= n_clusters <= row_lens@.len(),
            ClusterError::InvalidParameter,
        ),
{
    let d = validate_dataset(row_lens)?;
    if n_clusters == 0 || n_clusters > row_lens.len() {
        return Err(ClusterError::InvalidParameter);
    }
    Ok(d)
}

} // verus!
