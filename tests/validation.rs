use rzn_cluster::{
    validate_centroid_input, validate_dataset, validate_density_input, validate_mixture_input,
    ClusterError,
};

#[test]
fn empty_dataset_is_rejected() {
    assert_eq!(validate_dataset(&vec![]), Err(ClusterError::EmptyInput));
    assert_eq!(validate_density_input(&vec![], 1), Err(ClusterError::EmptyInput));
    assert_eq!(validate_centroid_input(&vec![], 1), Err(ClusterError::EmptyInput));
    assert_eq!(validate_mixture_input(&vec![], 1), Err(ClusterError::EmptyInput));
}

#[test]
fn uniform_dataset_gives_its_dimension() {
    assert_eq!(validate_dataset(&vec![3, 3, 3]), Ok(3));
    assert_eq!(validate_dataset(&vec![2]), Ok(2));
}

#[test]
fn ragged_dataset_is_a_dimension_mismatch() {
    assert_eq!(validate_dataset(&vec![2, 2, 3]), Err(ClusterError::DimensionMismatch));
    assert_eq!(validate_dataset(&vec![2, 1, 3]), Err(ClusterError::DimensionMismatch));
}

#[test]
fn zero_length_points_are_a_dimension_mismatch() {
    assert_eq!(validate_dataset(&vec![0, 0]), Err(ClusterError::DimensionMismatch));
}

#[test]
fn single_point_density_clustering_is_invalid() {
    assert_eq!(validate_density_input(&vec![2], 1), Err(ClusterError::InvalidParameter));
    assert_eq!(validate_density_input(&vec![2], 5), Err(ClusterError::InvalidParameter));
}

#[test]
fn density_neighbour_count_must_be_below_point_count() {
    assert_eq!(validate_density_input(&vec![2; 5], 4), Ok(2));
    assert_eq!(validate_density_input(&vec![2; 5], 5), Err(ClusterError::InvalidParameter));
    assert_eq!(validate_density_input(&vec![2; 5], 0), Err(ClusterError::InvalidParameter));
}

#[test]
fn shape_error_comes_before_parameter_error() {
    assert_eq!(validate_density_input(&vec![2, 3], 5), Err(ClusterError::DimensionMismatch));
}

#[test]
fn centroid_cluster_count_out_of_range_is_a_fit_error() {
    assert_eq!(validate_centroid_input(&vec![2; 4], 0), Err(ClusterError::FitError));
    assert_eq!(validate_centroid_input(&vec![2; 4], 5), Err(ClusterError::FitError));
    assert_eq!(validate_centroid_input(&vec![2; 4], 4), Ok(2));
    assert_eq!(validate_centroid_input(&vec![2; 4], 1), Ok(2));
}

#[test]
fn mixture_component_count_out_of_range_is_invalid() {
    assert_eq!(validate_mixture_input(&vec![3; 4], 0), Err(ClusterError::InvalidParameter));
    assert_eq!(validate_mixture_input(&vec![3; 4], 5), Err(ClusterError::InvalidParameter));
    assert_eq!(validate_mixture_input(&vec![3; 4], 3), Ok(3));
}
