//! Integer core of a small clustering toolkit: dataset shape checks, engine
//! parameter checks, the uniform clustering result and its grouping helpers,
//! and the index sampling that precedes an embedding.

pub mod error;
pub mod dataset;
pub mod result;
pub mod grouping;
pub mod sampling;

pub use error::ClusterError;
pub use dataset::{validate_dataset, validate_density_input, validate_centroid_input, validate_mixture_input};
pub use result::ClusteringResult;
pub use grouping::group_by_cluster;
pub use sampling::sample_indices;
