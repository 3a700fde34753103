use linfa::traits::{Fit, Predict};
use linfa::DatasetBase;
use linfa_clustering::KMeans;
use ndarray::Array2;
use petal_clustering::{Fit as PetalFit, HDbscan};
use rand::SeedableRng;
use rand_distr::{Distribution, Normal};
use rand_xoshiro::Xoshiro256Plus;
use rzn_cluster::{validate_centroid_input, validate_density_input, ClusteringResult};

const CENTERS: [(f64, f64); 3] = [(0.0, 0.0), (5.0, 5.0), (-5.0, 5.0)];

fn blobs(with_noise: bool) -> Vec<Vec<f64>> {
    let mut rng = Xoshiro256Plus::seed_from_u64(42);
    let std_devs = [0.5, 0.8, 0.3];
    let mut data = Vec::new();
    for i in 0..3 {
        let nx = Normal::new(CENTERS[i].0, std_devs[i]).unwrap();
        let ny = Normal::new(CENTERS[i].1, std_devs[i]).unwrap();
        for _ in 0..50 {
            let x = nx.sample(&mut rng);
            let y = ny.sample(&mut rng);
            data.push(vec![x, y]);
        }
    }
    if with_noise {
        let noise = Normal::new(0.0, 10.0).unwrap();
        for _ in 0..20 {
            let x = noise.sample(&mut rng);
            let y = noise.sample(&mut rng);
            data.push(vec![x, y]);
        }
    }
    data
}

fn to_array(data: &[Vec<f64>]) -> Array2<f64> {
    let flat: Vec<f64> = data.iter().flat_map(|v| v.iter().cloned()).collect();
    Array2::from_shape_vec((data.len(), 2), flat).unwrap()
}

#[test]
fn density_clustering_finds_three_blobs_and_the_noise() {
    let data = blobs(true);
    let row_lens: Vec<usize> = data.iter().map(|v| v.len()).collect();
    assert_eq!(validate_density_input(&row_lens, 5), Ok(2));
    let mut hdbscan = HDbscan {
        eps: 0.0001,
        alpha: 1.0,
        min_samples: 5,
        min_cluster_size: 10,
        boruvka: true,
        ..HDbscan::default()
    };
    let (clusters, _noise) = PetalFit::fit(&mut hdbscan, &to_array(&data));
    let groups: Vec<(usize, Vec<usize>)> = clusters.into_iter().collect();
    let r = ClusteringResult::from_groups(data.len(), &groups).unwrap();
    assert_eq!(r.assignments.len(), 170);
    assert_eq!(r.clusters.len(), 3);
    assert!(r.outliers.len() >= 15 && r.outliers.len() <= 20, "outliers: {}", r.outliers.len());
    assert!(r.clusters.keys().all(|k| *k > 0));
}

#[test]
fn centroid_clustering_recovers_the_centers() {
    let data = blobs(false);
    let row_lens: Vec<usize> = data.iter().map(|v| v.len()).collect();
    assert_eq!(validate_centroid_input(&row_lens, 3), Ok(2));
    let dataset = DatasetBase::from(to_array(&data));
    let model = KMeans::params_with_rng(3, Xoshiro256Plus::seed_from_u64(42))
        .max_n_iterations(100)
        .tolerance(1e-4)
        .fit(&dataset)
        .unwrap();
    let labels: Vec<usize> = model.predict(dataset).targets().iter().copied().collect();
    let r = ClusteringResult::from_labels(&labels, false);
    assert_eq!(r.clusters.len(), 3);
    assert!(r.outliers.is_empty());
    for members in r.clusters.values() {
        let n = members.len() as f64;
        let cx = members.iter().map(|&i| data[i][0]).sum::<f64>() / n;
        let cy = members.iter().map(|&i| data[i][1]).sum::<f64>() / n;
        let nearest = CENTERS
            .iter()
            .map(|&(x, y)| ((cx - x).powi(2) + (cy - y).powi(2)).sqrt())
            .fold(f64::INFINITY, f64::min);
        assert!(nearest < 0.5, "centroid ({}, {}) is {} from every center", cx, cy, nearest);
    }
}
