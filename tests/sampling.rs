use rzn_cluster::sample_indices;

#[test]
fn no_sample_size_keeps_every_index() {
    assert_eq!(sample_indices(4, None), vec![0, 1, 2, 3]);
    assert!(sample_indices(0, None).is_empty());
}

#[test]
fn sample_is_ascending_distinct_and_sized() {
    let s = sample_indices(20, Some(7));
    assert_eq!(s.len(), 7);
    assert!(s.windows(2).all(|w| w[0] < w[1]));
    assert!(s.iter().all(|&i| i < 20));
}

#[test]
fn oversized_sample_keeps_every_index() {
    assert_eq!(sample_indices(5, Some(20)), vec![0, 1, 2, 3, 4]);
}

#[test]
fn sample_is_reproducible() {
    assert_eq!(sample_indices(50, Some(10)), sample_indices(50, Some(10)));
}

#[test]
fn sample_of_ten_is_fixed_by_the_seed() {
    assert_eq!(sample_indices(10, Some(3)), vec![5, 6, 9]);
    assert_eq!(sample_indices(10, Some(5)), vec![4, 5, 6, 7, 9]);
}

#[test]
fn empty_sample_is_empty() {
    assert!(sample_indices(10, Some(0)).is_empty());
}
