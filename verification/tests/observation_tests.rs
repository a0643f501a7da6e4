use local_store::observation::read_observations;
use local_store::observation::ObservationMetric;

#[test]
fn read_is_reported_as_size_then_time() {
    assert_eq!(
        read_observations(524_288, 1_500),
        vec![
            (ObservationMetric::LocalStoreReadBlobSize, 524_288),
            (ObservationMetric::LocalStoreReadBlobTimeMicros, 1_500),
        ]
    );
}

#[test]
fn read_time_is_cut_to_64_bits() {
    let observations = read_observations(0, (1u128 << 64) + 7);
    assert_eq!(observations[0], (ObservationMetric::LocalStoreReadBlobSize, 0));
    assert_eq!(observations[1], (ObservationMetric::LocalStoreReadBlobTimeMicros, 7));
    let observations = read_observations(u64::MAX, u64::MAX as u128);
    assert_eq!(observations[0].1, u64::MAX);
    assert_eq!(observations[1].1, u64::MAX);
}
