//! What the store reports of a read to a sink for metrics, if there is one.

use vstd::prelude::*;

verus! {

/// The channels on which a read is reported.
#[derive(Clone, Copy, Debug, PartialEq, Eq, Hash, Structural)]
pub enum ObservationMetric {
    /// The size of the blob that was asked for, in bytes.
    LocalStoreReadBlobSize,
    /// The time that the read took, in microseconds.
    LocalStoreReadBlobTimeMicros,
}

/// What to report of a read of a blob of `size_bytes` that took `elapsed_micros`
/// microseconds: the size, then the time, cut to its low 64 bits.
pub fn read_observations(size_bytes: u64, elapsed_micros: u128) -> (observations: Vec<
    (ObservationMetric, u64),
>)
    ensures
        observations@ == seq![
            (ObservationMetric::LocalStoreReadBlobSize, size_bytes),
            (
                ObservationMetric::LocalStoreReadBlobTimeMicros,
                (elapsed_micros % 0x1_0000_0000_0000_0000) as u64,
            ),
        ],
{
    let micros: u64 = (elapsed_micros % 0x1_0000_0000_0000_0000) as u64;
    let mut observations: Vec<(ObservationMetric, u64)> = Vec::new();
    observations.push((ObservationMetric::LocalStoreReadBlobSize, size_bytes));
    observations.push((ObservationMetric::LocalStoreReadBlobTimeMicros, micros));
    assert(observations@ =~= seq![
        (ObservationMetric::LocalStoreReadBlobSize, size_bytes),
        (ObservationMetric::LocalStoreReadBlobTimeMicros, micros),
    ]);
    observations
}

} // verus!
