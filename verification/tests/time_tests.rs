use local_store::time::expired_seconds_ago;
use local_store::time::LeaseTime;
use local_store::time::Timestamp;
use local_store::time::NANOS_PER_SEC;

fn at(secs: i64, nanos: u32) -> Timestamp {
    Timestamp::new(secs, nanos).unwrap()
}

#[test]
fn timestamp_rejects_a_full_second_of_nanos() {
    assert!(Timestamp::new(0, NANOS_PER_SEC - 1).is_some());
    assert!(Timestamp::new(0, NANOS_PER_SEC).is_none());
    assert!(LeaseTime::new(0, NANOS_PER_SEC - 1).is_some());
    assert!(LeaseTime::new(7, NANOS_PER_SEC).is_none());
}

#[test]
fn fresh_lease_is_unexpired() {
    let lease = LeaseTime::from_secs(3600);
    let now = at(1_000_000, 0);
    // written 10 ms ago
    let mtime = at(999_999, 990_000_000);
    assert_eq!(expired_seconds_ago(now, lease, mtime), 0);
    assert_eq!(expired_seconds_ago(now, lease, now), 0);
}

#[test]
fn lease_expires_one_second_after_its_end() {
    let lease = LeaseTime::from_secs(3600);
    let mtime = at(10_000, 500_000_000);
    assert_eq!(expired_seconds_ago(at(13_600, 500_000_000), lease, mtime), 0);
    assert_eq!(expired_seconds_ago(at(13_601, 499_999_999), lease, mtime), 0);
    assert_eq!(expired_seconds_ago(at(13_601, 500_000_000), lease, mtime), 1);
    assert_eq!(expired_seconds_ago(at(13_700, 0), lease, mtime), 99);
}

#[test]
fn expired_seconds_are_whole_seconds_of_the_difference() {
    let lease = LeaseTime::new(1, 250_000_000).unwrap();
    let mtime = at(100, 900_000_000);
    // 110.0 - 1.25 - 100.9 = 7.85
    assert_eq!(expired_seconds_ago(at(110, 0), lease, mtime), 7);
    // 110.15 - 1.25 - 100.9 = 8.0
    assert_eq!(expired_seconds_ago(at(110, 150_000_000), lease, mtime), 8);
}

#[test]
fn mtime_in_the_future_counts_as_leased() {
    let lease = LeaseTime::from_secs(0);
    assert_eq!(expired_seconds_ago(at(100, 0), lease, at(200, 0)), 0);
    assert_eq!(expired_seconds_ago(at(100, 0), LeaseTime::from_secs(1000), at(50, 0)), 0);
}

#[test]
fn times_before_the_epoch_are_handled() {
    let lease = LeaseTime::from_secs(10);
    let mtime = Timestamp::from_epoch_offset(true, 100, 500_000_000).unwrap();
    // 5 - 10 - (-100.5) = 95.5
    assert_eq!(expired_seconds_ago(at(5, 0), lease, mtime), 95);
    let same = at(-101, 500_000_000);
    assert_eq!(expired_seconds_ago(at(5, 0), lease, same), 95);
}

#[test]
fn extreme_times_do_not_overflow() {
    let lease = LeaseTime::from_secs(0);
    let earliest = at(i64::MIN, 0);
    let latest = at(i64::MAX, NANOS_PER_SEC - 1);
    assert_eq!(expired_seconds_ago(latest, lease, earliest), u64::MAX);
    assert_eq!(expired_seconds_ago(earliest, LeaseTime::from_secs(u64::MAX), latest), 0);
}

#[test]
fn from_epoch_offset_bounds() {
    assert!(Timestamp::from_epoch_offset(false, i64::MAX as u64, 0).is_some());
    assert!(Timestamp::from_epoch_offset(false, i64::MAX as u64 + 1, 0).is_none());
    assert!(Timestamp::from_epoch_offset(true, 1u64 << 63, 0).is_some());
    assert!(Timestamp::from_epoch_offset(true, 1u64 << 63, 1).is_none());
    assert!(Timestamp::from_epoch_offset(true, (1u64 << 63) + 1, 0).is_none());
    assert!(Timestamp::from_epoch_offset(true, 0, NANOS_PER_SEC).is_none());
    let lease = LeaseTime::from_secs(0);
    let after = Timestamp::from_epoch_offset(false, 12, 250_000_000).unwrap();
    let before = Timestamp::from_epoch_offset(true, 0, 750_000_000).unwrap();
    // 12.25 - (-0.75) = 13.0
    assert_eq!(expired_seconds_ago(after, lease, before), 13);
}
