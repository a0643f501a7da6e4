use local_store::digest::EMPTY_FINGERPRINT_BYTES;
use local_store::fingerprint::Fingerprint;
use local_store::fingerprint::FingerprintParseError;
use local_store::fsdb::CopyAttempts;
use local_store::fsdb::CopyStep;
use local_store::fsdb::FileEntry;
use local_store::fsdb::InvalidEntry;
use local_store::fsdb::ShardedFSDB;
use local_store::fsdb::IMMUTABLE_FILE_MODE;
use local_store::fsdb::MAX_COPY_ATTEMPTS;
use local_store::time::LeaseTime;
use local_store::time::Timestamp;

fn fsdb(lease_secs: u64) -> ShardedFSDB {
    ShardedFSDB::new(
        vec![String::from("immutable"), String::from("files")],
        LeaseTime::from_secs(lease_secs),
    )
}

fn entry(name: &str, length: u64, mtime_secs: i64) -> FileEntry {
    FileEntry {
        name: String::from(name),
        length,
        mtime: Timestamp::new(mtime_secs, 0).unwrap(),
    }
}

#[test]
fn get_path_is_root_shard_and_hex() {
    let fingerprint = Fingerprint(EMPTY_FINGERPRINT_BYTES);
    assert_eq!(
        fsdb(1).get_path(fingerprint),
        vec![
            String::from("immutable"),
            String::from("files"),
            String::from("e3"),
            String::from("e3b0c44298fc1c149afbf4c8996fb92427ae41e4649b934ca495991b7852b855"),
        ]
    );
}

#[test]
fn get_path_with_empty_root() {
    let store = ShardedFSDB::new(Vec::new(), LeaseTime::from_secs(1));
    let path = store.get_path(Fingerprint([0x0a; 32]));
    assert_eq!(path, vec![String::from("0a"), "0a".repeat(32)]);
}

#[test]
fn different_fingerprints_have_different_paths() {
    let mut bytes = [0u8; 32];
    let a = Fingerprint(bytes);
    bytes[31] = 1;
    let b = Fingerprint(bytes);
    assert_ne!(fsdb(1).get_path(a), fsdb(1).get_path(b));
    assert_eq!(fsdb(1).get_path(a)[2], fsdb(1).get_path(b)[2]);
}

#[test]
fn immutable_files_are_read_and_execute_only() {
    assert_eq!(IMMUTABLE_FILE_MODE, 0o555);
    assert_eq!(IMMUTABLE_FILE_MODE & 0o222, 0);
}

#[test]
fn exists_batch_keeps_those_found() {
    let a = Fingerprint([1; 32]);
    let b = Fingerprint([2; 32]);
    let c = Fingerprint([3; 32]);
    assert_eq!(ShardedFSDB::exists_batch(&vec![a, b, c], &vec![true, false, true]), vec![a, c]);
    assert_eq!(ShardedFSDB::exists_batch(&vec![a, b, c], &vec![false, false, false]), vec![]);
    assert_eq!(ShardedFSDB::exists_batch(&vec![a], &vec![true]), vec![a]);
    assert_eq!(ShardedFSDB::exists_batch(&vec![a], &vec![false]), vec![]);
    assert_eq!(ShardedFSDB::exists_batch(&vec![], &vec![]), vec![]);
}

#[test]
fn exists_batch_ignores_what_is_beyond_the_shorter_list() {
    let a = Fingerprint([1; 32]);
    let b = Fingerprint([2; 32]);
    assert_eq!(ShardedFSDB::exists_batch(&vec![a, b], &vec![true]), vec![a]);
    assert_eq!(ShardedFSDB::exists_batch(&vec![a], &vec![false, true]), vec![]);
}

#[test]
fn aged_fingerprints_of_a_scan() {
    let now = Timestamp::new(10_000, 0).unwrap();
    let first = Fingerprint([0x11; 32]);
    let second = Fingerprint([0xfe; 32]);
    let entries = vec![
        entry(&first.to_hex(), 1_048_576, 9_990),
        entry(&second.to_hex().to_uppercase(), 524_288, 1_000),
    ];
    let aged = fsdb(3600).aged_fingerprints(now, &entries).unwrap();
    assert_eq!(aged.len(), 2);
    assert_eq!(aged[0].fingerprint, first);
    assert_eq!(aged[0].size_bytes, 1_048_576);
    assert_eq!(aged[0].expired_seconds_ago, 0);
    assert_eq!(aged[1].fingerprint, second);
    assert_eq!(aged[1].size_bytes, 524_288);
    assert_eq!(aged[1].expired_seconds_ago, 10_000 - 3600 - 1_000);
}

#[test]
fn aged_fingerprints_of_an_empty_scan() {
    let now = Timestamp::new(10_000, 0).unwrap();
    assert_eq!(fsdb(3600).aged_fingerprints(now, &Vec::new()).unwrap().len(), 0);
}

#[test]
fn aged_fingerprints_reports_first_malformed_name() {
    let now = Timestamp::new(10_000, 0).unwrap();
    let good = Fingerprint([0x11; 32]).to_hex();
    let entries = vec![
        entry(&good, 1, 0),
        entry(".tmpX1y2Z3", 1, 0),
        entry("not hex at all", 1, 0),
    ];
    assert_eq!(
        fsdb(3600).aged_fingerprints(now, &entries).unwrap_err(),
        InvalidEntry { index: 1, error: FingerprintParseError::WrongLength { length: 10 } }
    );
    let mut bad = good.clone();
    bad.replace_range(5..6, "z");
    let entries = vec![entry(&bad, 1, 0)];
    assert_eq!(
        fsdb(3600).aged_fingerprints(now, &entries).unwrap_err(),
        InvalidEntry { index: 0, error: FingerprintParseError::InvalidCharacter { index: 5 } }
    );
}

#[test]
fn copy_that_verifies_is_persisted() {
    assert!(matches!(CopyAttempts::new().after_copy(false), CopyStep::Persist));
}

#[test]
fn source_mutation_retry() {
    // The source is rewritten between the hash and the first copy: the first copy reports a
    // change, the second one reads a stable file.
    let next = match CopyAttempts::new().after_copy(true) {
        CopyStep::Retry(next) => next,
        other => panic!("expected a retry, got {:?}", other),
    };
    assert!(matches!(next.after_copy(false), CopyStep::Persist));
}

#[test]
fn copy_is_given_up_after_ten_failed_attempts() {
    assert_eq!(MAX_COPY_ATTEMPTS, 10);
    let mut attempts = CopyAttempts::new();
    let mut copies = 0;
    let gave_up = loop {
        copies += 1;
        match attempts.after_copy(true) {
            CopyStep::Retry(next) => attempts = next,
            CopyStep::GiveUp => break true,
            CopyStep::Persist => break false,
        }
    };
    assert!(gave_up);
    assert_eq!(copies, 10);
}

#[test]
fn ninth_failed_copy_is_retried_and_tenth_copy_may_succeed() {
    let mut attempts = CopyAttempts::new();
    for _ in 0..9 {
        attempts = match attempts.after_copy(true) {
            CopyStep::Retry(next) => next,
            other => panic!("expected a retry, got {:?}", other),
        };
    }
    assert!(matches!(attempts.after_copy(false), CopyStep::Persist));
    assert!(matches!(attempts.after_copy(true), CopyStep::GiveUp));
}
