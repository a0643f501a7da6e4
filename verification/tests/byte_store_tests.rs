use bytes::Bytes;
use local_store::byte_store::contains_fingerprint;
use local_store::byte_store::ByteStore;
use local_store::byte_store::CopyPlan;
use local_store::byte_store::EntryTypeLookup;
use local_store::byte_store::LoadPlan;
use local_store::byte_store::Tier;
use local_store::byte_store::UsedBytesOverflow;
use local_store::byte_store::LARGE_FILE_SIZE_LIMIT;
use local_store::digest::Digest;
use local_store::digest::EMPTY_FINGERPRINT_BYTES;
use local_store::entry::AgedFingerprint;
use local_store::entry::EntryType;
use local_store::entry::ShrinkBehavior;
use local_store::fingerprint::Fingerprint;
use local_store::options::LocalOptions;
use local_store::time::LeaseTime;

fn options() -> LocalOptions {
    LocalOptions {
        files_max_size_bytes: 1 << 30,
        directories_max_size_bytes: 1 << 28,
        lease_time: LeaseTime::from_secs(3600),
        shard_count: 16,
    }
}

fn store() -> ByteStore {
    ByteStore::new_with_options(options(), 42, Ok(()), Ok(()))
}

fn store_without_files() -> ByteStore {
    ByteStore::new_with_options(options(), 42, Err(String::from("no file db")), Ok(()))
}

fn store_without_directories() -> ByteStore {
    ByteStore::new_with_options(options(), 42, Ok(()), Err(String::from("no directory db")))
}

fn store_without_databases() -> ByteStore {
    ByteStore::new_with_options(
        options(),
        42,
        Err(String::from("no file db")),
        Err(String::from("no directory db")),
    )
}

fn fp(id: u8) -> Fingerprint {
    Fingerprint([id; 32])
}

fn digest(id: u8, size_bytes: u64) -> Digest {
    Digest { hash: fp(id), size_bytes }
}

fn aged(id: u8, size_bytes: u64, expired_seconds_ago: u64) -> AgedFingerprint {
    AgedFingerprint { expired_seconds_ago, fingerprint: fp(id), size_bytes }
}

fn blob(len: usize) -> Bytes {
    Bytes::from(vec![7u8; len])
}

#[test]
fn large_file_size_limit_is_512_kib() {
    assert_eq!(LARGE_FILE_SIZE_LIMIT, 524_288);
}

#[test]
fn tier_boundary() {
    assert!(!ByteStore::should_use_fsdb(EntryType::File, 524_287));
    assert!(ByteStore::should_use_fsdb(EntryType::File, 524_288));
    assert!(ByteStore::should_use_fsdb(EntryType::File, 4 * 1024 * 1024));
    assert!(!ByteStore::should_use_fsdb(EntryType::File, 0));
    assert!(!ByteStore::should_use_fsdb(EntryType::Directory, 524_288));
    assert!(!ByteStore::should_use_fsdb(EntryType::Directory, u64::MAX));

    let store = store();
    let small = store.store_bytes(EntryType::File, fp(1), blob(524_287)).unwrap();
    assert_eq!(small.lmdb, Tier::FileLmdb);
    assert_eq!(small.lmdb_items, vec![(fp(1), blob(524_287))]);
    assert!(small.fsdb_items.is_empty());

    let large = store.store_bytes(EntryType::File, fp(2), blob(524_288)).unwrap();
    assert_eq!(large.fsdb_items, vec![(fp(2), blob(524_288))]);
    assert!(large.lmdb_items.is_empty());
    let path = store.load_from_fs(digest(2, 524_288), true).unwrap();
    assert_eq!(path[0], "immutable");
    assert_eq!(path[1], "files");
    assert_eq!(path[2], "02");
    assert_eq!(path[3], "02".repeat(32));
    assert_eq!(path.len(), 4);
}

#[test]
fn store_layout() {
    assert_eq!(ByteStore::lmdb_files_root(), "files");
    assert_eq!(ByteStore::lmdb_directories_root(), "directories");
    assert_eq!(
        ByteStore::fsdb_files_root(),
        vec![String::from("immutable"), String::from("files")]
    );
    let store = store();
    assert_eq!(store.filesystem_device(), 42);
    assert_eq!(
        store.get_file_fsdb().get_path(fp(0xab)),
        vec![String::from("immutable"), String::from("files"), String::from("ab"), "ab".repeat(32)]
    );
}

#[test]
fn tier_routes_by_kind_and_size() {
    let store = store();
    assert_eq!(store.tier(EntryType::File, 10), Ok(Tier::FileLmdb));
    assert_eq!(store.tier(EntryType::File, 524_288), Ok(Tier::FileFsdb));
    assert_eq!(store.tier(EntryType::Directory, 10), Ok(Tier::DirectoryLmdb));
    assert_eq!(store.tier(EntryType::Directory, 524_288), Ok(Tier::DirectoryLmdb));
    assert_eq!(store.lmdb(EntryType::File), Ok(Tier::FileLmdb));
    assert_eq!(store.lmdb(EntryType::Directory), Ok(Tier::DirectoryLmdb));
}

#[test]
fn failed_database_is_reported_on_every_access() {
    let store = store_without_files();
    assert_eq!(store.lmdb(EntryType::File), Err(String::from("no file db")));
    assert_eq!(store.lmdb(EntryType::File), Err(String::from("no file db")));
    assert_eq!(store.tier(EntryType::File, 10), Err(String::from("no file db")));
    assert_eq!(store.tier(EntryType::File, 524_288), Ok(Tier::FileFsdb));
    assert_eq!(store.tier(EntryType::Directory, 10), Ok(Tier::DirectoryLmdb));
    let store = store_without_directories();
    assert_eq!(store.lmdb(EntryType::Directory), Err(String::from("no directory db")));
    assert_eq!(store.tier(EntryType::File, 10), Ok(Tier::FileLmdb));
}

#[test]
fn entry_type_of_empty_fingerprint_is_directory() {
    let empty = Fingerprint(EMPTY_FINGERPRINT_BYTES);
    assert_eq!(store().entry_type(empty), Ok(EntryTypeLookup::Known(EntryType::Directory)));
    assert_eq!(
        store_without_databases().entry_type(empty),
        Ok(EntryTypeLookup::Known(EntryType::Directory))
    );
}

#[test]
fn entry_type_asks_backends_for_other_fingerprints() {
    assert_eq!(store().entry_type(fp(1)), Ok(EntryTypeLookup::AskBackends));
    assert_eq!(store_without_files().entry_type(fp(1)), Err(String::from("no file db")));
    assert_eq!(
        store_without_directories().entry_type(fp(1)),
        Err(String::from("no directory db"))
    );
    assert_eq!(
        store_without_databases().entry_type(fp(1)),
        Err(String::from("no directory db"))
    );
}

#[test]
fn directory_precedence() {
    assert_eq!(ByteStore::entry_type_found(true, true, false), Some(EntryType::Directory));
    assert_eq!(ByteStore::entry_type_found(true, true, true), Some(EntryType::Directory));
    assert_eq!(ByteStore::entry_type_found(true, false, true), Some(EntryType::Directory));
    assert_eq!(ByteStore::entry_type_found(true, false, false), Some(EntryType::Directory));
}

#[test]
fn entry_type_found_in_file_backends() {
    assert_eq!(ByteStore::entry_type_found(false, true, false), Some(EntryType::File));
    assert_eq!(ByteStore::entry_type_found(false, false, true), Some(EntryType::File));
    assert_eq!(ByteStore::entry_type_found(false, true, true), Some(EntryType::File));
    assert_eq!(ByteStore::entry_type_found(false, false, false), None);
}

#[test]
fn lease_all_routes_each_digest() {
    let digests = vec![
        (digest(1, 10), EntryType::File),
        (digest(2, 524_288), EntryType::File),
        (digest(3, 524_288), EntryType::Directory),
    ];
    let plan = store().lease_all(&digests);
    assert_eq!(
        plan.leases,
        vec![(Tier::FileLmdb, fp(1)), (Tier::FileFsdb, fp(2)), (Tier::DirectoryLmdb, fp(3))]
    );
    assert_eq!(plan.failure, None);
    let none = store().lease_all(&Vec::new());
    assert!(none.leases.is_empty());
    assert_eq!(none.failure, None);
}

#[test]
fn lease_all_stops_at_a_failed_database() {
    let digests = vec![
        (digest(2, 524_288), EntryType::File),
        (digest(3, 5), EntryType::Directory),
        (digest(1, 10), EntryType::File),
        (digest(4, 5), EntryType::Directory),
    ];
    let plan = store_without_files().lease_all(&digests);
    assert_eq!(plan.leases, vec![(Tier::FileFsdb, fp(2)), (Tier::DirectoryLmdb, fp(3))]);
    assert_eq!(plan.failure, Some(String::from("no file db")));
}

#[test]
fn remove_routes_by_kind_and_size() {
    let store = store();
    assert_eq!(store.remove(EntryType::Directory, digest(1, 1 << 20)), Ok(Tier::DirectoryLmdb));
    assert_eq!(store.remove(EntryType::File, digest(1, 1 << 20)), Ok(Tier::FileFsdb));
    assert_eq!(store.remove(EntryType::File, digest(1, 100)), Ok(Tier::FileLmdb));
    let broken = store_without_databases();
    assert_eq!(broken.remove(EntryType::File, digest(1, 1 << 20)), Ok(Tier::FileFsdb));
    assert_eq!(broken.remove(EntryType::File, digest(1, 1)), Err(String::from("no file db")));
    assert_eq!(
        broken.remove(EntryType::Directory, digest(1, 1)),
        Err(String::from("no directory db"))
    );
}

#[test]
fn store_bytes_batch_partitions_in_order() {
    let items = vec![
        (fp(1), blob(3)),
        (fp(2), blob(524_288)),
        (fp(3), blob(0)),
        (fp(4), blob(600_000)),
        (fp(5), blob(524_287)),
    ];
    let plan = store().store_bytes_batch(EntryType::File, items.clone()).unwrap();
    assert_eq!(plan.fsdb_items, vec![items[1].clone(), items[3].clone()]);
    assert_eq!(plan.lmdb, Tier::FileLmdb);
    assert_eq!(plan.lmdb_items, vec![items[0].clone(), items[2].clone(), items[4].clone()]);
}

#[test]
fn store_bytes_batch_keeps_directories_in_the_database() {
    let items = vec![(fp(1), blob(3)), (fp(2), blob(524_288))];
    let plan = store().store_bytes_batch(EntryType::Directory, items.clone()).unwrap();
    assert!(plan.fsdb_items.is_empty());
    assert_eq!(plan.lmdb, Tier::DirectoryLmdb);
    assert_eq!(plan.lmdb_items, items);
}

#[test]
fn store_bytes_batch_fails_without_the_database() {
    let large_only = vec![(fp(2), blob(524_288))];
    assert_eq!(
        store_without_files().store_bytes_batch(EntryType::File, large_only).unwrap_err(),
        "no file db"
    );
    assert_eq!(
        store_without_files().store_bytes_batch(EntryType::File, Vec::new()).unwrap_err(),
        "no file db"
    );
    assert!(store_without_files()
        .store_bytes_batch(EntryType::Directory, vec![(fp(1), blob(1))])
        .is_ok());
    assert_eq!(
        store_without_directories().store_bytes(EntryType::Directory, fp(1), blob(1)).unwrap_err(),
        "no directory db"
    );
}

#[test]
fn store_bytes_of_four_mebibytes() {
    let bytes = blob(4 * 1024 * 1024);
    let plan = store().store_bytes(EntryType::File, fp(9), bytes.clone()).unwrap();
    assert_eq!(plan.fsdb_items, vec![(fp(9), bytes.clone())]);
    assert!(plan.lmdb_items.is_empty());
    let load = store().load_bytes_with(EntryType::File, digest(9, bytes.len() as u64));
    assert_eq!(load, Ok(LoadPlan::From(Tier::FileFsdb)));
    assert_eq!(
        ByteStore::len_checked(digest(9, bytes.len() as u64), &bytes, |b| b.len()).unwrap(),
        4 * 1024 * 1024
    );
}

#[test]
fn store_and_load_agree_on_the_tier() {
    for len in [0usize, 1, 524_287, 524_288, 524_289] {
        for kind in [EntryType::File, EntryType::Directory] {
            let plan = store().store_bytes(kind, fp(1), blob(len)).unwrap();
            let load = store().load_bytes_with(kind, digest(1, len as u64)).unwrap();
            let written = if plan.fsdb_items.is_empty() { plan.lmdb } else { Tier::FileFsdb };
            assert_eq!(load, LoadPlan::From(written));
        }
    }
}

#[test]
fn store_routes_by_digest_size() {
    let store = store_without_files();
    assert_eq!(
        store.store(EntryType::File, digest(1, 524_288)),
        Ok(CopyPlan::Into(Tier::FileFsdb))
    );
    assert_eq!(store.store(EntryType::File, digest(1, 524_287)), Err(String::from("no file db")));
    assert_eq!(
        store.store(EntryType::Directory, digest(1, 524_288)),
        Ok(CopyPlan::Into(Tier::DirectoryLmdb))
    );
    assert_eq!(
        store.store(EntryType::Directory, digest(1, 0)),
        Ok(CopyPlan::Into(Tier::DirectoryLmdb))
    );
}

#[test]
fn store_of_the_empty_digest_writes_nothing() {
    assert_eq!(store().store(EntryType::File, Digest::empty()), Ok(CopyPlan::Nothing));
    assert_eq!(store().store(EntryType::Directory, Digest::empty()), Ok(CopyPlan::Nothing));
    assert_eq!(
        store_without_databases().store(EntryType::File, Digest::empty()),
        Ok(CopyPlan::Nothing)
    );
    assert_eq!(ByteStore::stored(Digest::empty(), Ok(())), Ok(Digest::empty()));
    // A digest with the empty fingerprint and a size is not the empty digest.
    let sized = Digest { hash: Fingerprint(EMPTY_FINGERPRINT_BYTES), size_bytes: 1 };
    assert_eq!(store().store(EntryType::File, sized), Ok(CopyPlan::Into(Tier::FileLmdb)));
}

#[test]
fn empty_blob_is_never_written() {
    let empty = Fingerprint(EMPTY_FINGERPRINT_BYTES);
    for kind in [EntryType::File, EntryType::Directory] {
        let plan = store().store_bytes(kind, empty, Bytes::new()).unwrap();
        assert!(plan.fsdb_items.is_empty());
        assert!(plan.lmdb_items.is_empty());
        assert_eq!(store().load_bytes_with(kind, Digest::empty()), Ok(LoadPlan::Empty));
        assert_eq!(ByteStore::view_empty(|bytes| bytes.to_vec()), Vec::<u8>::new());
    }
}

#[test]
fn empty_blob_is_left_out_of_a_batch() {
    let empty = Fingerprint(EMPTY_FINGERPRINT_BYTES);
    let items = vec![
        (fp(1), blob(3)),
        (empty, Bytes::new()),
        (fp(2), blob(524_288)),
        (empty, blob(0)),
        (fp(3), blob(0)),
    ];
    let plan = store().store_bytes_batch(EntryType::File, items.clone()).unwrap();
    assert_eq!(plan.fsdb_items, vec![items[2].clone()]);
    assert_eq!(plan.lmdb_items, vec![items[0].clone(), items[4].clone()]);
    let plan = store().store_bytes_batch(EntryType::Directory, items.clone()).unwrap();
    assert!(plan.fsdb_items.is_empty());
    assert_eq!(plan.lmdb_items, vec![items[0].clone(), items[2].clone(), items[4].clone()]);
}

#[test]
fn bytes_under_the_empty_fingerprint_are_written_if_there_are_any() {
    let empty = Fingerprint(EMPTY_FINGERPRINT_BYTES);
    let plan = store().store_bytes(EntryType::File, empty, blob(1)).unwrap();
    assert_eq!(plan.lmdb_items, vec![(empty, blob(1))]);
    let plan = store().store_bytes(EntryType::File, fp(7), Bytes::new()).unwrap();
    assert_eq!(plan.lmdb_items, vec![(fp(7), Bytes::new())]);
}

#[test]
fn stored_returns_the_digest_of_a_copy_that_succeeded() {
    let d = digest(1, 5);
    assert_eq!(ByteStore::stored(d, Ok(())), Ok(d));
    let large = digest(2, 1 << 20);
    assert_eq!(ByteStore::stored(large, Ok(())), Ok(large));
}

#[test]
fn stored_reports_the_failure_of_every_backend() {
    // A file of 5 bytes goes to the database of small files, a directory to the database
    // of directories, a file of 1 MiB to the backend of large files: a copy that fails is
    // an error in each.
    let store = store();
    let small = digest(1, 5);
    assert_eq!(store.store(EntryType::File, small), Ok(CopyPlan::Into(Tier::FileLmdb)));
    assert_eq!(
        ByteStore::stored(small, Err(String::from("map full"))),
        Err(String::from("map full"))
    );
    assert_eq!(
        store.store(EntryType::Directory, small),
        Ok(CopyPlan::Into(Tier::DirectoryLmdb))
    );
    assert_eq!(
        ByteStore::stored(small, Err(String::from("no room"))),
        Err(String::from("no room"))
    );
    let large = digest(2, 1 << 20);
    assert_eq!(store.store(EntryType::File, large), Ok(CopyPlan::Into(Tier::FileFsdb)));
    assert_eq!(
        ByteStore::stored(large, Err(String::from("disk full"))),
        Err(String::from("disk full"))
    );
}

#[test]
fn load_of_empty_digest_needs_no_backend() {
    assert_eq!(store().load_bytes_with(EntryType::File, Digest::empty()), Ok(LoadPlan::Empty));
    assert_eq!(
        store().load_bytes_with(EntryType::Directory, Digest::empty()),
        Ok(LoadPlan::Empty)
    );
    assert_eq!(
        store_without_databases().load_bytes_with(EntryType::File, Digest::empty()),
        Ok(LoadPlan::Empty)
    );
}

#[test]
fn load_routes_by_kind_and_size() {
    let store = store_without_files();
    assert_eq!(
        store.load_bytes_with(EntryType::File, digest(1, 1 << 20)),
        Ok(LoadPlan::From(Tier::FileFsdb))
    );
    assert_eq!(
        store.load_bytes_with(EntryType::File, digest(1, 20)),
        Err(String::from("no file db"))
    );
    assert_eq!(
        store.load_bytes_with(EntryType::Directory, digest(1, 1 << 20)),
        Ok(LoadPlan::From(Tier::DirectoryLmdb))
    );
    let not_quite_empty = Digest { hash: Fingerprint(EMPTY_FINGERPRINT_BYTES), size_bytes: 3 };
    assert_eq!(
        store.load_bytes_with(EntryType::Directory, not_quite_empty),
        Ok(LoadPlan::From(Tier::DirectoryLmdb))
    );
}

#[test]
fn len_checked_applies_the_view_to_bytes_of_the_declared_length() {
    let bytes = [1u8, 2, 3];
    let sum =
        ByteStore::len_checked(digest(1, 3), &bytes, |b| b.iter().map(|x| *x as u32).sum::<u32>());
    assert_eq!(sum.unwrap(), 6);
    let empty: [u8; 0] = [];
    assert_eq!(
        ByteStore::len_checked(digest(1, 0), &empty, |b| b.to_vec()).unwrap(),
        Vec::<u8>::new()
    );
}

#[test]
fn len_checked_reports_a_hash_collision() {
    let bytes = [1u8, 2, 3];
    let mut called = false;
    let result = ByteStore::len_checked(digest(1, 4), &bytes, |_| called = true);
    let collision = result.unwrap_err();
    assert_eq!(collision.digest, digest(1, 4));
    assert_eq!(collision.length, 3);
    assert!(!called);
}

#[test]
fn missing_digests() {
    // Of {empty, A, B} only A is stored.
    let a = digest(0xa, 10);
    let b = digest(0xb, 20);
    let digests = vec![Digest::empty(), a, b];
    let query = store().get_missing_digests(EntryType::File, &digests).unwrap();
    assert!(query.fsdb.is_empty());
    assert_eq!(query.lmdb, Tier::FileLmdb);
    assert_eq!(query.lmdb_fingerprints, vec![a.hash, b.hash]);
    let missing = ByteStore::missing_digests(&digests, &Vec::new(), &vec![a.hash]);
    assert_eq!(missing, vec![b]);
}

#[test]
fn get_missing_digests_partitions_by_size() {
    let digests = vec![digest(1, 524_288), digest(2, 5), digest(3, 1 << 30), Digest::empty()];
    let query = store().get_missing_digests(EntryType::File, &digests).unwrap();
    assert_eq!(query.fsdb, vec![fp(1), fp(3)]);
    assert_eq!(query.lmdb_fingerprints, vec![fp(2)]);
    let query = store().get_missing_digests(EntryType::Directory, &digests).unwrap();
    assert!(query.fsdb.is_empty());
    assert_eq!(query.lmdb, Tier::DirectoryLmdb);
    assert_eq!(query.lmdb_fingerprints, vec![fp(1), fp(2), fp(3)]);
}

#[test]
fn get_missing_digests_fails_without_the_database() {
    let digests = vec![digest(1, 524_288)];
    assert_eq!(
        store_without_files().get_missing_digests(EntryType::File, &digests).unwrap_err(),
        "no file db"
    );
    assert!(store_without_files().get_missing_digests(EntryType::Directory, &digests).is_ok());
}

#[test]
fn missing_digests_never_holds_the_empty_digest() {
    let digests = vec![Digest::empty(), Digest::empty(), digest(1, 1)];
    assert_eq!(ByteStore::missing_digests(&digests, &Vec::new(), &Vec::new()), vec![digest(1, 1)]);
    assert_eq!(
        ByteStore::missing_digests(&vec![Digest::empty()], &Vec::new(), &Vec::new()),
        Vec::<Digest>::new()
    );
}

#[test]
fn missing_digests_is_empty_when_all_are_stored() {
    let digests = vec![digest(1, 524_288), digest(2, 5), Digest::empty()];
    assert_eq!(
        ByteStore::missing_digests(&digests, &vec![fp(1)], &vec![fp(2)]),
        Vec::<Digest>::new()
    );
}

#[test]
fn missing_digests_goes_by_fingerprint_in_either_backend() {
    let digests = vec![digest(1, 5), digest(2, 5), digest(3, 5)];
    assert_eq!(
        ByteStore::missing_digests(&digests, &vec![fp(1)], &vec![fp(3)]),
        vec![digest(2, 5)]
    );
}

#[test]
fn contains_fingerprint_finds_members() {
    assert!(contains_fingerprint(&vec![fp(1), fp(2)], fp(2)));
    assert!(!contains_fingerprint(&vec![fp(1), fp(2)], fp(3)));
    assert!(!contains_fingerprint(&Vec::new(), fp(3)));
}

#[test]
fn load_from_fs_only_when_the_file_exists() {
    assert_eq!(store().load_from_fs(digest(1, 1 << 20), false), None);
    assert!(store().load_from_fs(digest(1, 1 << 20), true).is_some());
}

#[test]
fn all_digests_lists_database_then_large_files() {
    let lmdb = vec![aged(1, 10, 0), aged(2, 20, 7)];
    let fsdb = vec![aged(3, 1 << 20, 100)];
    assert_eq!(
        ByteStore::all_digests(&lmdb, &fsdb),
        vec![digest(1, 10), digest(2, 20), digest(3, 1 << 20)]
    );
    assert_eq!(ByteStore::backend_digests(&lmdb), vec![digest(1, 10), digest(2, 20)]);
    assert_eq!(ByteStore::all_digests(&Vec::new(), &Vec::new()), Vec::<Digest>::new());
    assert_eq!(aged(2, 20, 7).digest(), digest(2, 20));
    assert!(aged(2, 20, 7).is_expired());
    assert!(!aged(2, 20, 0).is_expired());
}

#[test]
fn shrink_candidates_are_tagged_by_backend() {
    let candidates = ByteStore::candidates(
        &vec![aged(1, 10, 0)],
        &vec![aged(2, 20, 7), aged(3, 30, 8)],
        &vec![aged(4, 1 << 20, 100)],
    );
    let kinds: Vec<EntryType> = candidates.iter().map(|c| c.entry_type).collect();
    assert_eq!(
        kinds,
        vec![EntryType::File, EntryType::Directory, EntryType::Directory, EntryType::File]
    );
    let ids: Vec<u8> = candidates.iter().map(|c| c.aged.fingerprint.0[0]).collect();
    assert_eq!(ids, vec![1, 2, 3, 4]);
}

#[test]
fn shrink_removes_most_expired_first() {
    let plan = ByteStore::shrink(
        25,
        ShrinkBehavior::Fast,
        &vec![aged(1, 10, 5), aged(2, 20, 0)],
        &vec![aged(3, 30, 50)],
        &vec![aged(4, 1 << 20, 500)],
    )
    .unwrap();
    assert_eq!(
        plan.removals,
        vec![
            (EntryType::File, digest(4, 1 << 20)),
            (EntryType::Directory, digest(3, 30)),
            (EntryType::File, digest(1, 10)),
        ]
    );
    assert_eq!(plan.used_bytes, 20);
    assert!(!plan.compact);
}

#[test]
fn shrink_eviction_halt() {
    let leased = vec![aged(1, 524_288, 0), aged(2, 524_288, 0)];
    let plan =
        ByteStore::shrink(0, ShrinkBehavior::Compact, &Vec::new(), &Vec::new(), &leased).unwrap();
    assert!(plan.removals.is_empty());
    assert_eq!(plan.used_bytes, 1_048_576);
    assert!(!plan.compact);

    let expired = vec![aged(1, 524_288, 2), aged(2, 524_288, 1)];
    let plan =
        ByteStore::shrink(0, ShrinkBehavior::Compact, &Vec::new(), &Vec::new(), &expired).unwrap();
    assert_eq!(
        plan.removals,
        vec![(EntryType::File, digest(1, 524_288)), (EntryType::File, digest(2, 524_288))]
    );
    assert_eq!(plan.used_bytes, 0);
    assert!(plan.compact);
}

#[test]
fn shrink_compacts_only_when_asked() {
    let files = vec![aged(1, 10, 5)];
    let fast = ByteStore::shrink(100, ShrinkBehavior::Fast, &files, &Vec::new(), &Vec::new());
    assert!(!fast.unwrap().compact);
    let compact = ByteStore::shrink(100, ShrinkBehavior::Compact, &files, &Vec::new(), &Vec::new());
    let compact = compact.unwrap();
    assert!(compact.compact);
    assert!(compact.removals.is_empty());
    assert_eq!(compact.used_bytes, 10);
}

#[test]
fn shrink_reports_sizes_that_do_not_add_up() {
    let plan = ByteStore::shrink(
        0,
        ShrinkBehavior::Fast,
        &vec![aged(1, u64::MAX, 5)],
        &vec![aged(2, 1, 5)],
        &Vec::new(),
    );
    assert_eq!(plan.unwrap_err(), UsedBytesOverflow);
}

#[test]
fn view_empty_applies_the_view_to_no_bytes() {
    assert_eq!(ByteStore::view_empty(|bytes| bytes.to_vec()), Vec::<u8>::new());
    assert_eq!(ByteStore::view_empty(|bytes| bytes.len() + 5), 5);
}

#[test]
fn storing_twice_gives_the_same_plan() {
    let items = vec![(fp(1), blob(3)), (fp(2), blob(524_288))];
    let first = store().store_bytes_batch(EntryType::File, items.clone()).unwrap();
    let second = store().store_bytes_batch(EntryType::File, items).unwrap();
    assert_eq!(first.fsdb_items, second.fsdb_items);
    assert_eq!(first.lmdb, second.lmdb);
    assert_eq!(first.lmdb_items, second.lmdb_items);
}
