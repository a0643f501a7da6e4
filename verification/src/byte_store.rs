//! The router of the store: which of the three backends an operation goes to, and what
//! follows from what the backends answer.
//!
//! The router holds no handle to a backend. Each operation is split where it touches a
//! backend: one function says which backend to ask and what for, another takes the answer
//! and says what the operation returns.

use crate::blob::bytes_content;
use crate::digest::empty_digest;
use crate::digest::empty_fingerprint;
use crate::digest::Digest;
use crate::digest::EMPTY_FINGERPRINT_BYTES;
use crate::entry::AgedFingerprint;
use crate::entry::EntryType;
use crate::entry::ShrinkBehavior;
use crate::eviction::is_eviction_order;
use crate::eviction::kept_size;
use crate::eviction::plan_eviction;
use crate::eviction::positions;
use crate::eviction::total_size;
use crate::eviction::used_bytes;
use crate::eviction::Candidate;
use crate::fingerprint::Fingerprint;
use crate::fsdb::ShardedFSDB;
use crate::options::LocalOptions;
use bytes::Bytes;
use vstd::prelude::*;
use vstd::string::StringExecFns;

verus! {

/// How big a file must be to be stored as a file on disk: 512 KiB.
pub const LARGE_FILE_SIZE_LIMIT: u64 = 512 * 1024;

/// One of the three backends of the store.
#[derive(Clone, Copy, Debug, PartialEq, Eq, Hash, Structural)]
pub enum Tier {
    /// The database of directories.
    DirectoryLmdb,
    /// The database of small files.
    FileLmdb,
    /// The sharded directory tree of large files.
    FileFsdb,
}

/// The routing predicate: whether an entry of the given kind and length belongs in the
/// directory tree of large files.
pub open spec fn use_fsdb(entry_type: EntryType, len: int) -> bool {
    entry_type == EntryType::File && len >= LARGE_FILE_SIZE_LIMIT
}

/// The database that holds the entries of a kind that are not large files.
pub open spec fn lmdb_of(entry_type: EntryType) -> Tier {
    match entry_type {
        EntryType::Directory => Tier::DirectoryLmdb,
        EntryType::File => Tier::FileLmdb,
    }
}

/// The backend that holds an entry of the given kind and length.
pub open spec fn tier_of(entry_type: EntryType, len: int) -> Tier {
    if use_fsdb(entry_type, len) {
        Tier::FileFsdb
    } else {
        lmdb_of(entry_type)
    }
}

/// What is known of a fingerprint's kind before any backend is asked.
#[derive(Clone, Copy, Debug, PartialEq, Eq, Structural)]
pub enum EntryTypeLookup {
    /// The kind is known without asking.
    Known(EntryType),
    /// All three backends are to be asked whether they hold the fingerprint.
    AskBackends,
}

/// The kind of a fingerprint, given which backends hold it: a directory where the database
/// of directories holds it, else a file where any file backend holds it.
pub open spec fn kind_found(
    in_directory_lmdb: bool,
    in_file_lmdb: bool,
    in_file_fsdb: bool,
) -> Option<EntryType> {
    if in_directory_lmdb {
        Some(EntryType::Directory)
    } else if in_file_lmdb || in_file_fsdb {
        Some(EntryType::File)
    } else {
        None
    }
}

/// The leases to take, in order, and the error that ends them early if there is one.
#[derive(Debug)]
pub struct LeasePlan {
    /// The backend and fingerprint of each lease to take, in order. A lease that fails
    /// ends the run with its error.
    pub leases: Vec<(Tier, Fingerprint)>,
    /// The error to report once the leases are taken: that of a database that failed to
    /// open. The digests behind the one that needed it are not leased.
    pub failure: Option<String>,
}

/// The fingerprints to ask each backend about, to find the digests that are missing.
#[derive(Debug)]
pub struct ExistenceQuery {
    /// The fingerprints to ask the backend of large files about.
    pub fsdb: Vec<Fingerprint>,
    /// The database to ask about the others.
    pub lmdb: Tier,
    /// The fingerprints to ask that database about.
    pub lmdb_fingerprints: Vec<Fingerprint>,
}

/// Whether a digest is asked of the backend of large files.
pub open spec fn asks_fsdb(entry_type: EntryType) -> spec_fn(Digest) -> bool {
    |digest: Digest| use_fsdb(entry_type, digest.size_bytes as int)
}

/// Whether a digest is asked of the database of its kind: those that are no large files,
/// but for the empty digest, which is never asked about.
pub open spec fn asks_lmdb(entry_type: EntryType) -> spec_fn(Digest) -> bool {
    |digest: Digest| !use_fsdb(entry_type, digest.size_bytes as int) && digest != empty_digest()
}

/// The fingerprint of a digest.
pub open spec fn hash_of() -> spec_fn(Digest) -> Fingerprint {
    |digest: Digest| digest.hash
}

/// Whether a digest counts as missing, given the fingerprints that the backends reported
/// as existing: the empty digest never does, and no digest whose fingerprint either
/// backend reported.
pub open spec fn is_missing(
    existing_fsdb: Seq<Fingerprint>,
    existing_lmdb: Seq<Fingerprint>,
) -> spec_fn(Digest) -> bool {
    |digest: Digest|
        digest != empty_digest() && !existing_fsdb.contains(digest.hash)
            && !existing_lmdb.contains(digest.hash)
}

/// Whether `fingerprint` is one of `fingerprints`.
pub fn contains_fingerprint(fingerprints: &Vec<Fingerprint>, fingerprint: Fingerprint) -> (found:
    bool)
    ensures
        found == fingerprints@.contains(fingerprint),
{
    let mut i: usize = 0;
    while i < fingerprints.len()
        invariant
            i <= fingerprints@.len(),
            forall|j: int| 0 <= j < i ==> fingerprints@[j] != fingerprint,
        decreases fingerprints@.len() - i,
    {
        if fingerprints[i] == fingerprint {
            return true;
        }
        i += 1;
    }
    false
}

/// How to load the bytes of a digest.
#[derive(Clone, Copy, Debug, PartialEq, Eq, Structural)]
pub enum LoadPlan {
    /// The digest is the empty one: its bytes are the empty byte string, and no backend
    /// is asked.
    Empty,
    /// The bytes are to be loaded from the given backend.
    From(Tier),
}

/// How to store a file whose digest is known.
#[derive(Clone, Copy, Debug, PartialEq, Eq, Structural)]
pub enum CopyPlan {
    /// The digest is the empty one: nothing is written, and no backend is asked.
    Nothing,
    /// The file is to be copied into the given backend.
    Into(Tier),
}

/// Bytes that a backend returned for a digest and that do not have the digest's length.
#[derive(Clone, Copy, Debug)]
pub struct HashCollision {
    /// The digest that was asked for.
    pub digest: Digest,
    /// The length of the bytes that came back.
    pub length: usize,
}

/// Where the blobs of one batch are written.
#[derive(Debug)]
pub struct StoreBytesPlan {
    /// The blobs to write to the backend of large files, in the order given.
    pub fsdb_items: Vec<(Fingerprint, Bytes)>,
    /// The database to write the others to.
    pub lmdb: Tier,
    /// The blobs to write to that database, in the order given.
    pub lmdb_items: Vec<(Fingerprint, Bytes)>,
}

/// Whether an item of a batch is the empty blob: no bytes, under the fingerprint of the
/// empty byte string. The empty blob is never written.
pub open spec fn is_empty_blob(item: (Fingerprint, Bytes)) -> bool {
    item.0 == empty_fingerprint() && bytes_content(item.1).len() == 0
}

/// Whether a blob of a batch is written to the backend of large files.
pub open spec fn stores_in_fsdb(entry_type: EntryType) -> spec_fn((Fingerprint, Bytes)) -> bool {
    |item: (Fingerprint, Bytes)| use_fsdb(entry_type, bytes_content(item.1).len() as int)
}

/// Whether a blob of a batch is written to the database of its kind: those that are no
/// large files, but for the empty blob, which is written nowhere.
pub open spec fn stores_in_lmdb(entry_type: EntryType) -> spec_fn((Fingerprint, Bytes)) -> bool {
    |item: (Fingerprint, Bytes)|
        !use_fsdb(entry_type, bytes_content(item.1).len() as int) && !is_empty_blob(item)
}

/// The digests of aged fingerprints: each one's fingerprint and size, without the age.
pub open spec fn digests_of(aged: Seq<AgedFingerprint>) -> Seq<Digest> {
    aged.map_values(|entry: AgedFingerprint| entry.spec_digest())
}

/// What `shrink` does to the store.
#[derive(Debug)]
pub struct ShrinkPlan {
    /// The entries to remove, in the order in which to remove them. A removal that fails
    /// ends the run with its error.
    pub removals: Vec<(EntryType, Digest)>,
    /// The bytes that the store uses once the removals are made: what `shrink` returns.
    pub used_bytes: u64,
    /// Whether to compact the database of small files after the removals.
    pub compact: bool,
}

/// The sizes of the stored entries do not add up to a number of bytes that fits in 64 bits.
#[derive(Clone, Copy, Debug, PartialEq, Eq, Structural)]
pub struct UsedBytesOverflow;

/// The aged fingerprints of one backend as candidates for eviction of the given kind.
pub open spec fn tagged(aged: Seq<AgedFingerprint>, entry_type: EntryType) -> Seq<Candidate> {
    aged.map_values(|entry: AgedFingerprint| Candidate { aged: entry, entry_type })
}

/// The candidates for eviction: what the database of small files holds, as files, then
/// what the database of directories holds, as directories, then what the backend of large
/// files holds, as files.
pub open spec fn shrink_candidates(
    file_lmdb: Seq<AgedFingerprint>,
    directory_lmdb: Seq<AgedFingerprint>,
    file_fsdb: Seq<AgedFingerprint>,
) -> Seq<Candidate> {
    tagged(file_lmdb, EntryType::File) + tagged(directory_lmdb, EntryType::Directory) + tagged(
        file_fsdb,
        EntryType::File,
    )
}

/// The removals that an eviction order stands for: the kind and digest of each victim.
pub open spec fn removals_of(candidates: Seq<Candidate>, order: Seq<int>) -> Seq<
    (EntryType, Digest),
> {
    order.map_values(|i: int| (candidates[i].entry_type, candidates[i].aged.spec_digest()))
}

/// Appends the aged fingerprints of one backend to the candidates, as entries of the given
/// kind.
fn push_tagged(candidates: &mut Vec<Candidate>, aged: &Vec<AgedFingerprint>, entry_type: EntryType)
    ensures
        final(candidates)@ == old(candidates)@ + tagged(aged@, entry_type),
{
    let mut i: usize = 0;
    while i < aged.len()
        invariant
            i <= aged@.len(),
            candidates@ == old(candidates)@ + tagged(aged@.take(i as int), entry_type),
        decreases aged@.len() - i,
    {
        candidates.push(Candidate { aged: aged[i], entry_type });
        assert(candidates@ =~= old(candidates)@ + tagged(aged@.take(i as int + 1), entry_type));
        i += 1;
    }
    assert(aged@.take(i as int) =~= aged@);
}

/// The router's view of a store: whether each database could be opened, where the large
/// files live, and the device that holds the store.
#[derive(Debug)]
pub struct ByteStore {
    file_lmdb: Result<(), String>,
    directory_lmdb: Result<(), String>,
    file_fsdb: ShardedFSDB,
    filesystem_device: u64,
}

impl ByteStore {
    /// Whether the database of the given kind could be opened, and if not, the error that
    /// every access to it reports.
    pub closed spec fn lmdb_state(&self, entry_type: EntryType) -> Result<(), String> {
        match entry_type {
            EntryType::Directory => self.directory_lmdb,
            EntryType::File => self.file_lmdb,
        }
    }

    /// The backend of large files.
    pub closed spec fn file_fsdb(&self) -> ShardedFSDB {
        self.file_fsdb
    }

    /// The device that holds the store's root directory.
    pub closed spec fn device(&self) -> u64 {
        self.filesystem_device
    }

    /// Where an operation on an entry of the given kind and length goes: the backend of
    /// large files, or the database of the kind, or the error with which that database
    /// failed to open.
    pub open spec fn route(&self, entry_type: EntryType, len: int) -> Result<Tier, String> {
        if use_fsdb(entry_type, len) {
            Ok(Tier::FileFsdb)
        } else {
            match self.lmdb_state(entry_type) {
                Ok(_) => Ok(lmdb_of(entry_type)),
                Err(error) => Err(error),
            }
        }
    }

    /// Whether `plan` is what `store_bytes_batch` answers for `items`: the error of the
    /// kind's database if it failed to open; else the items in two parts, each in the
    /// order given, the large files for the backend of large files and the rest for the
    /// database of the kind. The empty blob is in neither part.
    pub open spec fn is_store_plan(
        &self,
        entry_type: EntryType,
        items: Seq<(Fingerprint, Bytes)>,
        plan: Result<StoreBytesPlan, String>,
    ) -> bool {
        match self.lmdb_state(entry_type) {
            Err(error) => plan == Err::<StoreBytesPlan, String>(error),
            Ok(_) => plan matches Ok(plan) && {
                &&& plan.fsdb_items@ == items.filter(stores_in_fsdb(entry_type))
                &&& plan.lmdb == lmdb_of(entry_type)
                &&& plan.lmdb_items@ == items.filter(stores_in_lmdb(entry_type))
            },
        }
    }

    /// Whether `query` is what `get_missing_digests` answers for `digests`: the error of
    /// the kind's database if it failed to open; else the fingerprints of the large files
    /// for the backend of large files, and those of the rest, but for the empty digest,
    /// for the database of the kind, each in the order given.
    pub open spec fn is_existence_query(
        &self,
        entry_type: EntryType,
        digests: Seq<Digest>,
        query: Result<ExistenceQuery, String>,
    ) -> bool {
        match self.lmdb_state(entry_type) {
            Err(error) => query == Err::<ExistenceQuery, String>(error),
            Ok(_) => query matches Ok(query) && {
                &&& query.fsdb@ == digests.filter(asks_fsdb(entry_type)).map_values(hash_of())
                &&& query.lmdb == lmdb_of(entry_type)
                &&& query.lmdb_fingerprints@ == digests.filter(asks_lmdb(entry_type)).map_values(
                    hash_of(),
                )
            },
        }
    }

    /// What `store` answers: the empty digest is not written, any other is copied into the
    /// backend that holds entries of its kind and declared length.
    pub open spec fn copy_plan(&self, entry_type: EntryType, digest: Digest) -> Result<
        CopyPlan,
        String,
    > {
        if digest == empty_digest() {
            Ok(CopyPlan::Nothing)
        } else {
            match self.route(entry_type, digest.size_bytes as int) {
                Ok(tier) => Ok(CopyPlan::Into(tier)),
                Err(error) => Err(error),
            }
        }
    }

    /// What `load_bytes_with` answers: the empty digest needs no backend, any other is
    /// loaded from the backend that holds entries of its kind and declared length.
    pub open spec fn load_plan(&self, entry_type: EntryType, digest: Digest) -> Result<
        LoadPlan,
        String,
    > {
        if digest == empty_digest() {
            Ok(LoadPlan::Empty)
        } else {
            match self.route(entry_type, digest.size_bytes as int) {
                Ok(tier) => Ok(LoadPlan::From(tier)),
                Err(error) => Err(error),
            }
        }
    }

    /// The name of the directory, below the store's root, of the database of small files.
    pub fn lmdb_files_root() -> (name: &'static str)
        ensures
            name@ == "files"@,
    {
        "files"
    }

    /// The name of the directory, below the store's root, of the database of directories.
    pub fn lmdb_directories_root() -> (name: &'static str)
        ensures
            name@ == "directories"@,
    {
        "directories"
    }

    /// The path components, below the store's root, of the directory tree of large files.
    pub fn fsdb_files_root() -> (path: Vec<String>)
        ensures
            path@.len() == 2,
            path@[0]@ == "immutable"@,
            path@[1]@ == "files"@,
    {
        let mut path: Vec<String> = Vec::new();
        path.push(String::from_str("immutable"));
        path.push(String::from_str("files"));
        path
    }

    /// The router of a store whose root directory lies on `filesystem_device`, given how
    /// the attempt to open each of the two databases ended.
    pub fn new_with_options(
        options: LocalOptions,
        filesystem_device: u64,
        file_lmdb: Result<(), String>,
        directory_lmdb: Result<(), String>,
    ) -> (store: ByteStore)
        ensures
            store.lmdb_state(EntryType::File) == file_lmdb,
            store.lmdb_state(EntryType::Directory) == directory_lmdb,
            store.device() == filesystem_device,
            store.file_fsdb().lease_time() == options.lease_time,
            store.file_fsdb().root() == seq!["immutable"@, "files"@],
    {
        let root = ByteStore::fsdb_files_root();
        assert(crate::fsdb::component_names(root@) =~= seq!["immutable"@, "files"@]);
        ByteStore {
            file_lmdb,
            directory_lmdb,
            file_fsdb: ShardedFSDB::new(root, options.lease_time),
            filesystem_device,
        }
    }

    /// The device that holds the store's root directory.
    pub fn filesystem_device(&self) -> (device: u64)
        ensures
            device == self.device(),
    {
        self.filesystem_device
    }

    /// The backend of large files.
    pub fn get_file_fsdb(&self) -> (fsdb: &ShardedFSDB)
        ensures
            *fsdb == self.file_fsdb(),
    {
        &self.file_fsdb
    }

    /// The routing predicate: whether an entry of the given kind and length belongs in the
    /// directory tree of large files. That is so for files of 512 KiB or more.
    pub fn should_use_fsdb(entry_type: EntryType, len: u64) -> (large: bool)
        ensures
            large == use_fsdb(entry_type, len as int),
            large <==> entry_type == EntryType::File && len >= 524288,
    {
        entry_type == EntryType::File && len >= LARGE_FILE_SIZE_LIMIT
    }

    /// The database of the given kind, or the error with which it failed to open.
    pub fn lmdb(&self, entry_type: EntryType) -> (tier: Result<Tier, String>)
        ensures
            match self.lmdb_state(entry_type) {
                Ok(_) => tier == Ok::<Tier, String>(lmdb_of(entry_type)),
                Err(error) => tier == Err::<Tier, String>(error),
            },
    {
        let state = match entry_type {
            EntryType::Directory => &self.directory_lmdb,
            EntryType::File => &self.file_lmdb,
        };
        match state {
            Ok(_) => Ok(
                match entry_type {
                    EntryType::Directory => Tier::DirectoryLmdb,
                    EntryType::File => Tier::FileLmdb,
                },
            ),
            Err(error) => Err(error.clone()),
        }
    }

    /// The backend that an operation on an entry of the given kind and length goes to, or
    /// the error with which the database it would go to failed to open.
    pub fn tier(&self, entry_type: EntryType, len: u64) -> (tier: Result<Tier, String>)
        ensures
            tier == self.route(entry_type, len as int),
    {
        if ByteStore::should_use_fsdb(entry_type, len) {
            Ok(Tier::FileFsdb)
        } else {
            self.lmdb(entry_type)
        }
    }

    /// What is known of a fingerprint's kind before any backend is asked. The empty
    /// fingerprint is a directory, whatever the backends hold and whether or not the
    /// databases could be opened. For any other fingerprint all three backends are asked,
    /// unless a database failed to open: then its error is the answer, that of the database
    /// of directories first.
    pub fn entry_type(&self, fingerprint: Fingerprint) -> (lookup: Result<EntryTypeLookup, String>)
        ensures
            fingerprint == empty_fingerprint() ==> lookup == Ok::<EntryTypeLookup, String>(
                EntryTypeLookup::Known(EntryType::Directory),
            ),
            fingerprint != empty_fingerprint() ==> match (
                self.lmdb_state(EntryType::Directory),
                self.lmdb_state(EntryType::File),
            ) {
                (Err(error), _) => lookup == Err::<EntryTypeLookup, String>(error),
                (Ok(_), Err(error)) => lookup == Err::<EntryTypeLookup, String>(error),
                (Ok(_), Ok(_)) => lookup == Ok::<EntryTypeLookup, String>(
                    EntryTypeLookup::AskBackends,
                ),
            },
    {
        if fingerprint == Fingerprint(EMPTY_FINGERPRINT_BYTES) {
            return Ok(EntryTypeLookup::Known(EntryType::Directory));
        }
        match &self.directory_lmdb {
            Ok(_) => {},
            Err(error) => {
                return Err(error.clone());
            },
        }
        match &self.file_lmdb {
            Ok(_) => {},
            Err(error) => {
                return Err(error.clone());
            },
        }
        Ok(EntryTypeLookup::AskBackends)
    }

    /// The kind of a fingerprint, given which backends hold it. Where the database of
    /// directories holds it, it is a directory, whatever the file backends hold.
    pub fn entry_type_found(
        in_directory_lmdb: bool,
        in_file_lmdb: bool,
        in_file_fsdb: bool,
    ) -> (kind: Option<EntryType>)
        ensures
            kind == kind_found(in_directory_lmdb, in_file_lmdb, in_file_fsdb),
    {
        if in_directory_lmdb {
            Some(EntryType::Directory)
        } else if in_file_lmdb || in_file_fsdb {
            Some(EntryType::File)
        } else {
            None
        }
    }

    /// The leases to take for the given digests, one after the other in the order given.
    /// They end before the first digest whose database failed to open, with that error.
    pub fn lease_all(&self, digests: &Vec<(Digest, EntryType)>) -> (plan: LeasePlan)
        ensures
            plan.leases@.len() <= digests@.len(),
            forall|i: int|
                0 <= i < plan.leases@.len() ==> {
                    &&& self.route(digests@[i].1, digests@[i].0.size_bytes as int) == Ok::<
                        Tier,
                        String,
                    >((#[trigger] plan.leases@[i]).0)
                    &&& plan.leases@[i].1 == digests@[i].0.hash
                },
            match plan.failure {
                None => plan.leases@.len() == digests@.len(),
                Some(error) => {
                    let next = plan.leases@.len() as int;
                    &&& next < digests@.len()
                    &&& self.route(digests@[next].1, digests@[next].0.size_bytes as int) == Err::<
                        Tier,
                        String,
                    >(error)
                },
            },
    {
        let mut leases: Vec<(Tier, Fingerprint)> = Vec::new();
        let mut i: usize = 0;
        while i < digests.len()
            invariant
                i <= digests@.len(),
                leases@.len() == i,
                forall|j: int|
                    0 <= j < i ==> {
                        &&& self.route(digests@[j].1, digests@[j].0.size_bytes as int) == Ok::<
                            Tier,
                            String,
                        >((#[trigger] leases@[j]).0)
                        &&& leases@[j].1 == digests@[j].0.hash
                    },
            decreases digests@.len() - i,
        {
            let (digest, entry_type) = digests[i];
            match self.tier(entry_type, digest.size_bytes) {
                Ok(tier) => {
                    leases.push((tier, digest.hash));
                },
                Err(error) => {
                    return LeasePlan { leases, failure: Some(error) };
                },
            }
            i += 1;
        }
        LeasePlan { leases, failure: None }
    }

    /// The fingerprints to ask the backends about, to find which of `digests` are missing:
    /// those of large files go to the backend of large files, the others to the database
    /// of the kind. The empty digest is not asked about. Where that database failed to
    /// open, its error is the answer, whatever the digests.
    pub fn get_missing_digests(&self, entry_type: EntryType, digests: &Vec<Digest>) -> (query:
        Result<ExistenceQuery, String>)
        ensures
            self.is_existence_query(entry_type, digests@, query),
    {
        let mut fsdb: Vec<Fingerprint> = Vec::new();
        let mut lmdb_fingerprints: Vec<Fingerprint> = Vec::new();
        let mut i: usize = 0;
        proof {
            assert(digests@.take(0).filter(asks_fsdb(entry_type)) =~= Seq::empty()) by {
                reveal(Seq::filter);
            }
            assert(digests@.take(0).filter(asks_lmdb(entry_type)) =~= Seq::empty()) by {
                reveal(Seq::filter);
            }
        }
        while i < digests.len()
            invariant
                i <= digests@.len(),
                fsdb@ == digests@.take(i as int).filter(asks_fsdb(entry_type)).map_values(
                    hash_of(),
                ),
                lmdb_fingerprints@ == digests@.take(i as int).filter(
                    asks_lmdb(entry_type),
                ).map_values(hash_of()),
            decreases digests@.len() - i,
        {
            let digest = digests[i];
            proof {
                let before = digests@.take(i as int);
                assert(digests@.take(i as int + 1) =~= before.push(digest));
                before.lemma_filter_push(digest, asks_fsdb(entry_type));
                before.lemma_filter_push(digest, asks_lmdb(entry_type));
                before.filter(asks_fsdb(entry_type)).lemma_push_map_commute(hash_of(), digest);
                before.filter(asks_lmdb(entry_type)).lemma_push_map_commute(hash_of(), digest);
            }
            if ByteStore::should_use_fsdb(entry_type, digest.size_bytes) {
                fsdb.push(digest.hash);
            } else if !digest.is_empty() {
                lmdb_fingerprints.push(digest.hash);
            }
            i += 1;
        }
        assert(digests@.take(i as int) =~= digests@);
        match self.lmdb(entry_type) {
            Ok(lmdb) => Ok(ExistenceQuery { fsdb, lmdb, lmdb_fingerprints }),
            Err(error) => Err(error),
        }
    }

    /// The digests that are missing, given the fingerprints that each backend reported as
    /// existing: those of `digests`, in their order, that are not the empty digest and whose
    /// fingerprint neither backend reported.
    pub fn missing_digests(
        digests: &Vec<Digest>,
        existing_fsdb: &Vec<Fingerprint>,
        existing_lmdb: &Vec<Fingerprint>,
    ) -> (missing: Vec<Digest>)
        ensures
            missing@ == digests@.filter(is_missing(existing_fsdb@, existing_lmdb@)),
    {
        let ghost pred = is_missing(existing_fsdb@, existing_lmdb@);
        let mut missing: Vec<Digest> = Vec::new();
        let mut i: usize = 0;
        proof {
            assert(digests@.take(0).filter(pred) =~= Seq::empty()) by {
                reveal(Seq::filter);
            }
        }
        while i < digests.len()
            invariant
                i <= digests@.len(),
                pred == is_missing(existing_fsdb@, existing_lmdb@),
                missing@ == digests@.take(i as int).filter(pred),
            decreases digests@.len() - i,
        {
            let digest = digests[i];
            proof {
                let before = digests@.take(i as int);
                assert(digests@.take(i as int + 1) =~= before.push(digest));
                before.lemma_filter_push(digest, pred);
            }
            if !digest.is_empty() && !contains_fingerprint(existing_fsdb, digest.hash)
                && !contains_fingerprint(existing_lmdb, digest.hash) {
                missing.push(digest);
            }
            i += 1;
        }
        assert(digests@.take(i as int) =~= digests@);
        missing
    }

    /// How to load the bytes of a digest: the empty digest needs no backend, any other is
    /// loaded from the backend that holds entries of its kind and declared length.
    pub fn load_bytes_with(&self, entry_type: EntryType, digest: Digest) -> (plan: Result<
        LoadPlan,
        String,
    >)
        ensures
            plan == self.load_plan(entry_type, digest),
    {
        if digest.is_empty() {
            return Ok(LoadPlan::Empty);
        }
        match self.tier(entry_type, digest.size_bytes) {
            Ok(tier) => Ok(LoadPlan::From(tier)),
            Err(error) => Err(error),
        }
    }

    /// Applies `f` to the bytes that a backend returned for `digest`, but only if they
    /// have the length that the digest declares.
    pub fn len_checked<T, F: FnOnce(&[u8]) -> T>(digest: Digest, bytes: &[u8], f: F) -> (viewed:
        Result<T, HashCollision>)
        requires
            f.requires((bytes,)),
        ensures
            match viewed {
                Ok(value) => bytes@.len() == digest.size_bytes && f.ensures((bytes,), value),
                Err(collision) => {
                    &&& bytes@.len() != digest.size_bytes
                    &&& collision.digest == digest
                    &&& collision.length == bytes@.len()
                },
            },
    {
        if bytes.len() as u64 == digest.size_bytes {
            Ok(f(bytes))
        } else {
            Err(HashCollision { digest, length: bytes.len() })
        }
    }

    /// Where the blobs of a batch are written: files of 512 KiB or more go to the backend
    /// of large files, everything else to the database of the kind. The empty blob, no
    /// bytes under the fingerprint of the empty byte string, is written nowhere. Where the
    /// database of the kind failed to open, its error is the answer, whatever the blobs.
    pub fn store_bytes_batch(
        &self,
        entry_type: EntryType,
        items: Vec<(Fingerprint, Bytes)>,
    ) -> (plan: Result<StoreBytesPlan, String>)
        ensures
            self.is_store_plan(entry_type, items@, plan),
    {
        let mut fsdb_items: Vec<(Fingerprint, Bytes)> = Vec::new();
        let mut lmdb_items: Vec<(Fingerprint, Bytes)> = Vec::new();
        proof {
            assert(items@.take(0).filter(stores_in_fsdb(entry_type)) =~= Seq::empty()) by {
                reveal(Seq::filter);
            }
            assert(items@.take(0).filter(stores_in_lmdb(entry_type)) =~= Seq::empty()) by {
                reveal(Seq::filter);
            }
        }
        for item in iter: items
            invariant
                fsdb_items@ == iter.seq().take(iter.index() as int).filter(
                    stores_in_fsdb(entry_type),
                ),
                lmdb_items@ == iter.seq().take(iter.index() as int).filter(
                    stores_in_lmdb(entry_type),
                ),
                iter.seq() == items@,
        {
            proof {
                let before = items@.take(iter.index() as int);
                assert(items@.take(iter.index() as int + 1) =~= before.push(item));
                before.lemma_filter_push(item, stores_in_fsdb(entry_type));
                before.lemma_filter_push(item, stores_in_lmdb(entry_type));
            }
            let len: usize = item.1.len();
            if ByteStore::should_use_fsdb(entry_type, len as u64) {
                fsdb_items.push(item);
            } else if !(len == 0 && item.0 == Fingerprint(EMPTY_FINGERPRINT_BYTES)) {
                lmdb_items.push(item);
            }
        }
        assert(items@.take(items@.len() as int) =~= items@);
        match self.lmdb(entry_type) {
            Ok(lmdb) => Ok(StoreBytesPlan { fsdb_items, lmdb, lmdb_items }),
            Err(error) => Err(error),
        }
    }

    /// Where one blob is written: the plan of the batch that holds just this blob. For the
    /// empty blob the plan writes nothing.
    pub fn store_bytes(
        &self,
        entry_type: EntryType,
        fingerprint: Fingerprint,
        bytes: Bytes,
    ) -> (plan: Result<StoreBytesPlan, String>)
        ensures
            self.is_store_plan(entry_type, seq![(fingerprint, bytes)], plan),
            plan matches Ok(plan) ==> if is_empty_blob((fingerprint, bytes)) {
                plan.fsdb_items@.len() == 0 && plan.lmdb_items@.len() == 0
            } else if use_fsdb(entry_type, bytes_content(bytes).len() as int) {
                plan.fsdb_items@ == seq![(fingerprint, bytes)] && plan.lmdb_items@.len() == 0
            } else {
                plan.lmdb_items@ == seq![(fingerprint, bytes)] && plan.fsdb_items@.len() == 0
            },
    {
        let mut items: Vec<(Fingerprint, Bytes)> = Vec::new();
        items.push((fingerprint, bytes));
        proof {
            let item = (fingerprint, bytes);
            assert(items@ =~= Seq::<(Fingerprint, Bytes)>::empty().push(item));
            assert(items@ =~= seq![item]);
            let none = Seq::<(Fingerprint, Bytes)>::empty();
            assert(none.filter(stores_in_fsdb(entry_type)) =~= none) by {
                reveal(Seq::filter);
            }
            assert(none.filter(stores_in_lmdb(entry_type)) =~= none) by {
                reveal(Seq::filter);
            }
            none.lemma_filter_push(item, stores_in_fsdb(entry_type));
            none.lemma_filter_push(item, stores_in_lmdb(entry_type));
            assert(none.push(item) =~= seq![item]);
        }
        self.store_bytes_batch(entry_type, items)
    }

    /// How to store a file with the given digest: the empty digest is not written and needs
    /// no backend, whether or not the databases could be opened; any other digest is
    /// copied into the backend that holds entries of its kind and declared length.
    pub fn store(&self, entry_type: EntryType, digest: Digest) -> (plan: Result<CopyPlan, String>)
        ensures
            plan == self.copy_plan(entry_type, digest),
    {
        if digest.is_empty() {
            return Ok(CopyPlan::Nothing);
        }
        match self.tier(entry_type, digest.size_bytes) {
            Ok(tier) => Ok(CopyPlan::Into(tier)),
            Err(error) => Err(error),
        }
    }

    /// What `store` returns once the copy into the backend has ended with `outcome`: the
    /// digest if the copy succeeded, and the copy's error if it failed, whichever backend
    /// the copy went to. Where nothing was to be copied, `outcome` is `Ok`.
    pub fn stored(digest: Digest, outcome: Result<(), String>) -> (result: Result<Digest, String>)
        ensures
            match outcome {
                Ok(_) => result == Ok::<Digest, String>(digest),
                Err(error) => result == Err::<Digest, String>(error),
            },
    {
        match outcome {
            Ok(_) => Ok(digest),
            Err(error) => Err(error),
        }
    }

    /// Where the blob of a digest lies on disk, given whether the backend of large files
    /// has it: its path there, or `None`. The databases keep no files.
    pub fn load_from_fs(&self, digest: Digest, exists: bool) -> (path: Option<Vec<String>>)
        ensures
            path is Some <==> exists,
            path matches Some(path) ==> crate::fsdb::component_names(path@)
                == self.file_fsdb().path_of(digest.hash@),
    {
        if exists {
            Some(self.file_fsdb.get_path(digest.hash))
        } else {
            None
        }
    }

    /// The digests that a backend holds, given its aged fingerprints: the same entries in
    /// the same order, without the age.
    pub fn backend_digests(aged: &Vec<AgedFingerprint>) -> (digests: Vec<Digest>)
        ensures
            digests@ == digests_of(aged@),
    {
        let mut digests: Vec<Digest> = Vec::new();
        let mut i: usize = 0;
        while i < aged.len()
            invariant
                i <= aged@.len(),
                digests@ == digests_of(aged@.take(i as int)),
            decreases aged@.len() - i,
        {
            digests.push(aged[i].digest());
            assert(digests@ =~= digests_of(aged@.take(i as int + 1)));
            i += 1;
        }
        assert(aged@.take(i as int) =~= aged@);
        digests
    }

    /// All the digests of one kind, given the aged fingerprints of the database of that
    /// kind and those of the backend of large files: the database's first.
    pub fn all_digests(
        lmdb: &Vec<AgedFingerprint>,
        fsdb: &Vec<AgedFingerprint>,
    ) -> (digests: Vec<Digest>)
        ensures
            digests@ == digests_of(lmdb@) + digests_of(fsdb@),
    {
        let mut digests = ByteStore::backend_digests(lmdb);
        let mut more = ByteStore::backend_digests(fsdb);
        digests.append(&mut more);
        digests
    }

    /// The candidates for eviction, given the aged fingerprints of the three backends.
    pub fn candidates(
        file_lmdb: &Vec<AgedFingerprint>,
        directory_lmdb: &Vec<AgedFingerprint>,
        file_fsdb: &Vec<AgedFingerprint>,
    ) -> (candidates: Vec<Candidate>)
        ensures
            candidates@ == shrink_candidates(file_lmdb@, directory_lmdb@, file_fsdb@),
    {
        let mut candidates: Vec<Candidate> = Vec::new();
        push_tagged(&mut candidates, file_lmdb, EntryType::File);
        push_tagged(&mut candidates, directory_lmdb, EntryType::Directory);
        push_tagged(&mut candidates, file_fsdb, EntryType::File);
        assert(candidates@ =~= shrink_candidates(file_lmdb@, directory_lmdb@, file_fsdb@));
        candidates
    }

    /// What to remove so that the store uses no more than `target_bytes`, given the aged
    /// fingerprints of the three backends.
    ///
    /// The entries whose lease ran out longest ago go first; entries that ran out at the
    /// same time go in any order. The removals end when the store is within the target, or
    /// when only leased entries are left: then `used_bytes` is above the target, and the
    /// store is not compacted.
    pub fn shrink(
        target_bytes: u64,
        shrink_behavior: ShrinkBehavior,
        file_lmdb: &Vec<AgedFingerprint>,
        directory_lmdb: &Vec<AgedFingerprint>,
        file_fsdb: &Vec<AgedFingerprint>,
    ) -> (plan: Result<ShrinkPlan, UsedBytesOverflow>)
        ensures
            plan is Ok <==> total_size(shrink_candidates(file_lmdb@, directory_lmdb@, file_fsdb@))
                <= u64::MAX,
            plan matches Ok(plan) ==> {
                let candidates = shrink_candidates(file_lmdb@, directory_lmdb@, file_fsdb@);
                &&& exists|order: Seq<int>|
                    {
                        &&& is_eviction_order(candidates, target_bytes as int, order)
                        &&& #[trigger] removals_of(candidates, order) == plan.removals@
                        &&& plan.used_bytes == kept_size(candidates, order.to_set())
                    }
                &&& plan.compact == (shrink_behavior == ShrinkBehavior::Compact && plan.used_bytes
                    <= target_bytes)
            },
    {
        let candidates = ByteStore::candidates(file_lmdb, directory_lmdb, file_fsdb);
        if used_bytes(&candidates).is_none() {
            return Err(UsedBytesOverflow);
        }
        let eviction = plan_eviction(&candidates, target_bytes);
        let ghost order = positions(eviction.victims@);
        let mut removals: Vec<(EntryType, Digest)> = Vec::new();
        let mut k: usize = 0;
        while k < eviction.victims.len()
            invariant
                k <= eviction.victims@.len(),
                order == positions(eviction.victims@),
                is_eviction_order(candidates@, target_bytes as int, order),
                removals@ == removals_of(candidates@, order.take(k as int)),
            decreases eviction.victims@.len() - k,
        {
            assert(order[k as int] == eviction.victims@[k as int]);
            let victim = &candidates[eviction.victims[k]];
            removals.push((victim.entry_type, victim.aged.digest()));
            assert(removals@ =~= removals_of(candidates@, order.take(k as int + 1)));
            k += 1;
        }
        assert(order.take(k as int) =~= order);
        let compact = shrink_behavior == ShrinkBehavior::Compact && eviction.used_bytes
            <= target_bytes;
        Ok(ShrinkPlan { removals, used_bytes: eviction.used_bytes, compact })
    }

    /// What a load of the empty digest yields: `f` applied to the empty byte string.
    pub fn view_empty<T, F: FnOnce(&[u8]) -> T>(f: F) -> (viewed: T)
        requires
            forall|bytes: &[u8]| bytes@.len() == 0 ==> #[trigger] f.requires((bytes,)),
        ensures
            exists|bytes: &[u8]| bytes@.len() == 0 && #[trigger] f.ensures((bytes,), viewed),
    {
        let nothing: [u8; 0] = [];
        let bytes: &[u8] = nothing.as_slice();
        f(bytes)
    }

    /// The backend from which to remove the entry with the given digest. The removal's own
    /// result, whether an entry was there, is what `remove` returns.
    pub fn remove(&self, entry_type: EntryType, digest: Digest) -> (tier: Result<Tier, String>)
        ensures
            tier == self.route(entry_type, digest.size_bytes as int),
            entry_type == EntryType::Directory ==> tier != Ok::<Tier, String>(Tier::FileFsdb),
    {
        self.tier(entry_type, digest.size_bytes)
    }
}

} // verus!
