//! The sharded filesystem backend for large files: where a blob lives, what a scan of the
//! tree says about the age of each blob, and when a copy into the store is given up.
//!
//! Nothing here touches the filesystem: the functions take what was read from it and say
//! what follows.

use crate::entry::AgedFingerprint;
use crate::fingerprint::hex_decode;
use crate::fingerprint::hex_encode;
use crate::fingerprint::is_fingerprint_hex;
use crate::fingerprint::is_parse_error;
use crate::fingerprint::Fingerprint;
use crate::fingerprint::FingerprintParseError;
use crate::time::expired_seconds;
use crate::time::expired_seconds_ago;
use crate::time::LeaseTime;
use crate::time::Timestamp;
use vstd::prelude::*;

verus! {

/// The mode of a blob once it is in place: read and execute for all, write for none.
pub const IMMUTABLE_FILE_MODE: u32 = 0o555;

/// How many copies in a row may fail, because the source changed under them, before the
/// store is given up: the tenth failure is fatal.
pub const MAX_COPY_ATTEMPTS: u32 = 10;

/// The names of path components, as sequences of characters.
pub open spec fn component_names(path: Seq<String>) -> Seq<Seq<char>> {
    path.map_values(|component: String| component@)
}

/// The fingerprints whose lookup succeeded: `fingerprints[i]` for each `i` with `found[i]`,
/// in order. Where the two differ in length, what is beyond the shorter one is left out.
pub open spec fn found_fingerprints(fingerprints: Seq<Fingerprint>, found: Seq<bool>) -> Seq<
    Fingerprint,
>
    decreases fingerprints.len(),
{
    if fingerprints.len() == 0 {
        Seq::empty()
    } else {
        let last = fingerprints.len() - 1;
        let before = found_fingerprints(fingerprints.drop_last(), found);
        if last < found.len() && found[last] {
            before.push(fingerprints[last])
        } else {
            before
        }
    }
}

/// Asking about one fingerprint yields that fingerprint if its lookup succeeded, and
/// nothing if it failed.
pub proof fn lemma_exists_batch_of_one(fingerprint: Fingerprint, found: bool)
    ensures
        found_fingerprints(seq![fingerprint], seq![found]) == if found {
            seq![fingerprint]
        } else {
            Seq::<Fingerprint>::empty()
        },
        found_fingerprints(seq![fingerprint], seq![found]).contains(fingerprint) <==> found,
{
    reveal_with_fuel(found_fingerprints, 2);
    let none = Seq::<Fingerprint>::empty();
    assert(seq![fingerprint].drop_last() =~= none);
    assert(none.push(fingerprint) =~= seq![fingerprint]);
    if found {
        assert(seq![fingerprint][0] == fingerprint);
    }
}

/// Whether `fingerprint` was asked about and its lookup succeeded.
pub open spec fn was_found(
    fingerprints: Seq<Fingerprint>,
    found: Seq<bool>,
    fingerprint: Fingerprint,
) -> bool {
    exists|i: int|
        0 <= i < fingerprints.len() && i < found.len() && found[i] && #[trigger] fingerprints[i]
            == fingerprint
}

/// The fingerprints that are reported as existing are those that were asked about and
/// whose lookup succeeded.
pub proof fn lemma_found_were_asked(
    fingerprints: Seq<Fingerprint>,
    found: Seq<bool>,
    fingerprint: Fingerprint,
)
    ensures
        found_fingerprints(fingerprints, found).contains(fingerprint) <==> was_found(
            fingerprints,
            found,
            fingerprint,
        ),
    decreases fingerprints.len(),
{
    if fingerprints.len() > 0 {
        let last = fingerprints.len() - 1;
        let rest = fingerprints.drop_last();
        let before = found_fingerprints(rest, found);
        lemma_found_were_asked(rest, found, fingerprint);
        let all = found_fingerprints(fingerprints, found);
        if all.contains(fingerprint) {
            let k = choose|k: int| 0 <= k < all.len() && all[k] == fingerprint;
            if last < found.len() && found[last] && k == before.len() {
                assert(fingerprints[last] == fingerprint);
            } else {
                assert(before[k] == fingerprint);
                let i = choose|i: int|
                    0 <= i < rest.len() && i < found.len() && found[i] && #[trigger] rest[i]
                        == fingerprint;
                assert(fingerprints[i] == fingerprint);
            }
        }
        if was_found(fingerprints, found, fingerprint) {
            let i = choose|i: int|
                0 <= i < fingerprints.len() && i < found.len() && found[i]
                    && #[trigger] fingerprints[i] == fingerprint;
            if i == last {
                assert(all[before.len() as int] == fingerprint);
            } else {
                assert(rest[i] == fingerprint);
                let k = choose|k: int| 0 <= k < before.len() && before[k] == fingerprint;
                assert(all[k] == fingerprint);
            }
        }
    }
}

/// A file whose name starts with a dot, as the names of files in flight do, is never taken
/// for a blob: its name is not the hexadecimal form of a fingerprint.
pub proof fn lemma_dot_names_are_no_blobs(name: Seq<char>)
    requires
        name.len() > 0,
        name[0] == '.',
    ensures
        !is_fingerprint_hex(name),
{
    assert(crate::fingerprint::hex_value(name[0]) is None);
}

/// What a scan found for one file of a shard directory.
#[derive(Clone, Debug)]
pub struct FileEntry {
    /// The file's name within its shard directory.
    pub name: String,
    /// The file's length in bytes.
    pub length: u64,
    /// When the file was last modified, which is when its lease was last taken.
    pub mtime: Timestamp,
}

/// A file in a shard directory whose name is not the hexadecimal form of a fingerprint: the
/// store is corrupt.
#[derive(Clone, Copy, Debug, PartialEq, Eq, Structural)]
pub struct InvalidEntry {
    /// The position of the file among the scanned entries.
    pub index: usize,
    /// What is wrong with the file's name.
    pub error: FingerprintParseError,
}

/// What the next step of a copy into the store is.
#[derive(Clone, Copy, Debug)]
pub enum CopyStep {
    /// The copy holds the expected content: flush it and put it in place.
    Persist,
    /// The source changed while it was read: open both sides again and copy once more.
    Retry(CopyAttempts),
    /// The source changed under the tenth copy in a row: the store fails.
    GiveUp,
}

/// The copies into the store that failed so far because the source changed under them.
#[derive(Clone, Copy, Debug)]
pub struct CopyAttempts {
    failed: u32,
}

impl CopyAttempts {
    #[verifier::type_invariant]
    spec fn well_formed(self) -> bool {
        self.failed < MAX_COPY_ATTEMPTS
    }

    /// The number of copies that failed so far.
    pub closed spec fn failed(self) -> nat {
        self.failed as nat
    }

    /// The state before the first copy.
    pub fn new() -> (attempts: CopyAttempts)
        ensures
            attempts.failed() == 0,
    {
        CopyAttempts { failed: 0 }
    }

    /// What follows a copy. `should_retry` is what the verified copy reported: whether the
    /// content it read was not the expected one. A copy that verifies is put in place. A
    /// copy that does not is made once more, unless it was the tenth in a row to fail:
    /// then the store is given up.
    pub fn after_copy(self, should_retry: bool) -> (step: CopyStep)
        ensures
            !should_retry ==> step is Persist,
            should_retry && self.failed() + 1 < MAX_COPY_ATTEMPTS ==> (step matches CopyStep::Retry(
                next,
            ) && next.failed() == self.failed() + 1),
            should_retry && self.failed() + 1 >= MAX_COPY_ATTEMPTS ==> step is GiveUp,
    {
        proof {
            use_type_invariant(self);
        }
        if !should_retry {
            CopyStep::Persist
        } else if self.failed + 1 < MAX_COPY_ATTEMPTS {
            CopyStep::Retry(CopyAttempts { failed: self.failed + 1 })
        } else {
            CopyStep::GiveUp
        }
    }
}

/// The large-file tier: immutable blobs as files under `<root>/<first two hex digits>/<hex>`.
#[derive(Clone, Debug)]
pub struct ShardedFSDB {
    root: Vec<String>,
    lease_time: LeaseTime,
}

/// Blobs with different fingerprints are kept at different paths, and a blob's path ends
/// with its shard and the 64 hexadecimal digits of its fingerprint.
pub proof fn lemma_paths_are_distinct(fsdb: ShardedFSDB, a: Seq<u8>, b: Seq<u8>)
    requires
        a.len() == 32,
        b.len() == 32,
    ensures
        fsdb.path_of(a).len() == fsdb.root().len() + 2,
        fsdb.path_of(a).last() == hex_encode(a),
        fsdb.path_of(a).last().len() == 64,
        fsdb.path_of(a)[fsdb.root().len() as int] == hex_encode(a).take(2),
        fsdb.path_of(a) == fsdb.path_of(b) <==> a == b,
{
    crate::fingerprint::lemma_hex_round_trip(a);
    if fsdb.path_of(a) == fsdb.path_of(b) {
        assert(fsdb.path_of(a).last() == fsdb.path_of(b).last());
        crate::fingerprint::lemma_hex_encode_injective(a, b);
    }
}

impl ShardedFSDB {
    /// The components of the path of the tier's root directory.
    pub closed spec fn root(&self) -> Seq<Seq<char>> {
        component_names(self.root@)
    }

    /// For how long a blob is leased after it was written or leased.
    pub closed spec fn lease_time(&self) -> LeaseTime {
        self.lease_time
    }

    /// The path at which the tier keeps the blob with fingerprint `fingerprint`.
    pub open spec fn path_of(&self, fingerprint: Seq<u8>) -> Seq<Seq<char>> {
        self.root() + seq![hex_encode(fingerprint).take(2), hex_encode(fingerprint)]
    }

    /// A tier rooted at the directory with the path components `root`, with leases of
    /// `lease_time`.
    pub fn new(root: Vec<String>, lease_time: LeaseTime) -> (fsdb: ShardedFSDB)
        ensures
            fsdb.root() == component_names(root@),
            fsdb.lease_time() == lease_time,
    {
        ShardedFSDB { root, lease_time }
    }

    /// The components of the path at which the blob with the given fingerprint is kept: those
    /// of the root, then the shard, then the file.
    pub fn get_path(&self, fingerprint: Fingerprint) -> (path: Vec<String>)
        ensures
            component_names(path@) == self.path_of(fingerprint@),
    {
        let mut path: Vec<String> = Vec::new();
        let mut i: usize = 0;
        while i < self.root.len()
            invariant
                i <= self.root@.len(),
                path@.len() == i,
                component_names(path@) == component_names(self.root@).take(i as int),
            decreases self.root@.len() - i,
        {
            let ghost before = path@;
            let component = self.root[i].clone();
            path.push(component);
            proof {
                let names = component_names(self.root@);
                assert forall|j: int| 0 <= j < i + 1 implies component_names(path@)[j]
                    == names.take(i as int + 1)[j] by {
                    if j < i {
                        assert(component_names(before)[j] == names.take(i as int)[j]);
                    }
                }
                assert(component_names(path@) =~= names.take(i as int + 1));
            }
            i += 1;
        }
        assert(component_names(self.root@).take(i as int) =~= component_names(self.root@));
        path.push(fingerprint.hex_prefix());
        path.push(fingerprint.to_hex());
        assert(component_names(path@) =~= self.path_of(fingerprint@));
        path
    }

    /// The fingerprints that exist, given for each one asked about whether its lookup
    /// succeeded. A lookup that failed, for whatever reason, counts as absence.
    pub fn exists_batch(fingerprints: &Vec<Fingerprint>, found: &Vec<bool>) -> (existing: Vec<
        Fingerprint,
    >)
        ensures
            existing@ == found_fingerprints(fingerprints@, found@),
    {
        let mut existing: Vec<Fingerprint> = Vec::new();
        let mut i: usize = 0;
        while i < fingerprints.len()
            invariant
                i <= fingerprints@.len(),
                existing@ == found_fingerprints(fingerprints@.take(i as int), found@),
            decreases fingerprints@.len() - i,
        {
            assert(fingerprints@.take(i as int + 1).drop_last() =~= fingerprints@.take(i as int));
            if i < found.len() && found[i] {
                existing.push(fingerprints[i]);
            }
            i += 1;
        }
        assert(fingerprints@.take(i as int) =~= fingerprints@);
        existing
    }

    /// The age of every blob that a scan of the tree found at `now`, in the order of the
    /// scan; or the first file whose name is not the hexadecimal form of a fingerprint.
    pub fn aged_fingerprints(&self, now: Timestamp, entries: &Vec<FileEntry>) -> (aged: Result<
        Vec<AgedFingerprint>,
        InvalidEntry,
    >)
        ensures
            aged is Ok <==> forall|i: int|
                0 <= i < entries@.len() ==> is_fingerprint_hex(#[trigger] entries@[i].name@),
            match aged {
                Ok(list) => {
                    &&& list@.len() == entries@.len()
                    &&& forall|i: int|
                        0 <= i < list@.len() ==> {
                            &&& (#[trigger] list@[i]).fingerprint@ == hex_decode(entries@[i].name@)
                            &&& list@[i].size_bytes == entries@[i].length
                            &&& list@[i].expired_seconds_ago == expired_seconds(
                                now@,
                                self.lease_time()@,
                                entries@[i].mtime@,
                            )
                        }
                },
                Err(invalid) => {
                    &&& invalid.index < entries@.len()
                    &&& !is_fingerprint_hex(entries@[invalid.index as int].name@)
                    &&& forall|i: int|
                        0 <= i < invalid.index ==> is_fingerprint_hex(
                            #[trigger] entries@[i].name@,
                        )
                    &&& is_parse_error(entries@[invalid.index as int].name@, invalid.error)
                },
            },
    {
        let mut list: Vec<AgedFingerprint> = Vec::new();
        let mut i: usize = 0;
        while i < entries.len()
            invariant
                i <= entries@.len(),
                list@.len() == i,
                forall|j: int| 0 <= j < i ==> is_fingerprint_hex(#[trigger] entries@[j].name@),
                forall|j: int|
                    0 <= j < i ==> {
                        &&& (#[trigger] list@[j]).fingerprint@ == hex_decode(entries@[j].name@)
                        &&& list@[j].size_bytes == entries@[j].length
                        &&& list@[j].expired_seconds_ago == expired_seconds(
                            now@,
                            self.lease_time()@,
                            entries@[j].mtime@,
                        )
                    },
            decreases entries@.len() - i,
        {
            let entry = &entries[i];
            let fingerprint = match Fingerprint::from_hex_string(entry.name.as_str()) {
                Ok(fingerprint) => fingerprint,
                Err(error) => {
                    return Err(InvalidEntry { index: i, error });
                },
            };
            list.push(
                AgedFingerprint {
                    expired_seconds_ago: expired_seconds_ago(now, self.lease_time, entry.mtime),
                    fingerprint,
                    size_bytes: entry.length,
                },
            );
            i += 1;
        }
        Ok(list)
    }
}

} // verus!
