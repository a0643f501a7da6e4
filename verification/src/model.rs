//! What the backends hold, as a model against which the router's plans are read, and the
//! laws of the store that follow from it.
//!
//! The backends themselves are files and databases that the library never touches. The
//! model says what each holds once the plans of the router are carried out: a backend is a
//! map from fingerprints to bytes, a write puts the bytes under the fingerprint, a load
//! returns what is under it.

use crate::blob::bytes_content;
use crate::byte_store::is_empty_blob;
use crate::byte_store::is_missing;
use crate::byte_store::tier_of;
use crate::byte_store::use_fsdb;
use crate::byte_store::ByteStore;
use crate::byte_store::CopyPlan;
use crate::byte_store::ExistenceQuery;
use crate::byte_store::LoadPlan;
use crate::byte_store::StoreBytesPlan;
use crate::byte_store::Tier;
use crate::byte_store::LARGE_FILE_SIZE_LIMIT;
use crate::digest::empty_digest;
use crate::digest::Digest;
use crate::entry::EntryType;
use crate::fingerprint::Fingerprint;
use bytes::Bytes;
use vstd::prelude::*;

verus! {

/// The bytes that each backend holds under each fingerprint.
pub struct Contents {
    pub directory_lmdb: Map<Fingerprint, Seq<u8>>,
    pub file_lmdb: Map<Fingerprint, Seq<u8>>,
    pub file_fsdb: Map<Fingerprint, Seq<u8>>,
}

impl Contents {
    /// What the given backend holds.
    pub open spec fn backend(self, tier: Tier) -> Map<Fingerprint, Seq<u8>> {
        match tier {
            Tier::DirectoryLmdb => self.directory_lmdb,
            Tier::FileLmdb => self.file_lmdb,
            Tier::FileFsdb => self.file_fsdb,
        }
    }

    /// Whether the given backend holds the fingerprint.
    pub open spec fn holds(self, tier: Tier, fingerprint: Fingerprint) -> bool {
        self.backend(tier).contains_key(fingerprint)
    }

    /// The contents after `bytes` is written to a backend under `fingerprint`.
    pub open spec fn put(self, tier: Tier, fingerprint: Fingerprint, bytes: Seq<u8>) -> Contents {
        match tier {
            Tier::DirectoryLmdb => Contents {
                directory_lmdb: self.directory_lmdb.insert(fingerprint, bytes),
                ..self
            },
            Tier::FileLmdb => Contents {
                file_lmdb: self.file_lmdb.insert(fingerprint, bytes),
                ..self
            },
            Tier::FileFsdb => Contents {
                file_fsdb: self.file_fsdb.insert(fingerprint, bytes),
                ..self
            },
        }
    }

    /// The contents after the blobs are written to a backend, one after the other.
    pub open spec fn put_all(self, tier: Tier, items: Seq<(Fingerprint, Bytes)>) -> Contents
        decreases items.len(),
    {
        if items.len() == 0 {
            self
        } else {
            self.put_all(tier, items.drop_last()).put(
                tier,
                items.last().0,
                bytes_content(items.last().1),
            )
        }
    }

    /// The contents after a plan of `store_bytes_batch` is carried out.
    pub open spec fn after_store(self, plan: StoreBytesPlan) -> Contents {
        self.put_all(Tier::FileFsdb, plan.fsdb_items@).put_all(plan.lmdb, plan.lmdb_items@)
    }

    /// What a load according to `plan` yields for `digest`: the empty byte string without a
    /// look at any backend, or what the backend holds under the digest's fingerprint, or
    /// `None` where it holds nothing.
    pub open spec fn loaded(self, plan: LoadPlan, digest: Digest) -> Option<Seq<u8>> {
        match plan {
            LoadPlan::Empty => Some(Seq::empty()),
            LoadPlan::From(tier) => if self.holds(tier, digest.hash) {
                Some(self.backend(tier)[digest.hash])
            } else {
                None
            },
        }
    }

    /// What a backend answers when asked which of the fingerprints exist: those that it
    /// holds, in the order asked.
    pub open spec fn existing(self, tier: Tier, asked: Seq<Fingerprint>) -> Seq<Fingerprint> {
        asked.filter(|fingerprint: Fingerprint| self.holds(tier, fingerprint))
    }

    /// Whether a digest of the given kind is stored: whether the backend that entries of its
    /// kind and length go to holds its fingerprint.
    pub open spec fn stored(self, entry_type: EntryType, digest: Digest) -> bool {
        self.holds(tier_of(entry_type, digest.size_bytes as int), digest.hash)
    }
}

/// Writes only add: what a backend holds before a batch is written, it holds afterwards,
/// and the backend written to holds every fingerprint of the batch.
proof fn lemma_put_all_holds(contents: Contents, tier: Tier, items: Seq<(Fingerprint, Bytes)>)
    ensures
        forall|other: Tier, fingerprint: Fingerprint|
            contents.holds(other, fingerprint) ==> #[trigger] contents.put_all(tier, items).holds(
                other,
                fingerprint,
            ),
        forall|i: int|
            0 <= i < items.len() ==> contents.put_all(tier, items).holds(
                tier,
                (#[trigger] items[i]).0,
            ),
    decreases items.len(),
{
    if items.len() > 0 {
        let rest = items.drop_last();
        lemma_put_all_holds(contents, tier, rest);
        let before = contents.put_all(tier, rest);
        assert forall|other: Tier, fingerprint: Fingerprint|
            contents.holds(other, fingerprint) implies #[trigger] contents.put_all(
            tier,
            items,
        ).holds(other, fingerprint) by {
            assert(before.holds(other, fingerprint));
        }
        assert forall|i: int| 0 <= i < items.len() implies contents.put_all(tier, items).holds(
            tier,
            (#[trigger] items[i]).0,
        ) by {
            if i < rest.len() {
                assert(rest[i] == items[i]);
                assert(before.holds(tier, rest[i].0));
            }
        }
    }
}

/// Every blob of a batch but the empty blob is, once the plan of `store_bytes_batch` is
/// carried out, in the backend that the routing predicate names for its kind and length.
pub proof fn lemma_batch_is_stored(
    store: ByteStore,
    contents: Contents,
    entry_type: EntryType,
    items: Seq<(Fingerprint, Bytes)>,
    plan: StoreBytesPlan,
)
    requires
        store.is_store_plan(entry_type, items, Ok(plan)),
    ensures
        forall|i: int|
            0 <= i < items.len() && !is_empty_blob(#[trigger] items[i])
                ==> contents.after_store(plan).holds(
                tier_of(entry_type, bytes_content(items[i].1).len() as int),
                items[i].0,
            ),
{
    let large = contents.put_all(Tier::FileFsdb, plan.fsdb_items@);
    lemma_put_all_holds(contents, Tier::FileFsdb, plan.fsdb_items@);
    lemma_put_all_holds(large, plan.lmdb, plan.lmdb_items@);
    assert forall|i: int|
        0 <= i < items.len() && !is_empty_blob(
            #[trigger] items[i],
        ) implies contents.after_store(plan).holds(
        tier_of(entry_type, bytes_content(items[i].1).len() as int),
        items[i].0,
    ) by {
        let item = items[i];
        assert(items.contains(item));
        lemma_filter_membership(items, crate::byte_store::stores_in_fsdb(entry_type), item);
        lemma_filter_membership(items, crate::byte_store::stores_in_lmdb(entry_type), item);
        if use_fsdb(entry_type, bytes_content(item.1).len() as int) {
            let k = choose|k: int| 0 <= k < plan.fsdb_items@.len() && plan.fsdb_items@[k] == item;
            assert(large.holds(Tier::FileFsdb, plan.fsdb_items@[k].0));
        } else {
            let k = choose|k: int| 0 <= k < plan.lmdb_items@.len() && plan.lmdb_items@[k] == item;
            assert(contents.after_store(plan).holds(plan.lmdb, plan.lmdb_items@[k].0));
        }
    }
}

/// The empty blob is never written: no plan of `store_bytes_batch` holds it, in either
/// part, and every item that a plan holds is one of the batch.
pub proof fn lemma_empty_blob_is_not_written(
    store: ByteStore,
    entry_type: EntryType,
    items: Seq<(Fingerprint, Bytes)>,
    plan: StoreBytesPlan,
)
    requires
        store.is_store_plan(entry_type, items, Ok(plan)),
    ensures
        forall|k: int|
            0 <= k < plan.fsdb_items@.len() ==> !is_empty_blob(#[trigger] plan.fsdb_items@[k])
                && items.contains(plan.fsdb_items@[k]),
        forall|k: int|
            0 <= k < plan.lmdb_items@.len() ==> !is_empty_blob(#[trigger] plan.lmdb_items@[k])
                && items.contains(plan.lmdb_items@[k]),
{
    assert forall|k: int| 0 <= k < plan.fsdb_items@.len() implies !is_empty_blob(
        #[trigger] plan.fsdb_items@[k],
    ) && items.contains(plan.fsdb_items@[k]) by {
        let item = plan.fsdb_items@[k];
        assert(plan.fsdb_items@.contains(item));
        lemma_filter_membership(items, crate::byte_store::stores_in_fsdb(entry_type), item);
    }
    assert forall|k: int| 0 <= k < plan.lmdb_items@.len() implies !is_empty_blob(
        #[trigger] plan.lmdb_items@[k],
    ) && items.contains(plan.lmdb_items@[k]) by {
        let item = plan.lmdb_items@[k];
        assert(plan.lmdb_items@.contains(item));
        lemma_filter_membership(items, crate::byte_store::stores_in_lmdb(entry_type), item);
    }
}

/// Storing the empty blob leaves every backend as it was.
pub proof fn lemma_empty_blob_changes_nothing(
    store: ByteStore,
    contents: Contents,
    entry_type: EntryType,
    fingerprint: Fingerprint,
    bytes: Bytes,
    plan: StoreBytesPlan,
)
    requires
        store.is_store_plan(entry_type, seq![(fingerprint, bytes)], Ok(plan)),
        is_empty_blob((fingerprint, bytes)),
    ensures
        plan.fsdb_items@.len() == 0,
        plan.lmdb_items@.len() == 0,
        contents.after_store(plan) == contents,
{
    let item = (fingerprint, bytes);
    lemma_filter_one(item, crate::byte_store::stores_in_fsdb(entry_type));
    lemma_filter_one(item, crate::byte_store::stores_in_lmdb(entry_type));
}

/// Where every lookup in the backend of large files succeeds exactly for the fingerprints
/// that the backend holds, `exists_batch` answers with the fingerprints that exist.
pub proof fn lemma_lookups_give_existing(
    contents: Contents,
    asked: Seq<Fingerprint>,
    found: Seq<bool>,
)
    requires
        found.len() == asked.len(),
        forall|i: int|
            0 <= i < asked.len() ==> found[i] == contents.holds(
                Tier::FileFsdb,
                #[trigger] asked[i],
            ),
    ensures
        crate::fsdb::found_fingerprints(asked, found) == contents.existing(Tier::FileFsdb, asked),
    decreases asked.len(),
{
    reveal(Seq::filter);
    if asked.len() > 0 {
        let rest = asked.drop_last();
        let rest_found = found.drop_last();
        assert forall|i: int| 0 <= i < rest.len() implies rest_found[i] == contents.holds(
            Tier::FileFsdb,
            #[trigger] rest[i],
        ) by {
            assert(rest[i] == asked[i]);
        }
        lemma_lookups_give_existing(contents, rest, rest_found);
        lemma_found_ignores_tail(rest, found);
        assert(asked.last() == asked[asked.len() - 1]);
    }
}

/// Answers beyond the fingerprints asked about change nothing.
proof fn lemma_found_ignores_tail(asked: Seq<Fingerprint>, found: Seq<bool>)
    requires
        found.len() > asked.len(),
    ensures
        crate::fsdb::found_fingerprints(asked, found) == crate::fsdb::found_fingerprints(
            asked,
            found.drop_last(),
        ),
    decreases asked.len(),
{
    if asked.len() > 0 {
        lemma_found_ignores_tail(asked.drop_last(), found);
        let last = asked.len() - 1;
        assert(found.drop_last()[last] == found[last]);
    }
}

/// Round trip: a blob that `store_bytes` was given is what a load of its digest yields, and
/// it has the length that the length check asks for. This holds of blobs of every length,
/// those at the limit for large files among them, and of the empty blob, which is not
/// written and is loaded without a look at any backend.
pub proof fn lemma_store_then_load(
    store: ByteStore,
    contents: Contents,
    entry_type: EntryType,
    fingerprint: Fingerprint,
    bytes: Bytes,
    plan: StoreBytesPlan,
)
    requires
        store.is_store_plan(entry_type, seq![(fingerprint, bytes)], Ok(plan)),
        bytes_content(bytes).len() <= u64::MAX,
    ensures
        ({
            let digest = Digest {
                hash: fingerprint,
                size_bytes: bytes_content(bytes).len() as u64,
            };
            &&& store.load_plan(entry_type, digest) matches Ok(load)
            &&& contents.after_store(plan).loaded(load, digest) == Some(bytes_content(bytes))
        }),
{
    let item = (fingerprint, bytes);
    let digest = Digest { hash: fingerprint, size_bytes: bytes_content(bytes).len() as u64 };
    let none = Seq::<(Fingerprint, Bytes)>::empty();
    lemma_filter_one(item, crate::byte_store::stores_in_fsdb(entry_type));
    lemma_filter_one(item, crate::byte_store::stores_in_lmdb(entry_type));
    let written = contents.after_store(plan);
    if is_empty_blob(item) {
        assert(digest == empty_digest());
        assert(bytes_content(bytes) =~= Seq::empty());
    } else if use_fsdb(entry_type, bytes_content(bytes).len() as int) {
        assert(plan.fsdb_items@ == seq![item]);
        assert(plan.lmdb_items@ == none);
        assert(seq![item].drop_last() =~= none);
        reveal_with_fuel(Contents::put_all, 2);
        assert(written == contents.put(Tier::FileFsdb, fingerprint, bytes_content(bytes)));
    } else {
        assert(plan.fsdb_items@ == none);
        assert(plan.lmdb_items@ == seq![item]);
        assert(seq![item].drop_last() =~= none);
        reveal_with_fuel(Contents::put_all, 2);
        assert(written == contents.put(plan.lmdb, fingerprint, bytes_content(bytes)));
        assert(digest != empty_digest());
    }
}

/// A file is copied into the backend that a load of its digest reads from; the empty digest
/// is neither copied nor read; and where the database that the digest needs failed to
/// open, both report its error.
pub proof fn lemma_copy_and_load_agree(store: ByteStore, entry_type: EntryType, digest: Digest)
    ensures
        match store.copy_plan(entry_type, digest) {
            Ok(CopyPlan::Nothing) => digest == empty_digest() && store.load_plan(
                entry_type,
                digest,
            ) == Ok::<LoadPlan, String>(LoadPlan::Empty),
            Ok(CopyPlan::Into(tier)) => digest != empty_digest() && store.load_plan(
                entry_type,
                digest,
            ) == Ok::<LoadPlan, String>(LoadPlan::From(tier)),
            Err(error) => store.load_plan(entry_type, digest) == Err::<LoadPlan, String>(error),
        },
{
}

/// The items of a one-item sequence that meet a predicate.
proof fn lemma_filter_one<A>(item: A, pred: spec_fn(A) -> bool)
    ensures
        seq![item].filter(pred) == if pred(item) {
            seq![item]
        } else {
            Seq::<A>::empty()
        },
{
    let none = Seq::<A>::empty();
    assert(none.filter(pred) =~= none) by {
        reveal(Seq::filter);
    }
    none.lemma_filter_push(item, pred);
    assert(none.push(item) =~= seq![item]);
}

/// The routing predicate: a blob that `store_bytes` writes (any but the empty blob), and
/// that the backend of large files did not hold before, is in that backend afterwards
/// exactly if it is a file of 512 KiB or more.
pub proof fn lemma_store_routes_by_size(
    store: ByteStore,
    contents: Contents,
    entry_type: EntryType,
    fingerprint: Fingerprint,
    bytes: Bytes,
    plan: StoreBytesPlan,
)
    requires
        store.is_store_plan(entry_type, seq![(fingerprint, bytes)], Ok(plan)),
        !is_empty_blob((fingerprint, bytes)),
        !contents.holds(Tier::FileFsdb, fingerprint),
    ensures
        contents.after_store(plan).holds(Tier::FileFsdb, fingerprint) <==> entry_type
            == EntryType::File && bytes_content(bytes).len() >= LARGE_FILE_SIZE_LIMIT,
        contents.after_store(plan).holds(
            tier_of(entry_type, bytes_content(bytes).len() as int),
            fingerprint,
        ),
{
    let item = (fingerprint, bytes);
    let none = Seq::<(Fingerprint, Bytes)>::empty();
    lemma_filter_one(item, crate::byte_store::stores_in_fsdb(entry_type));
    lemma_filter_one(item, crate::byte_store::stores_in_lmdb(entry_type));
    assert(seq![item].drop_last() =~= none);
    reveal_with_fuel(Contents::put_all, 2);
}

/// Idempotence: carrying out the plan for a blob a second time leaves every backend
/// holding what it held after the first time.
pub proof fn lemma_store_twice(
    store: ByteStore,
    contents: Contents,
    entry_type: EntryType,
    fingerprint: Fingerprint,
    bytes: Bytes,
    plan: StoreBytesPlan,
)
    requires
        store.is_store_plan(entry_type, seq![(fingerprint, bytes)], Ok(plan)),
    ensures
        contents.after_store(plan).after_store(plan).directory_lmdb == contents.after_store(
            plan,
        ).directory_lmdb,
        contents.after_store(plan).after_store(plan).file_lmdb == contents.after_store(
            plan,
        ).file_lmdb,
        contents.after_store(plan).after_store(plan).file_fsdb == contents.after_store(
            plan,
        ).file_fsdb,
{
    let item = (fingerprint, bytes);
    let none = Seq::<(Fingerprint, Bytes)>::empty();
    lemma_filter_one(item, crate::byte_store::stores_in_fsdb(entry_type));
    lemma_filter_one(item, crate::byte_store::stores_in_lmdb(entry_type));
    assert(seq![item].drop_last() =~= none);
    reveal_with_fuel(Contents::put_all, 2);
    let once = contents.after_store(plan);
    let twice = once.after_store(plan);
    assert(twice.directory_lmdb =~= once.directory_lmdb);
    assert(twice.file_lmdb =~= once.file_lmdb);
    assert(twice.file_fsdb =~= once.file_fsdb);
}

/// A backend reports a fingerprint as existing exactly when a load from it yields bytes.
pub proof fn lemma_exists_iff_loads(contents: Contents, tier: Tier, digest: Digest)
    ensures
        contents.existing(tier, seq![digest.hash]) == seq![digest.hash] <==> contents.loaded(
            LoadPlan::From(tier),
            digest,
        ) is Some,
        contents.existing(tier, seq![digest.hash]).len() == 0 <==> contents.loaded(
            LoadPlan::From(tier),
            digest,
        ) is None,
{
    lemma_filter_one(digest.hash, |fingerprint: Fingerprint| contents.holds(tier, fingerprint));
}

/// What is in a filtered sequence: the items of the sequence that meet the predicate.
proof fn lemma_filter_membership<A>(s: Seq<A>, pred: spec_fn(A) -> bool, x: A)
    ensures
        s.filter(pred).contains(x) <==> s.contains(x) && pred(x),
    decreases s.len(),
{
    reveal(Seq::filter);
    if s.len() > 0 {
        let rest = s.drop_last();
        lemma_filter_membership(rest, pred, x);
        if s.contains(x) {
            let i = choose|i: int| 0 <= i < s.len() && s[i] == x;
            if i < s.len() - 1 {
                assert(rest[i] == x);
            }
        }
        if rest.contains(x) {
            let i = choose|i: int| 0 <= i < rest.len() && rest[i] == x;
            assert(s[i] == x);
        }
        if pred(s.last()) {
            let kept = rest.filter(pred);
            if kept.push(s.last()).contains(x) {
                let longer = kept.push(s.last());
                let i = choose|i: int| 0 <= i < longer.len() && longer[i] == x;
                if i < kept.len() {
                    assert(kept[i] == x);
                }
            }
            if kept.contains(x) {
                let i = choose|i: int| 0 <= i < kept.len() && kept[i] == x;
                assert(kept.push(s.last())[i] == x);
            }
            if s.last() == x {
                assert(kept.push(s.last())[kept.len() as int] == x);
                assert(s[s.len() - 1] == x);
            }
        }
    }
}

/// Missing digests: where each backend answers with the fingerprints it holds among those
/// asked, `get_missing_digests` and `missing_digests` together
/// - never report the empty digest, nor a digest that was not asked about;
/// - report nothing where every digest is the empty one or is stored;
/// - report every digest but the empty one that is not stored, as long as no two of the
///   digests have the same fingerprint and lie on different sides of the limit for large
///   files.
pub proof fn lemma_missing_digests(
    store: ByteStore,
    contents: Contents,
    entry_type: EntryType,
    digests: Seq<Digest>,
    query: ExistenceQuery,
)
    requires
        store.is_existence_query(entry_type, digests, Ok(query)),
    ensures
        ({
            let missing = digests.filter(
                is_missing(
                    contents.existing(Tier::FileFsdb, query.fsdb@),
                    contents.existing(query.lmdb, query.lmdb_fingerprints@),
                ),
            );
            &&& !missing.contains(empty_digest())
            &&& forall|digest: Digest|
                #[trigger] missing.contains(digest) ==> digests.contains(digest)
            &&& (forall|digest: Digest|
                digests.contains(digest) ==> digest == empty_digest() || contents.stored(
                    entry_type,
                    digest,
                )) ==> missing.len() == 0
            &&& (forall|a: Digest, b: Digest|
                digests.contains(a) && digests.contains(b) && a.hash == b.hash ==> use_fsdb(
                    entry_type,
                    a.size_bytes as int,
                ) == use_fsdb(entry_type, b.size_bytes as int)) ==> forall|digest: Digest|
                digests.contains(digest) && digest != empty_digest() && !contents.stored(
                    entry_type,
                    digest,
                ) ==> #[trigger] missing.contains(digest)
        }),
{
    let asked_fsdb = digests.filter(crate::byte_store::asks_fsdb(entry_type));
    let asked_lmdb = digests.filter(crate::byte_store::asks_lmdb(entry_type));
    let hash = crate::byte_store::hash_of();
    let in_fsdb = |fingerprint: Fingerprint| contents.holds(Tier::FileFsdb, fingerprint);
    let in_lmdb = |fingerprint: Fingerprint| contents.holds(query.lmdb, fingerprint);
    let existing_fsdb = contents.existing(Tier::FileFsdb, query.fsdb@);
    let existing_lmdb = contents.existing(query.lmdb, query.lmdb_fingerprints@);
    let pred = is_missing(existing_fsdb, existing_lmdb);
    let missing = digests.filter(pred);
    assert forall|digest: Digest| #[trigger] missing.contains(digest) implies digests.contains(
        digest,
    ) && pred(digest) by {
        lemma_filter_membership(digests, pred, digest);
    }
    lemma_filter_membership(digests, pred, empty_digest());
    if forall|digest: Digest|
        digests.contains(digest) ==> digest == empty_digest() || contents.stored(
            entry_type,
            digest,
        ) {
        if missing.len() > 0 {
            let digest = missing[0];
            assert(missing.contains(digest));
            assert(contents.stored(entry_type, digest));
            let i = choose|i: int| 0 <= i < digests.len() && digests[i] == digest;
            if use_fsdb(entry_type, digest.size_bytes as int) {
                lemma_filter_membership(digests, crate::byte_store::asks_fsdb(entry_type), digest);
                let k = choose|k: int| 0 <= k < asked_fsdb.len() && asked_fsdb[k] == digest;
                assert(query.fsdb@[k] == digest.hash);
                lemma_filter_membership(query.fsdb@, in_fsdb, digest.hash);
                assert(existing_fsdb.contains(digest.hash));
            } else {
                lemma_filter_membership(digests, crate::byte_store::asks_lmdb(entry_type), digest);
                let k = choose|k: int| 0 <= k < asked_lmdb.len() && asked_lmdb[k] == digest;
                assert(query.lmdb_fingerprints@[k] == digest.hash);
                lemma_filter_membership(query.lmdb_fingerprints@, in_lmdb, digest.hash);
                assert(existing_lmdb.contains(digest.hash));
            }
            assert(false);
        }
    }
    if forall|a: Digest, b: Digest|
        digests.contains(a) && digests.contains(b) && a.hash == b.hash ==> use_fsdb(
            entry_type,
            a.size_bytes as int,
        ) == use_fsdb(entry_type, b.size_bytes as int) {
        assert forall|digest: Digest|
            digests.contains(digest) && digest != empty_digest() && !contents.stored(
                entry_type,
                digest,
            ) implies #[trigger] missing.contains(digest) by {
            lemma_filter_membership(digests, pred, digest);
            if existing_fsdb.contains(digest.hash) {
                lemma_filter_membership(query.fsdb@, in_fsdb, digest.hash);
                let k = choose|k: int| 0 <= k < query.fsdb@.len() && query.fsdb@[k] == digest.hash;
                let other = asked_fsdb[k];
                assert(asked_fsdb.contains(other));
                lemma_filter_membership(digests, crate::byte_store::asks_fsdb(entry_type), other);
                assert(other.hash == digest.hash);
            }
            if existing_lmdb.contains(digest.hash) {
                lemma_filter_membership(query.lmdb_fingerprints@, in_lmdb, digest.hash);
                let k = choose|k: int|
                    0 <= k < query.lmdb_fingerprints@.len() && query.lmdb_fingerprints@[k]
                        == digest.hash;
                let other = asked_lmdb[k];
                assert(asked_lmdb.contains(other));
                lemma_filter_membership(digests, crate::byte_store::asks_lmdb(entry_type), other);
                assert(other.hash == digest.hash);
            }
        }
    }
}

} // verus!
