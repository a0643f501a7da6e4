//! The eviction engine: which entries to remove, and in what order, to bring the store
//! under a byte budget without touching an entry that is still leased.

use crate::entry::AgedFingerprint;
use crate::entry::EntryType;
use crate::heap::ExpiryHeap;
use crate::heap::HeapItem;
use vstd::prelude::*;

verus! {

/// An entry that eviction may consider: its age and size, and the namespace it was found in.
#[derive(Clone, Copy, Debug)]
pub struct Candidate {
    pub aged: AgedFingerprint,
    pub entry_type: EntryType,
}

impl Candidate {
    /// For how many seconds the candidate's lease has been over; zero while it is leased.
    pub open spec fn age(self) -> u64 {
        self.aged.expired_seconds_ago
    }
}

/// The bytes used by the candidates whose position is not in `evicted`.
pub open spec fn kept_size(candidates: Seq<Candidate>, evicted: Set<int>) -> int
    decreases candidates.len(),
{
    if candidates.len() == 0 {
        0
    } else {
        kept_size(candidates.drop_last(), evicted) + if evicted.contains(candidates.len() - 1) {
            0
        } else {
            candidates.last().aged.size_bytes as int
        }
    }
}

/// The bytes used by all the candidates.
pub open spec fn total_size(candidates: Seq<Candidate>) -> int {
    kept_size(candidates, Set::empty())
}

/// The positions that the first `k` steps of `order` evict.
pub open spec fn evicted_before(order: Seq<int>, k: int) -> Set<int> {
    order.take(k).to_set()
}

/// Whether each step of `order` is an eviction that the engine may make for `target_bytes`:
/// positions of `candidates`, each evicted once, such that
/// - no evicted entry is still leased;
/// - each step evicts an entry whose lease ran out no later than that of any entry still
///   there at that step (the most expired goes first);
/// - each step is taken only while the store is over budget.
pub open spec fn is_eviction_prefix(
    candidates: Seq<Candidate>,
    target_bytes: int,
    order: Seq<int>,
) -> bool {
    &&& forall|k: int| 0 <= k < order.len() ==> 0 <= #[trigger] order[k] < candidates.len()
    &&& order.no_duplicates()
    &&& forall|k: int|
        0 <= k < order.len() ==> candidates[#[trigger] order[k]].age() > 0
    &&& forall|k: int, j: int|
        0 <= k < order.len() && 0 <= j < candidates.len() && !evicted_before(order, k).contains(j)
            ==> (#[trigger] candidates[j]).age() <= candidates[#[trigger] order[k]].age()
    &&& forall|k: int|
        0 <= k < order.len() ==> kept_size(candidates, #[trigger] evicted_before(order, k))
            > target_bytes
}

/// Whether `order` is a complete run of the engine for `target_bytes`: every step is one it
/// may make, and the steps end when the store is within budget or every surviving entry is
/// still leased.
pub open spec fn is_eviction_order(
    candidates: Seq<Candidate>,
    target_bytes: int,
    order: Seq<int>,
) -> bool {
    &&& is_eviction_prefix(candidates, target_bytes, order)
    &&& {
        ||| kept_size(candidates, order.to_set()) <= target_bytes
        ||| forall|j: int|
            0 <= j < candidates.len() && !order.contains(j) ==> (
            #[trigger] candidates[j]).age() == 0
    }
}

/// The positions of a plan's victims as mathematical integers.
pub open spec fn positions(victims: Seq<usize>) -> Seq<int> {
    victims.map_values(|i: usize| i as int)
}

/// What the heap holds while the engine runs: one item for each candidate below `upto` that
/// is not in `gone`, keyed by the time since its lease ran out.
spec fn heap_holds(
    items: vstd::multiset::Multiset<HeapItem>,
    candidates: Seq<Candidate>,
    gone: Set<int>,
    upto: int,
) -> bool {
    forall|item: HeapItem| #[trigger]
        items.count(item) == if 0 <= item.index < upto && !gone.contains(item.index as int)
            && item.key == candidates[item.index as int].age() {
            1nat
        } else {
            0nat
        }
}

/// Survivors never use a negative number of bytes, and no more than all the candidates do.
pub proof fn lemma_kept_size_bounds(candidates: Seq<Candidate>, evicted: Set<int>)
    ensures
        0 <= kept_size(candidates, evicted) <= total_size(candidates),
    decreases candidates.len(),
{
    if candidates.len() > 0 {
        lemma_kept_size_bounds(candidates.drop_last(), evicted);
    }
}

/// A prefix of the candidates uses no more bytes than all of them.
proof fn lemma_total_size_prefix(candidates: Seq<Candidate>, i: int)
    requires
        0 <= i <= candidates.len(),
    ensures
        0 <= total_size(candidates.take(i)) <= total_size(candidates),
        i < candidates.len() ==> total_size(candidates.take(i + 1)) == total_size(
            candidates.take(i),
        ) + candidates[i].aged.size_bytes,
    decreases candidates.len() - i,
{
    lemma_kept_size_bounds(candidates.take(i), Set::empty());
    if i < candidates.len() {
        lemma_total_size_prefix(candidates, i + 1);
        assert(candidates.take(i + 1).drop_last() =~= candidates.take(i));
    } else {
        assert(candidates.take(i) =~= candidates);
    }
}

/// Evicting one more entry frees exactly its size.
pub proof fn lemma_kept_size_evict(candidates: Seq<Candidate>, evicted: Set<int>, j: int)
    requires
        0 <= j < candidates.len(),
        !evicted.contains(j),
    ensures
        kept_size(candidates, evicted.insert(j)) == kept_size(candidates, evicted)
            - candidates[j].aged.size_bytes,
    decreases candidates.len(),
{
    let last = candidates.len() - 1;
    if j == last {
        lemma_kept_size_outside(candidates.drop_last(), evicted, j);
    } else {
        lemma_kept_size_evict(candidates.drop_last(), evicted, j);
    }
}

/// A position beyond the candidates does not change what the survivors use.
proof fn lemma_kept_size_outside(candidates: Seq<Candidate>, evicted: Set<int>, j: int)
    requires
        j >= candidates.len(),
    ensures
        kept_size(candidates, evicted.insert(j)) == kept_size(candidates, evicted),
    decreases candidates.len(),
{
    if candidates.len() > 0 {
        lemma_kept_size_outside(candidates.drop_last(), evicted, j);
    }
}

/// Once every entry is evicted, nothing is used.
proof fn lemma_kept_size_none_left(candidates: Seq<Candidate>, evicted: Set<int>)
    requires
        forall|j: int| 0 <= j < candidates.len() ==> evicted.contains(j),
    ensures
        kept_size(candidates, evicted) == 0,
    decreases candidates.len(),
{
    if candidates.len() > 0 {
        lemma_kept_size_none_left(candidates.drop_last(), evicted);
    }
}

/// One more eviction, of the most expired entry still there, extends a run of the engine.
proof fn lemma_eviction_step(
    candidates: Seq<Candidate>,
    target_bytes: int,
    order: Seq<int>,
    next: int,
)
    requires
        is_eviction_prefix(candidates, target_bytes, order),
        0 <= next < candidates.len(),
        !order.contains(next),
        candidates[next].age() > 0,
        forall|j: int|
            0 <= j < candidates.len() && !order.contains(j) ==> (
            #[trigger] candidates[j]).age()
                <= candidates[next].age(),
        kept_size(candidates, order.to_set()) > target_bytes,
    ensures
        is_eviction_prefix(candidates, target_bytes, order.push(next)),
        order.push(next).to_set() == order.to_set().insert(next),
        kept_size(candidates, order.push(next).to_set()) == kept_size(candidates, order.to_set())
            - candidates[next].aged.size_bytes,
{
    let longer = order.push(next);
    let n = order.len() as int;
    assert(longer.take(n) =~= order);
    assert(order.take(n) =~= order);
    assert forall|k: int| 0 <= k < n implies #[trigger] longer.take(k) == order.take(k) by {
        assert(longer.take(k) =~= order.take(k));
    }
    assert(longer.to_set() =~= order.to_set().insert(next)) by {
        assert forall|x: int| longer.to_set().contains(x) <==> order.to_set().insert(
            next,
        ).contains(x) by {
            if longer.contains(x) {
                let i = choose|i: int| 0 <= i < longer.len() && longer[i] == x;
                if i < n {
                    assert(order[i] == x);
                }
            }
            if order.contains(x) {
                let i = choose|i: int| 0 <= i < order.len() && order[i] == x;
                assert(longer[i] == x);
            }
            if x == next {
                assert(longer[n] == x);
            }
        }
    }
    assert(!order.to_set().contains(next));
    lemma_kept_size_evict(candidates, order.to_set(), next);
    assert forall|k: int, j: int|
        0 <= k < longer.len() && 0 <= j < candidates.len() && !evicted_before(longer, k).contains(
            j,
        ) implies (#[trigger] candidates[j]).age() <= candidates[#[trigger] longer[k]].age() by {
        if k < n {
            assert(evicted_before(longer, k) == evicted_before(order, k));
            assert(longer[k] == order[k]);
        } else {
            assert(evicted_before(longer, k) == order.to_set());
        }
    }
    assert forall|k: int| 0 <= k < longer.len() implies kept_size(
        candidates,
        #[trigger] evicted_before(longer, k),
    ) > target_bytes by {
        if k < n {
            assert(evicted_before(longer, k) == evicted_before(order, k));
        } else {
            assert(evicted_before(longer, k) == order.to_set());
        }
    }
    assert forall|k: int| 0 <= k < longer.len() implies candidates[#[trigger] longer[k]].age()
        > 0 by {
        if k < n {
            assert(longer[k] == order[k]);
        }
    }
}

/// Most expired first: in a run of the engine no victim's lease ran out earlier than that
/// of a victim evicted before it, and no survivor's lease ran out earlier than a victim's.
pub proof fn lemma_most_expired_first(
    candidates: Seq<Candidate>,
    target_bytes: int,
    order: Seq<int>,
)
    requires
        is_eviction_prefix(candidates, target_bytes, order),
    ensures
        forall|earlier: int, later: int|
            0 <= earlier < later < order.len() ==> candidates[#[trigger] order[earlier]].age()
                >= candidates[#[trigger] order[later]].age(),
        forall|k: int, j: int|
            0 <= k < order.len() && 0 <= j < candidates.len() && !order.contains(j)
                ==> (#[trigger] candidates[j]).age() <= candidates[#[trigger] order[k]].age(),
{
    assert forall|earlier: int, later: int|
        0 <= earlier < later < order.len() implies candidates[#[trigger] order[earlier]].age()
        >= candidates[#[trigger] order[later]].age() by {
        let j = order[later];
        if evicted_before(order, earlier).contains(j) {
            let gone = order.take(earlier);
            let i = choose|i: int| 0 <= i < gone.len() && gone[i] == j;
            assert(order[i] == j);
        }
        let _ = candidates[j];
    }
    assert forall|k: int, j: int|
        0 <= k < order.len() && 0 <= j < candidates.len() && !order.contains(j) implies (
    #[trigger] candidates[j]).age() <= candidates[#[trigger] order[k]].age() by {
        if evicted_before(order, k).contains(j) {
            let i = choose|i: int| 0 <= i < order.take(k).len() && order.take(k)[i] == j;
            assert(order[i] == j);
        }
    }
}

/// What a run of the engine leaves: the store is within the target, or every entry that is
/// left is still leased; and no entry that is still leased was evicted.
pub proof fn lemma_shrink_outcome(candidates: Seq<Candidate>, target_bytes: int, order: Seq<int>)
    requires
        is_eviction_order(candidates, target_bytes, order),
    ensures
        kept_size(candidates, order.to_set()) <= target_bytes || forall|j: int|
            0 <= j < candidates.len() && !order.contains(j) ==> !(
            #[trigger] candidates[j]).aged.spec_is_expired(),
        forall|k: int|
            0 <= k < order.len() ==> candidates[#[trigger] order[k]].aged.spec_is_expired(),
        0 <= kept_size(candidates, order.to_set()) <= total_size(candidates),
        order.len() > 0 ==> total_size(candidates) > target_bytes,
{
    lemma_kept_size_bounds(candidates, order.to_set());
    if order.len() > 0 {
        assert(order.take(0) =~= Seq::empty());
        assert(evicted_before(order, 0) =~= Set::empty());
    }
}

/// The victims of one run of the eviction engine, and what the store uses once they are gone.
#[derive(Debug)]
pub struct EvictionPlan {
    /// The positions, in the list of candidates, of the entries to remove, in the order in
    /// which to remove them.
    pub victims: Vec<usize>,
    /// The bytes that the surviving candidates use.
    pub used_bytes: u64,
}

/// The bytes that the candidates use; `None` if the sum does not fit.
pub fn used_bytes(candidates: &Vec<Candidate>) -> (total: Option<u64>)
    ensures
        match total {
            Some(bytes) => bytes == total_size(candidates@),
            None => total_size(candidates@) > u64::MAX,
        },
{
    let mut used: u64 = 0;
    let mut i: usize = 0;
    while i < candidates.len()
        invariant
            i <= candidates@.len(),
            used == total_size(candidates@.take(i as int)),
        decreases candidates@.len() - i,
    {
        proof {
            lemma_total_size_prefix(candidates@, i as int);
            lemma_total_size_prefix(candidates@, i as int + 1);
        }
        match used.checked_add(candidates[i].aged.size_bytes) {
            Some(sum) => {
                used = sum;
            },
            None => {
                return None;
            },
        }
        i += 1;
    }
    assert(candidates@.take(i as int) =~= candidates@);
    Some(used)
}

/// Runs the eviction engine on paper: picks the entries to remove so that the store uses at
/// most `target_bytes`, most expired first, and stops at the first entry that is still
/// leased.
pub fn plan_eviction(candidates: &Vec<Candidate>, target_bytes: u64) -> (plan: EvictionPlan)
    requires
        total_size(candidates@) <= u64::MAX,
    ensures
        is_eviction_order(candidates@, target_bytes as int, positions(plan.victims@)),
        plan.used_bytes == kept_size(candidates@, positions(plan.victims@).to_set()),
{
    broadcast use vstd::multiset::group_multiset_axioms;

    let n: usize = candidates.len();
    let mut heap = ExpiryHeap::new();
    let mut used: u64 = 0;
    let mut i: usize = 0;
    while i < n
        invariant
            n == candidates@.len(),
            i <= n,
            heap.well_formed(),
            heap_holds(heap.items(), candidates@, Set::empty(), i as int),
            used == total_size(candidates@.take(i as int)),
            total_size(candidates@) <= u64::MAX,
        decreases n - i,
    {
        proof {
            lemma_total_size_prefix(candidates@, i as int);
            lemma_total_size_prefix(candidates@, i as int + 1);
        }
        let aged = candidates[i].aged;
        heap.push(HeapItem { key: aged.expired_seconds_ago, index: i });
        used = used + aged.size_bytes;
        i += 1;
    }
    assert(candidates@.take(n as int) =~= candidates@);
    let mut victims: Vec<usize> = Vec::new();
    let ghost mut order: Seq<int> = Seq::empty();
    proof {
        assert(positions(victims@) =~= order);
        assert(order.to_set() =~= Set::empty());
    }
    loop
        invariant
            n == candidates@.len(),
            heap.well_formed(),
            heap_holds(heap.items(), candidates@, order.to_set(), n as int),
            order == positions(victims@),
            used == kept_size(candidates@, order.to_set()),
            is_eviction_prefix(candidates@, target_bytes as int, order),
        decreases heap.spec_len(),
    {
        if used <= target_bytes {
            return EvictionPlan { victims, used_bytes: used };
        }
        let ghost before = heap.items();
        proof {
            heap.lemma_len();
        }
        let max = match heap.pop() {
            Some(item) => item,
            None => {
                proof {
                    assert forall|j: int| 0 <= j < n implies order.to_set().contains(j) by {
                        let item = HeapItem {
                            key: candidates@[j].age(),
                            index: j as usize,
                        };
                        assert(before.count(item) == 0);
                    }
                    lemma_kept_size_none_left(candidates@, order.to_set());
                    assert(false);
                }
                return EvictionPlan { victims, used_bytes: used };
            },
        };
        assert(before.count(max) == 1);
        let next: usize = max.index;
        assert forall|j: int| 0 <= j < n && !order.contains(j) implies (
        #[trigger] candidates@[j]).age() <= max.key by {
            let item = HeapItem { key: candidates@[j].age(), index: j as usize };
            assert(before.count(item) == 1);
        }
        if max.key == 0 {
            return EvictionPlan { victims, used_bytes: used };
        }
        proof {
            lemma_eviction_step(candidates@, target_bytes as int, order, next as int);
            lemma_kept_size_bounds(candidates@, order.push(next as int).to_set());
            assert(positions(victims@.push(next)) =~= order.push(next as int));
        }
        victims.push(next);
        used = used - candidates[next].aged.size_bytes;
        proof {
            order = order.push(next as int);
        }
    }
}

} // verus!
