//! A binary max-heap of eviction candidates, keyed by how long ago each one's lease ran out.

use vstd::multiset::Multiset;
use vstd::prelude::*;

verus! {

/// One candidate in the heap: the position of an entry in the list the heap was built from,
/// and the key by which the heap orders it.
#[derive(Clone, Copy, Debug, PartialEq, Eq, Structural)]
pub struct HeapItem {
    pub key: u64,
    pub index: usize,
}

/// A max-heap over `HeapItem`s: `pop` hands out an item whose key no other item exceeds.
pub struct ExpiryHeap {
    slots: Vec<HeapItem>,
}

/// The slot above `i` in the implicit binary tree.
spec fn parent(i: int) -> int {
    (i - 1) / 2
}

/// Every slot but `hole` is no larger than the slot above it.
#[verifier::opaque]
spec fn ordered_except(s: Seq<HeapItem>, hole: int) -> bool {
    forall|i: int| 0 < i < s.len() && i != hole ==> s[parent(i)].key >= (#[trigger] s[i]).key
}

/// The slots below `hole` are no larger than the slot above it.
#[verifier::opaque]
spec fn bridged(s: Seq<HeapItem>, hole: int) -> bool {
    forall|i: int|
        0 < i < s.len() && parent(i) == hole && hole > 0 ==> s[parent(hole)].key >= (
        #[trigger] s[i]).key
}

/// Every slot whose slot above is not `hole` is no larger than that slot.
#[verifier::opaque]
spec fn ordered_below_except(s: Seq<HeapItem>, hole: int) -> bool {
    forall|i: int|
        0 < i < s.len() && parent(i) != hole ==> s[parent(i)].key >= (#[trigger] s[i]).key
}

/// Every slot is no larger than the slot above it.
spec fn heap_ordered(s: Seq<HeapItem>) -> bool {
    ordered_except(s, 0)
}

/// In an ordered heap no key exceeds the key at the root.
proof fn lemma_root_is_max(s: Seq<HeapItem>, i: int)
    requires
        heap_ordered(s),
        0 <= i < s.len(),
    ensures
        s[0].key >= s[i].key,
    decreases i,
{
    reveal(ordered_except);
    if i > 0 {
        lemma_root_is_max(s, parent(i));
    }
}

/// Exchanging two slots keeps the items that the sequence holds.
proof fn lemma_swap_keeps_items(s: Seq<HeapItem>, i: int, j: int)
    requires
        0 <= i < s.len(),
        0 <= j < s.len(),
    ensures
        swapped(s, i, j).to_multiset() == s.to_multiset(),
{
    broadcast use vstd::multiset::group_multiset_axioms;

    let t = s.update(i, s[j]);
    vstd::seq_lib::to_multiset_update(s, i, s[j]);
    vstd::seq_lib::to_multiset_update(t, j, s[i]);
    vstd::seq_lib::to_multiset_contains(s, s[i]);
    vstd::seq_lib::to_multiset_contains(s, s[j]);
    assert(s.contains(s[i]));
    assert(s.contains(s[j]));
    assert(s.update(i, s[j]).update(j, s[i]).to_multiset() =~= s.to_multiset());
}

/// The sequence with the slots `i` and `j` exchanged.
spec fn swapped(s: Seq<HeapItem>, i: int, j: int) -> Seq<HeapItem> {
    s.update(i, s[j]).update(j, s[i])
}

/// Moving a hole up: where the slot at `hole` is larger than the slot above it, exchanging
/// the two leaves the slot above as the only one that may be out of order.
proof fn lemma_sift_up_step(s: Seq<HeapItem>, hole: int)
    requires
        0 < hole < s.len(),
        ordered_except(s, hole),
        bridged(s, hole),
        s[parent(hole)].key < s[hole].key,
    ensures
        ordered_except(swapped(s, parent(hole), hole), parent(hole)),
        bridged(swapped(s, parent(hole), hole), parent(hole)),
{
    reveal(ordered_except);
    reveal(bridged);
    let up = parent(hole);
    let after = swapped(s, up, hole);
    assert forall|i: int| 0 < i < after.len() && i != up implies after[parent(i)].key >= (
    #[trigger] after[i]).key by {
        let _ = s[i];
    }
    assert forall|i: int| 0 < i < after.len() && parent(i) == up && up > 0 implies after[parent(
        up,
    )].key >= (#[trigger] after[i]).key by {
        let _ = s[i];
        let _ = s[up];
    }
}

/// Moving a hole down: where the larger of the slots below `hole` is larger than the slot
/// at `hole`, exchanging the two leaves that slot below as the only one whose slots below
/// may be out of order.
proof fn lemma_sift_down_step(s: Seq<HeapItem>, hole: int, child: int)
    requires
        0 <= hole < child < s.len(),
        parent(child) == hole,
        ordered_below_except(s, hole),
        bridged(s, hole),
        s[hole].key < s[child].key,
        2 * hole + 1 < s.len() ==> s[2 * hole + 1].key <= s[child].key,
        2 * hole + 2 < s.len() ==> s[2 * hole + 2].key <= s[child].key,
    ensures
        ordered_below_except(swapped(s, hole, child), child),
        bridged(swapped(s, hole, child), child),
{
    reveal(ordered_below_except);
    reveal(bridged);
    let after = swapped(s, hole, child);
    assert forall|i: int| 0 < i < after.len() && parent(i) != child implies after[parent(i)].key
        >= (#[trigger] after[i]).key by {
        let _ = s[i];
    }
    assert forall|i: int|
        0 < i < after.len() && parent(i) == child && child > 0 implies after[parent(child)].key
        >= (#[trigger] after[i]).key by {
        let _ = s[i];
    }
}

/// A hole that is no smaller than the slots below it closes: the heap is ordered.
proof fn lemma_hole_settled(s: Seq<HeapItem>, hole: int)
    requires
        0 <= hole,
        ordered_below_except(s, hole),
        2 * hole + 1 < s.len() ==> s[2 * hole + 1].key <= s[hole].key,
        2 * hole + 2 < s.len() ==> s[2 * hole + 2].key <= s[hole].key,
    ensures
        heap_ordered(s),
{
    reveal(ordered_below_except);
    reveal(ordered_except);
    assert forall|i: int| 0 < i < s.len() implies s[parent(i)].key >= (#[trigger] s[i]).key by {
    }
}

/// A new last slot is the only one that may be out of order.
proof fn lemma_hole_at_end(s: Seq<HeapItem>, item: HeapItem)
    requires
        heap_ordered(s),
    ensures
        ordered_except(s.push(item), s.len() as int),
        bridged(s.push(item), s.len() as int),
{
    reveal(ordered_except);
    reveal(bridged);
    let longer = s.push(item);
    assert forall|i: int| 0 < i < longer.len() && i != s.len() implies longer[parent(i)].key >= (
    #[trigger] longer[i]).key by {
        let _ = s[i];
    }
}

/// A hole that is no larger than the slot above it closes: the heap is ordered.
proof fn lemma_hole_closed_above(s: Seq<HeapItem>, hole: int)
    requires
        0 <= hole < s.len(),
        ordered_except(s, hole),
        hole > 0 ==> s[parent(hole)].key >= s[hole].key,
    ensures
        heap_ordered(s),
{
    reveal(ordered_except);
}

/// With the last slot moved to the root, the root is the only slot whose slots below may be
/// out of order.
proof fn lemma_hole_at_root(s: Seq<HeapItem>)
    requires
        heap_ordered(s),
        s.len() >= 2,
    ensures
        ordered_below_except(s.drop_last().update(0, s.last()), 0),
        bridged(s.drop_last().update(0, s.last()), 0),
{
    reveal(ordered_except);
    reveal(ordered_below_except);
    reveal(bridged);
    let t = s.drop_last().update(0, s.last());
    assert forall|i: int| 0 < i < t.len() && parent(i) != 0 implies t[parent(i)].key >= (
    #[trigger] t[i]).key by {
        let _ = s[i];
    }
}

/// Dropping the only slot, or the last one, of an ordered heap leaves an ordered heap.
proof fn lemma_drop_last_ordered(s: Seq<HeapItem>)
    requires
        heap_ordered(s),
        s.len() >= 1,
    ensures
        heap_ordered(s.drop_last()),
{
    reveal(ordered_except);
    let t = s.drop_last();
    assert forall|i: int| 0 < i < t.len() implies t[parent(i)].key >= (#[trigger] t[i]).key by {
        let _ = s[i];
    }
}

impl ExpiryHeap {
    /// The items in the heap, in no particular order.
    pub closed spec fn items(&self) -> Multiset<HeapItem> {
        self.slots@.to_multiset()
    }

    /// The heap's invariant: no slot is larger than the slot above it.
    pub closed spec fn well_formed(&self) -> bool {
        heap_ordered(self.slots@)
    }

    /// The number of items in the heap.
    pub closed spec fn spec_len(&self) -> nat {
        self.slots@.len()
    }

    /// The number of items, counted in the multiset, is the number of slots.
    pub proof fn lemma_len(&self)
        ensures
            self.items().len() == self.spec_len(),
    {
        vstd::seq_lib::to_multiset_len(self.slots@);
    }

    /// An empty heap.
    pub fn new() -> (heap: ExpiryHeap)
        ensures
            heap.well_formed(),
            heap.items() == Multiset::<HeapItem>::empty(),
            heap.spec_len() == 0,
    {
        let heap = ExpiryHeap { slots: Vec::new() };
        proof {
            broadcast use vstd::multiset::group_multiset_axioms;

            reveal(ordered_except);
            heap.slots@.to_multiset_ensures();
            vstd::seq_lib::to_multiset_len(heap.slots@);
            assert(heap.slots@.to_multiset() =~= Multiset::<HeapItem>::empty());
        }
        heap
    }

    /// Adds an item.
    pub fn push(&mut self, item: HeapItem)
        requires
            old(self).well_formed(),
        ensures
            final(self).well_formed(),
            final(self).items() == old(self).items().insert(item),
            final(self).spec_len() == old(self).spec_len() + 1,
    {
        self.slots.push(item);
        proof {
            vstd::seq_lib::to_multiset_build(old(self).slots@, item);
            lemma_hole_at_end(old(self).slots@, item);
        }
        let mut pos: usize = self.slots.len() - 1;
        while pos > 0 && self.slots[(pos - 1) / 2].key < self.slots[pos].key
            invariant
                pos < self.slots@.len(),
                self.slots@.len() == old(self).slots@.len() + 1,
                ordered_except(self.slots@, pos as int),
                bridged(self.slots@, pos as int),
                self.slots@.to_multiset() == old(self).slots@.to_multiset().insert(item),
            decreases pos,
        {
            let up: usize = (pos - 1) / 2;
            let ghost before = self.slots@;
            let above = self.slots[up];
            let below = self.slots[pos];
            self.slots.set(up, below);
            self.slots.set(pos, above);
            proof {
                lemma_swap_keeps_items(before, up as int, pos as int);
                lemma_sift_up_step(before, pos as int);
                assert(self.slots@ =~= swapped(before, up as int, pos as int));
            }
            pos = up;
        }
        proof {
            lemma_hole_closed_above(self.slots@, pos as int);
        }
    }

    /// Moves the root down until it is no smaller than the slots below it.
    fn sift_down(&mut self, Ghost(items): Ghost<Multiset<HeapItem>>)
        requires
            old(self).slots@.len() > 0,
            ordered_below_except(old(self).slots@, 0),
            bridged(old(self).slots@, 0),
            old(self).slots@.to_multiset() == items,
        ensures
            heap_ordered(final(self).slots@),
            final(self).slots@.to_multiset() == items,
            final(self).slots@.len() == old(self).slots@.len(),
    {
        let len: usize = self.slots.len();
        let mut pos: usize = 0;
        let mut settled: bool = false;
        while !settled && pos < len / 2
            invariant
                len == self.slots@.len(),
                pos < len,
                ordered_below_except(self.slots@, pos as int),
                bridged(self.slots@, pos as int),
                settled ==> heap_ordered(self.slots@),
                self.slots@.to_multiset() == items,
            decreases len - pos, if settled { 0int } else { 1int },
        {
            let left: usize = 2 * pos + 1;
            let right: usize = left + 1;
            let mut child: usize = left;
            if right < len && self.slots[right].key > self.slots[left].key {
                child = right;
            }
            if self.slots[pos].key >= self.slots[child].key {
                settled = true;
                proof {
                    lemma_hole_settled(self.slots@, pos as int);
                }
            } else {
                let ghost before = self.slots@;
                let above = self.slots[pos];
                let below = self.slots[child];
                self.slots.set(pos, below);
                self.slots.set(child, above);
                proof {
                    lemma_swap_keeps_items(before, pos as int, child as int);
                    lemma_sift_down_step(before, pos as int, child as int);
                    assert(self.slots@ =~= swapped(before, pos as int, child as int));
                }
                pos = child;
            }
        }
        proof {
            if !settled {
                lemma_hole_settled(self.slots@, pos as int);
            }
        }
    }

    /// Takes out an item whose key no other item in the heap exceeds; `None` if the heap is
    /// empty.
    pub fn pop(&mut self) -> (top: Option<HeapItem>)
        requires
            old(self).well_formed(),
        ensures
            final(self).well_formed(),
            match top {
                None => old(self).spec_len() == 0 && final(self).items() == old(self).items(),
                Some(max) => {
                    &&& old(self).items().count(max) > 0
                    &&& final(self).items() == old(self).items().remove(max)
                    &&& final(self).spec_len() == old(self).spec_len() - 1
                    &&& forall|other: HeapItem|
                        old(self).items().count(other) > 0 ==> other.key <= max.key
                },
            },
    {
        let n: usize = self.slots.len();
        if n == 0 {
            return None;
        }
        let ghost full = self.slots@;
        let max = self.slots[0];
        proof {
            assert forall|other: HeapItem| full.to_multiset().count(other) > 0 implies other.key
                <= max.key by {
                vstd::seq_lib::to_multiset_contains(full, other);
                let i = choose|i: int| 0 <= i < full.len() && full[i] == other;
                lemma_root_is_max(full, i);
            }
            vstd::seq_lib::to_multiset_contains(full, max);
            assert(full.contains(max));
        }
        let last = match self.slots.pop() {
            Some(item) => item,
            None => max,
        };
        proof {
            assert(self.slots@ =~= full.remove(n - 1));
            vstd::seq_lib::to_multiset_remove(full, n - 1);
            lemma_drop_last_ordered(full);
        }
        if n == 1 {
            return Some(max);
        }
        let ghost rest = self.slots@;
        self.slots.set(0, last);
        proof {
            broadcast use vstd::multiset::group_multiset_axioms;

            vstd::seq_lib::to_multiset_update(rest, 0, last);
            vstd::seq_lib::to_multiset_contains(full, last);
            assert(full.contains(last));
            assert(self.slots@.to_multiset() =~= full.to_multiset().remove(max));
            lemma_hole_at_root(full);
            assert(self.slots@ =~= full.drop_last().update(0, full.last()));
        }
        self.sift_down(Ghost(full.to_multiset().remove(max)));
        Some(max)
    }

    /// The number of items in the heap.
    pub fn len(&self) -> (n: usize)
        ensures
            n == self.spec_len(),
    {
        self.slots.len()
    }
}

} // verus!
