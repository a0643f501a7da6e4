use local_store::entry::AgedFingerprint;
use local_store::entry::EntryType;
use local_store::eviction::plan_eviction;
use local_store::eviction::used_bytes;
use local_store::eviction::Candidate;
use local_store::fingerprint::Fingerprint;
use local_store::heap::ExpiryHeap;
use local_store::heap::HeapItem;

fn candidate(id: u8, size_bytes: u64, expired_seconds_ago: u64) -> Candidate {
    Candidate {
        aged: AgedFingerprint {
            expired_seconds_ago,
            fingerprint: Fingerprint([id; 32]),
            size_bytes,
        },
        entry_type: EntryType::File,
    }
}

#[test]
fn heap_pops_largest_key_first() {
    let mut heap = ExpiryHeap::new();
    let keys: [u64; 9] = [5, 1, 9, 3, 7, 9, 0, 2, 8];
    for (index, key) in keys.iter().enumerate() {
        heap.push(HeapItem { key: *key, index });
    }
    assert_eq!(heap.len(), 9);
    let mut popped = Vec::new();
    let mut indices = Vec::new();
    while let Some(item) = heap.pop() {
        assert_eq!(keys[item.index], item.key);
        popped.push(item.key);
        indices.push(item.index);
    }
    assert_eq!(popped, vec![9, 9, 8, 7, 5, 3, 2, 1, 0]);
    indices.sort();
    assert_eq!(indices, vec![0, 1, 2, 3, 4, 5, 6, 7, 8]);
    assert_eq!(heap.len(), 0);
    assert_eq!(heap.pop(), None);
}

#[test]
fn heap_of_one_item() {
    let mut heap = ExpiryHeap::new();
    assert_eq!(heap.pop(), None);
    heap.push(HeapItem { key: 4, index: 0 });
    assert_eq!(heap.pop(), Some(HeapItem { key: 4, index: 0 }));
    assert_eq!(heap.pop(), None);
}

#[test]
fn heap_interleaves_push_and_pop() {
    let mut heap = ExpiryHeap::new();
    heap.push(HeapItem { key: 2, index: 0 });
    heap.push(HeapItem { key: 6, index: 1 });
    assert_eq!(heap.pop().unwrap().key, 6);
    heap.push(HeapItem { key: 4, index: 2 });
    heap.push(HeapItem { key: 1, index: 3 });
    assert_eq!(heap.pop().unwrap().key, 4);
    assert_eq!(heap.pop().unwrap().key, 2);
    assert_eq!(heap.pop().unwrap().key, 1);
    assert_eq!(heap.pop(), None);
}

#[test]
fn used_bytes_adds_up_sizes() {
    assert_eq!(used_bytes(&Vec::new()), Some(0));
    let candidates = vec![candidate(1, 10, 0), candidate(2, 20, 5), candidate(3, 12, 1)];
    assert_eq!(used_bytes(&candidates), Some(42));
}

#[test]
fn used_bytes_reports_overflow() {
    let candidates = vec![candidate(1, u64::MAX, 0), candidate(2, 1, 5)];
    assert_eq!(used_bytes(&candidates), None);
    let fits = vec![candidate(1, u64::MAX - 1, 0), candidate(2, 1, 5)];
    assert_eq!(used_bytes(&fits), Some(u64::MAX));
}

#[test]
fn eviction_takes_most_expired_first() {
    let candidates = vec![
        candidate(1, 10, 5),
        candidate(2, 20, 50),
        candidate(3, 30, 0),
        candidate(4, 40, 500),
    ];
    let plan = plan_eviction(&candidates, 35);
    assert_eq!(plan.victims, vec![3, 1, 0]);
    assert_eq!(plan.used_bytes, 30);
}

#[test]
fn eviction_stops_as_soon_as_within_target() {
    let candidates = vec![
        candidate(1, 10, 5),
        candidate(2, 20, 50),
        candidate(3, 30, 7),
        candidate(4, 40, 500),
    ];
    let plan = plan_eviction(&candidates, 60);
    assert_eq!(plan.victims, vec![3]);
    assert_eq!(plan.used_bytes, 60);
    let plan = plan_eviction(&candidates, 59);
    assert_eq!(plan.victims, vec![3, 1]);
    assert_eq!(plan.used_bytes, 40);
}

#[test]
fn eviction_does_nothing_within_target() {
    let candidates = vec![candidate(1, 10, 5), candidate(2, 20, 50)];
    let plan = plan_eviction(&candidates, 30);
    assert_eq!(plan.victims, Vec::<usize>::new());
    assert_eq!(plan.used_bytes, 30);
    let plan = plan_eviction(&Vec::new(), 0);
    assert_eq!(plan.victims, Vec::<usize>::new());
    assert_eq!(plan.used_bytes, 0);
}

#[test]
fn eviction_halt() {
    // Two blobs stored 10 ms ago with a lease of an hour: both are leased.
    let leased = vec![candidate(1, 524_288, 0), candidate(2, 524_288, 0)];
    let plan = plan_eviction(&leased, 0);
    assert_eq!(plan.victims, Vec::<usize>::new());
    assert_eq!(plan.used_bytes, 1_048_576);
    // More than an hour later both leases are over.
    let expired = vec![candidate(1, 524_288, 1), candidate(2, 524_288, 1)];
    let plan = plan_eviction(&expired, 0);
    let mut victims = plan.victims.clone();
    victims.sort();
    assert_eq!(victims, vec![0, 1]);
    assert_eq!(plan.used_bytes, 0);
}

#[test]
fn eviction_halts_at_the_lease_wall() {
    let candidates = vec![
        candidate(1, 100, 0),
        candidate(2, 20, 50),
        candidate(3, 300, 0),
        candidate(4, 40, 9),
    ];
    let plan = plan_eviction(&candidates, 10);
    assert_eq!(plan.victims, vec![1, 3]);
    assert_eq!(plan.used_bytes, 400);
}

#[test]
fn eviction_with_equal_ages_evicts_enough() {
    let candidates = vec![candidate(1, 10, 3), candidate(2, 10, 3), candidate(3, 10, 3)];
    let plan = plan_eviction(&candidates, 15);
    assert_eq!(plan.victims.len(), 2);
    assert_ne!(plan.victims[0], plan.victims[1]);
    assert_eq!(plan.used_bytes, 10);
}

#[test]
fn eviction_counts_entries_of_no_size() {
    let candidates = vec![candidate(1, 0, 9), candidate(2, 5, 3)];
    let plan = plan_eviction(&candidates, 4);
    assert_eq!(plan.victims, vec![0, 1]);
    assert_eq!(plan.used_bytes, 0);
}

#[test]
fn eviction_of_many_entries_is_ordered() {
    let mut candidates = Vec::new();
    for i in 0..200u64 {
        candidates.push(candidate((i % 251) as u8, 1 + i % 7, (i * 37) % 101));
    }
    let total: u64 = candidates.iter().map(|c| c.aged.size_bytes).sum();
    let plan = plan_eviction(&candidates, total / 3);
    let mut freed = 0;
    let mut last = u64::MAX;
    for victim in plan.victims.iter() {
        assert!(total - freed > total / 3);
        let aged = candidates[*victim].aged;
        assert!(aged.expired_seconds_ago > 0);
        assert!(aged.expired_seconds_ago <= last);
        last = aged.expired_seconds_ago;
        freed += aged.size_bytes;
    }
    assert_eq!(plan.used_bytes, total - freed);
    assert!(plan.used_bytes <= total / 3);
    for (i, c) in candidates.iter().enumerate() {
        if !plan.victims.contains(&i) {
            assert!(c.aged.expired_seconds_ago <= last);
        }
    }
}
