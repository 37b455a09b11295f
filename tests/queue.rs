use mpsc_queue::{get_val, make_node, LockFreeQueue, PushTicket, ReferenceQueue};

/// A small deterministic pseudo-random sequence for choosing interleavings.
struct Lcg(u64);

impl Lcg {
    fn next(&mut self, bound: usize) -> usize {
        self.0 = self.0.wrapping_mul(6364136223846793005).wrapping_add(1442695040888963407);
        ((self.0 >> 33) as usize) % bound
    }
}

#[test]
fn node_keeps_its_payload() {
    let node = make_node(-17);
    assert_eq!(get_val(node), -17);
}

#[test]
fn single_element_round_trip_reference() {
    let mut q = ReferenceQueue::new();
    q.push(42);
    assert_eq!(q.pop(), Some(42));
    assert_eq!(q.pop(), None);
}

#[test]
fn single_element_round_trip_lock_free() {
    let mut q = LockFreeQueue::new();
    q.push(42);
    assert_eq!(q.pop(), Some(42));
    assert_eq!(q.pop(), None);
}

#[test]
fn fifo_order_reference() {
    let mut q = ReferenceQueue::new();
    for i in 0..100 {
        q.push(i * 3 - 50);
    }
    for i in 0..100 {
        assert_eq!(q.pop(), Some(i * 3 - 50));
    }
    assert_eq!(q.pop(), None);
}

#[test]
fn fifo_order_lock_free() {
    let mut q = LockFreeQueue::new();
    for i in 0..100 {
        q.push(i);
    }
    for i in 0..100 {
        assert_eq!(q.pop(), Some(i));
    }
    assert_eq!(q.pop(), None);
}

#[test]
fn drained_queues_stay_empty_until_next_push() {
    let mut r = ReferenceQueue::new();
    let mut l = LockFreeQueue::new();
    for round in 0..3 {
        for i in 1..=5 {
            r.push(10 * round + i);
            l.push(10 * round + i);
        }
        for i in 1..=5 {
            assert_eq!(r.pop(), Some(10 * round + i));
            assert_eq!(l.pop(), Some(10 * round + i));
        }
        for _ in 0..4 {
            assert_eq!(r.pop(), None);
            assert_eq!(l.pop(), None);
        }
    }
    r.push(99);
    l.push(99);
    assert_eq!(r.pop(), Some(99));
    assert_eq!(l.pop(), Some(99));
}

#[test]
fn pop_reports_empty_while_first_push_in_flight() {
    let mut q = LockFreeQueue::new();
    let t = q.begin_push(7);
    assert_eq!(q.pop(), None);
    q.finish_push(t);
    assert_eq!(q.pop(), Some(7));
    assert_eq!(q.pop(), None);
}

#[test]
fn race_window_consumer_takes_last_node_before_link() {
    // The consumer takes node 1 while node 2 has exchanged the tail but not
    // yet linked itself: the link of node 1 is marked awaited, and the push
    // then hands node 2 over through the head.
    let mut q = LockFreeQueue::new();
    q.push(1);
    let t = q.begin_push(2);
    assert_eq!(q.pop(), Some(1));
    assert_eq!(q.pop(), None);
    q.finish_push(t);
    assert_eq!(q.pop(), Some(2));
    assert_eq!(q.pop(), None);
    q.push(3);
    assert_eq!(q.pop(), Some(3));
    assert_eq!(q.pop(), None);
}

#[test]
fn race_window_link_attached_before_pop() {
    let mut q = LockFreeQueue::new();
    q.push(1);
    let t = q.begin_push(2);
    q.finish_push(t);
    assert_eq!(q.pop(), Some(1));
    assert_eq!(q.pop(), Some(2));
    assert_eq!(q.pop(), None);
}

#[test]
fn race_window_later_pushes_wait_behind_unlinked_one() {
    // Node 2 is in flight while nodes 3 and 4 complete: the consumer stops at
    // node 1 and picks the rest up, in order, once node 2 is attached.
    let mut q = LockFreeQueue::new();
    q.push(1);
    let t2 = q.begin_push(2);
    q.push(3);
    q.push(4);
    assert_eq!(q.pop(), Some(1));
    assert_eq!(q.pop(), None);
    assert_eq!(q.pop(), None);
    q.finish_push(t2);
    assert_eq!(q.pop(), Some(2));
    assert_eq!(q.pop(), Some(3));
    assert_eq!(q.pop(), Some(4));
    assert_eq!(q.pop(), None);
}

#[test]
fn no_lost_updates_with_eight_interleaved_producers() {
    let producers: i32 = 8;
    let per_producer: i32 = 1000;
    let mut q = LockFreeQueue::new();
    let mut next: Vec<i32> = vec![0; producers as usize];
    let mut pending: Vec<Option<PushTicket>> = (0..producers).map(|_| None).collect();
    let mut collected: Vec<i32> = Vec::new();
    let mut rng = Lcg(12345);
    let total = (producers * per_producer) as usize;
    while collected.len() < total {
        let p = rng.next(producers as usize + 1);
        if p == producers as usize {
            if let Some(v) = q.pop() {
                collected.push(v);
            }
            continue;
        }
        match pending[p].take() {
            Some(t) => q.finish_push(t),
            None => {
                if next[p] < per_producer {
                    let value = p as i32 * 10000 + next[p];
                    next[p] += 1;
                    pending[p] = Some(q.begin_push(value));
                } else if let Some(v) = q.pop() {
                    collected.push(v);
                }
            }
        }
    }
    let mut sorted = collected.clone();
    sorted.sort();
    sorted.dedup();
    assert_eq!(sorted.len(), total);
    let mut expected: Vec<i32> = Vec::new();
    for p in 0..producers {
        for i in 0..per_producer {
            expected.push(p * 10000 + i);
        }
    }
    assert_eq!(sorted, expected);
    // Each producer's values come out in the order it pushed them.
    for p in 0..producers {
        let mine: Vec<i32> = collected.iter().copied().filter(|v| v / 10000 == p).collect();
        let want: Vec<i32> = (0..per_producer).map(|i| p * 10000 + i).collect();
        assert_eq!(mine, want);
    }
    assert_eq!(q.pop(), None);
}

#[test]
fn lock_free_matches_reference_under_random_interleavings() {
    for seed in 0..20u64 {
        let mut rng = Lcg(seed);
        let mut lf = LockFreeQueue::new();
        let mut reference = ReferenceQueue::new();
        let mut pending: Vec<PushTicket> = Vec::new();
        let mut popped: Vec<i32> = Vec::new();
        let mut value: i32 = 0;
        for _ in 0..500 {
            match rng.next(3) {
                0 => {
                    // The tail exchange fixes the value's place in the order.
                    reference.push(value);
                    pending.push(lf.begin_push(value));
                    value += 1;
                }
                1 => {
                    if !pending.is_empty() {
                        let i = rng.next(pending.len());
                        let t = pending.swap_remove(i);
                        lf.finish_push(t);
                    }
                }
                _ => {
                    if let Some(v) = lf.pop() {
                        assert_eq!(reference.pop(), Some(v));
                        popped.push(v);
                    }
                }
            }
        }
        for t in pending.drain(..) {
            lf.finish_push(t);
        }
        while let Some(v) = lf.pop() {
            assert_eq!(reference.pop(), Some(v));
            popped.push(v);
        }
        assert_eq!(reference.pop(), None);
        let want: Vec<i32> = (0..value).collect();
        assert_eq!(popped, want);
    }
}
