use glex::return_queue::ReturnQueue;

#[test]
fn push_and_drain() {
    let mut q = ReturnQueue::new();
    q.push(1u32);
    q.push(2);
    q.push(3);

    let items: Vec<_> = q.drain().collect();
    assert_eq!(items, vec![3, 2, 1]);

    assert!(q.is_empty());
    assert_eq!(q.drain().count(), 0);
}

#[test]
fn drain_partial_then_drop() {
    let mut q = ReturnQueue::new();
    q.push(1u32);
    q.push(2);
    q.push(3);

    let mut drain = q.drain();
    drain.next();
    drop(drain);

    assert!(q.is_empty());
}

#[test]
fn drop_cleans_up_heap_values() {
    let mut q = ReturnQueue::new();
    q.push(Box::new(42));
    q.push(Box::new(43));
    drop(q);
}

#[test]
fn interleaved_push_drain() {
    let mut q = ReturnQueue::new();
    q.push(1u32);
    q.push(2);

    let batch1: Vec<_> = q.drain().collect();
    assert_eq!(batch1.len(), 2);

    q.push(3);
    let batch2: Vec<_> = q.drain().collect();
    assert_eq!(batch2, vec![3]);

    assert!(q.is_empty());
}

#[test]
fn drain_hands_out_newest_first_one_by_one() {
    let mut q = ReturnQueue::default();
    q.push('a');
    q.push('b');
    let mut d = q.drain();
    assert_eq!(d.next(), Some('b'));
    assert_eq!(d.next(), Some('a'));
    assert_eq!(d.next(), None);
    assert_eq!(d.next(), None);
}
