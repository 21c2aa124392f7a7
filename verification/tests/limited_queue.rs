use sundries::limited_queue::LimitedQueue;

#[test]
fn new_with_default_prepopulates() {
    let q: LimitedQueue<3, i32> = LimitedQueue::new_with_default();
    assert_eq!(q.len(), 3);
    assert_eq!(*q.get(0), 0);
    assert_eq!(*q.get(1), 0);
    assert_eq!(*q.get(2), 0);
}

#[test]
fn push_front_never_grows_past_capacity() {
    let mut q: LimitedQueue<3, i32> = LimitedQueue::default();
    assert_eq!(q.len(), 0);
    q.push_front(1);
    q.push_front(2);
    q.push_front(3);
    assert_eq!(q.len(), 3);
    q.push_front(4);
    assert_eq!(q.len(), 3);
    assert_eq!((*q.get(0), *q.get(1), *q.get(2)), (4, 3, 2));
}

#[test]
fn push_front_drops_the_back_of_a_full_default_queue() {
    let mut q: LimitedQueue<2, u8> = LimitedQueue::new_with_default();
    q.push_front(9);
    assert_eq!(q.len(), 2);
    assert_eq!((*q.get(0), *q.get(1)), (9, 0));
}
