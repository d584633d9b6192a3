use libcommons::fetch::PrefetchQueue;

#[test]
fn queue_keeps_arrival_order() {
    let mut q: PrefetchQueue<i64> = PrefetchQueue::new(3);
    assert!(q.is_empty());
    assert_eq!(q.capacity(), 3);
    assert!(q.push_back(1).is_ok());
    assert!(q.push_back(2).is_ok());
    assert!(q.push_back(3).is_ok());
    assert!(q.is_full());
    assert_eq!(q.push_back(4), Err(4));
    assert_eq!(q.pop_front(), Some(1));
    assert_eq!(q.pop_front(), Some(2));
    assert!(q.push_back(5).is_ok());
    assert_eq!(q.pop_front(), Some(3));
    assert_eq!(q.pop_front(), Some(5));
    assert_eq!(q.pop_front(), None);
}

#[test]
fn queue_push_slice_takes_what_fits() {
    let mut q: PrefetchQueue<u8> = PrefetchQueue::new(4);
    assert_eq!(q.push_slice(b"ab"), 2);
    assert_eq!(q.push_slice(b"cdef"), 2);
    assert!(q.is_full());
    assert_eq!(q.push_slice(b"g"), 0);
    assert_eq!(q.pop_front(), Some(b'a'));
    assert_eq!(q.pop_front(), Some(b'b'));
    assert_eq!(q.pop_front(), Some(b'c'));
    assert_eq!(q.pop_front(), Some(b'd'));
    assert_eq!(q.pop_front(), None);
}

#[test]
fn queue_pop_into_moves_the_front() {
    let mut q: PrefetchQueue<u8> = PrefetchQueue::new(8);
    assert_eq!(q.push_slice(b"hello"), 5);
    let mut out = [b'.'; 3];
    assert_eq!(q.pop_into(&mut out), 3);
    assert_eq!(&out, b"hel");
    assert_eq!(q.len(), 2);
    let mut rest = [b'.'; 4];
    assert_eq!(q.pop_into(&mut rest), 2);
    assert_eq!(&rest, b"lo..");
    assert!(q.is_empty());
}
