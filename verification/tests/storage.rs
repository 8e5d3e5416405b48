use gli_rs::Pool;

#[test]
fn a_buffer_is_made_with_one_holder() {
    let mut pool = Pool::new();
    assert_eq!(pool.len(), 0);
    let id = pool.allocate(8).unwrap();
    assert_eq!(id, 0);
    assert_eq!(pool.len(), 1);
    assert_eq!(pool.holders(id), 1);
    assert_eq!(pool.size(id), Some(8));
    assert_eq!(pool.read(id, 0, 8).unwrap(), vec![0u8; 8]);
    let other = pool.adopt(vec![1, 2, 3]);
    assert_eq!(other, 1);
    assert_eq!(pool.read(other, 0, 3).unwrap(), vec![1, 2, 3]);
    assert_eq!(pool.holders(7), 0);
    assert_eq!(pool.size(7), None);
}

#[test]
fn holders_are_counted_and_the_last_frees() {
    let mut pool = Pool::new();
    let id = pool.adopt(vec![9, 8, 7, 6]);
    for n in 0..5 {
        assert!(pool.acquire(id));
        assert_eq!(pool.holders(id), n + 2);
    }
    for n in 0..5 {
        assert!(pool.release(id));
        assert_eq!(pool.holders(id), 5 - n);
        assert_eq!(pool.read(id, 0, 4).unwrap(), vec![9, 8, 7, 6]);
    }
    assert!(pool.release(id));
    assert_eq!(pool.holders(id), 0);
    assert_eq!(pool.size(id), None);
    assert!(pool.read(id, 0, 0).is_none());
    // A freed buffer is freed once: nothing more can be let go or taken.
    assert!(!pool.release(id));
    assert!(!pool.acquire(id));
    assert_eq!(pool.holders(id), 0);
    // Its number is not given out again.
    assert_eq!(pool.adopt(vec![1]), 1);
}

#[test]
fn other_buffers_are_left_alone() {
    let mut pool = Pool::new();
    let a = pool.adopt(vec![1, 1]);
    let b = pool.adopt(vec![2, 2]);
    assert!(pool.acquire(a));
    assert!(pool.release(a));
    assert!(pool.release(a));
    assert_eq!(pool.holders(a), 0);
    assert_eq!(pool.holders(b), 1);
    assert_eq!(pool.read(b, 0, 2).unwrap(), vec![2, 2]);
    assert!(!pool.acquire(2));
    assert!(!pool.release(2));
}

#[test]
fn spans_must_lie_inside() {
    let mut pool = Pool::new();
    let id = pool.adopt(vec![0, 1, 2, 3, 4, 5]);
    assert!(pool.holds(id, 0, 6));
    assert!(pool.holds(id, 6, 0));
    assert!(!pool.holds(id, 6, 1));
    assert!(!pool.holds(id, 7, 0));
    assert!(!pool.holds(id, 1, usize::MAX));
    assert!(!pool.holds(1, 0, 0));
    assert_eq!(pool.span(id, 2, 3).unwrap(), &[2, 3, 4]);
    assert!(pool.span(id, 4, 3).is_none());
    assert_eq!(pool.read(id, 5, 1).unwrap(), vec![5]);
    assert!(pool.read(id, 5, 2).is_none());
}

#[test]
fn fill_write_and_tile() {
    let mut pool = Pool::new();
    let id = pool.adopt(vec![0; 8]);
    assert!(pool.fill(id, 2, 3, 7));
    assert_eq!(pool.span(id, 0, 8).unwrap(), &[0, 0, 7, 7, 7, 0, 0, 0]);
    assert!(pool.write(id, 5, &[1, 2, 3]));
    assert_eq!(pool.span(id, 0, 8).unwrap(), &[0, 0, 7, 7, 7, 1, 2, 3]);
    assert!(pool.tile(id, 1, 6, &[8, 9]));
    assert_eq!(pool.span(id, 0, 8).unwrap(), &[0, 8, 9, 8, 9, 8, 9, 3]);
    assert!(pool.tile(id, 0, 5, &[4, 5, 6]));
    assert_eq!(pool.span(id, 0, 8).unwrap(), &[4, 5, 6, 4, 5, 8, 9, 3]);
    // What does not lie inside changes nothing.
    assert!(!pool.fill(id, 6, 3, 1));
    assert!(!pool.write(id, 7, &[1, 1]));
    assert!(!pool.tile(id, 0, 9, &[1]));
    assert!(!pool.tile(id, 0, 2, &[]));
    assert!(!pool.fill(3, 0, 0, 1));
    assert_eq!(pool.span(id, 0, 8).unwrap(), &[4, 5, 6, 4, 5, 8, 9, 3]);
    assert!(pool.write(id, 8, &[]));
}

#[test]
fn zeroed_bytes_are_zero() {
    let bytes = gli_rs::storage::zeroed(5).unwrap();
    assert_eq!(bytes, vec![0u8; 5]);
    assert_eq!(gli_rs::storage::zeroed(0).unwrap(), Vec::<u8>::new());
}

#[test]
fn a_buffer_without_bytes_is_always_made() {
    assert_eq!(gli_rs::storage::zeroed(0), Some(vec![]));
    let mut pool = Pool::new();
    assert_eq!(pool.allocate(0), Some(0));
    assert_eq!(pool.holders(0), 1);
    assert_eq!(pool.size(0), Some(0));
    assert_eq!(pool.allocate(3), Some(1));
    assert_eq!(pool.read(1, 0, 3).unwrap(), vec![0, 0, 0]);
}

#[test]
fn the_answer_to_a_request_for_memory_decides() {
    let mut had: Vec<u8> = Vec::new();
    let yes = had.try_reserve(4);
    assert!(yes.is_ok());
    assert_eq!(gli_rs::storage::filled(yes, had, 4), Some(vec![0, 0, 0, 0]));
    // What the bytes held before does not matter.
    let mut used: Vec<u8> = vec![7, 7, 7, 7, 7, 7];
    let yes = used.try_reserve(1);
    assert_eq!(gli_rs::storage::filled(yes, used, 2), Some(vec![0, 0]));
    // More memory than there can be is not had.
    let mut none: Vec<u8> = Vec::new();
    let no = none.try_reserve(usize::MAX);
    assert!(no.is_err());
    assert_eq!(gli_rs::storage::filled(no, none, 4), None);
}
