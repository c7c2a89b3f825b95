use pawn_front::ring::Ring;

#[test]
fn test_ring_buffer() {
    let mut r = Ring::new(3);
    assert_eq!(r.playhead(), 0);
    r.insert(1);
    assert_eq!(r.playhead(), 1);
    r.insert(2);
    assert_eq!(r.playhead(), 2);
    r.insert(3);
    assert_eq!(r.playhead(), 0);
    r.insert(1);
    assert_eq!(r.playhead(), 1);
    r.insert(2);
    assert_eq!(r.playhead(), 2);
    r.insert(3);
    assert_eq!(r.playhead(), 0);
}

#[test]
fn ring_keeps_last_items_in_order() {
    let mut r = Ring::new(3);
    for i in 1..=5 {
        r.insert(i);
    }
    assert_eq!(r.unroll(), vec![3, 4, 5]);
}

#[test]
fn ring_capacity_one() {
    let mut r = Ring::new(1);
    r.insert('a');
    r.insert('b');
    r.insert('c');
    assert_eq!(r.unroll(), vec!['c']);
}

#[test]
fn ring_partial_fill() {
    let mut r = Ring::new(4);
    r.insert(7);
    r.insert(8);
    assert_eq!(r.unroll(), vec![7, 8]);
}

#[test]
fn ring_zero_capacity_stays_empty() {
    let mut r = Ring::new(0);
    r.insert(1);
    r.insert(2);
    assert_eq!(r.unroll(), Vec::<i32>::new());
}
