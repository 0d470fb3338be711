use std::cell::Cell;
use std::rc::Rc;

use dvec::DVec;

#[test]
fn alternating_pushes_order() {
    let mut v = DVec::<u64>::new();
    v.push_front(1);
    v.push_back(2);
    v.push_front(3);
    v.push_back(4);
    assert_eq!(v.len(), 4);
    assert_eq!(*v.get(0), 3);
    assert_eq!(*v.get(1), 1);
    assert_eq!(*v.get(2), 2);
    assert_eq!(*v.get(3), 4);
}

#[test]
fn length_counts_pushes_and_capacity_bounds_length() {
    let mut v = DVec::<u64>::new();
    let mut pushes: usize = 0;
    for i in 0..100u64 {
        v.push_front(i);
        pushes += 1;
        assert_eq!(v.len(), pushes);
        assert!(v.capacity() >= v.len());
    }
    for i in 0..100u64 {
        v.push_back(i);
        pushes += 1;
        assert_eq!(v.len(), pushes);
        assert!(v.capacity() >= v.len());
    }
}

#[test]
fn resize_preserves_elements() {
    let mut v = DVec::<u64>::new();
    v.push_back(1);
    v.push_back(2);
    v.push_back(3);
    let before: Vec<u64> = vec![*v.get(0), *v.get(1), *v.get(2)];
    v.resize(16);
    assert!(v.capacity() == 16);
    assert_eq!(*v.get(0), before[0]);
    assert_eq!(*v.get(1), before[1]);
    assert_eq!(*v.get(2), before[2]);
    assert_eq!(v.len(), 3);
}

#[test]
fn from_vec_keeps_order() {
    let v = DVec::from_vec(vec![10u64, 20, 30]);
    assert_eq!(v.len(), 3);
    assert_eq!(*v.get(0), 10);
    assert_eq!(*v.get(1), 20);
    assert_eq!(*v.get(2), 30);
}

#[test]
fn from_elem_repeats_value() {
    let v = DVec::from_elem(7u64, 5);
    assert_eq!(v.len(), 5);
    for i in 0..5 {
        assert_eq!(*v.get(i), 7);
    }
    let empty = DVec::from_elem(1u64, 0);
    assert_eq!(empty.len(), 0);
}

#[test]
fn eq_ignores_layout() {
    let mut a = DVec::<u64>::new();
    a.push_back(1);
    a.push_back(2);
    a.push_back(3);
    let mut b = DVec::<u64>::with_capacity(64);
    b.push_front(2);
    b.push_front(1);
    b.push_back(3);
    assert!(a.capacity() != b.capacity());
    assert!(a.eq(&b));
    assert!(b.eq(&a));
}

#[test]
fn eq_distinguishes_content() {
    let a = DVec::from_vec(vec![1u64, 2, 3]);
    let b = DVec::from_vec(vec![1u64, 2]);
    let c = DVec::from_vec(vec![1u64, 2, 4]);
    assert!(!a.eq(&b));
    assert!(!a.eq(&c));
    let e1 = DVec::<u64>::new();
    let e2 = DVec::<u64>::with_capacity(8);
    assert!(e1.eq(&e2));
}

struct Counted {
    counter: Rc<Cell<usize>>,
}

impl Drop for Counted {
    fn drop(&mut self) {
        self.counter.set(self.counter.get() + 1);
    }
}

#[test]
fn drop_finalizes_each_live_element_once() {
    let counter = Rc::new(Cell::new(0usize));
    {
        let mut v = DVec::new();
        for _ in 0..5 {
            v.push_front(Counted { counter: counter.clone() });
        }
        for _ in 0..4 {
            v.push_back(Counted { counter: counter.clone() });
        }
        // Growth relocated elements several times by now; none was finalized.
        assert_eq!(counter.get(), 0);
    }
    assert_eq!(counter.get(), 9);
}

#[test]
fn headroom_swings_keep_window_in_bounds() {
    let mut v = DVec::<u64>::new();
    for i in 0..200u64 {
        v.push_front(i);
        assert!(v.capacity() >= v.len());
    }
    for i in 0..200u64 {
        v.push_back(i);
        assert!(v.capacity() >= v.len());
    }
    assert_eq!(v.len(), 400);
    assert_eq!(*v.get(0), 199);
    assert_eq!(*v.get(199), 0);
    assert_eq!(*v.get(200), 0);
    assert_eq!(*v.get(399), 199);
}

#[test]
fn with_capacity_centers_window() {
    let v = DVec::<u64>::with_capacity(20);
    assert_eq!(v.capacity(), 20);
    assert_eq!(v.len(), 0);
    let mut w = DVec::<u64>::with_capacity(2);
    w.push_front(1);
    w.push_back(2);
    // Capacity 2 with a centered empty window leaves one slot on each side.
    assert_eq!(w.capacity(), 2);
    assert_eq!(*w.get(0), 1);
    assert_eq!(*w.get(1), 2);
}
