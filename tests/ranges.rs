use std::collections::HashSet;

use tabular::{Address, Range, Reference, ReferenceRange};

fn addr(x: usize, y: usize) -> Address {
    Address::new(x, y)
}

#[test]
fn address_accessors() {
    let a = addr(3, 4);
    assert_eq!(a.x(), 3);
    assert_eq!(a.y(), 4);
    assert_eq!(a.as_tuple(), (3, 4));
    assert_eq!(Address::from((3, 4)), a);
    assert_eq!(Address::default(), addr(0, 0));
}

#[test]
fn addresses_order_by_column_then_row() {
    assert!(addr(0, 5) < addr(1, 0));
    assert!(addr(1, 0) < addr(1, 1));
}

#[test]
fn normalize_orders_both_axes() {
    let r = Range::new(addr(3, 1), Some(addr(1, 4)));
    let n = r.normalize();
    assert_eq!(n, Range::new(addr(1, 1), Some(addr(3, 4))));
    assert_eq!(n.normalize(), n);
}

#[test]
fn normalize_single_cell() {
    let r = Range::new(addr(2, 2), None);
    assert_eq!(r.normalize(), Range::new(addr(2, 2), Some(addr(2, 2))));
}

#[test]
fn normalize_is_idempotent() {
    for (sx, sy, ex, ey) in [(0, 0, 2, 2), (5, 1, 0, 3), (4, 4, 4, 0), (1, 7, 1, 7)] {
        let r = Range::new(addr(sx, sy), Some(addr(ex, ey)));
        let n = r.normalize();
        assert_eq!(n.normalize(), n);
        let e = n.end().unwrap();
        assert!(n.start().x() <= e.x() && n.start().y() <= e.y());
    }
}

#[test]
fn iter_yields_every_cell_once() {
    let r = Range::new(addr(1, 2), Some(addr(3, 3)));
    let cells = r.iter();
    assert_eq!(cells.len(), 3 * 2);
    let set: HashSet<Address> = cells.iter().copied().collect();
    assert_eq!(set.len(), 6);
    for c in &cells {
        assert!(r.contains(c));
    }
    assert_eq!(
        cells,
        vec![addr(1, 2), addr(1, 3), addr(2, 2), addr(2, 3), addr(3, 2), addr(3, 3)]
    );
}

#[test]
fn iter_of_reversed_range_covers_the_rectangle() {
    let r = Range::new(addr(2, 1), Some(addr(0, 0)));
    let cells = r.iter();
    assert_eq!(cells.len(), 6);
    for c in &cells {
        assert!(r.normalize().contains(c));
    }
}

#[test]
fn iter_single_cell() {
    assert_eq!(Range::new(addr(4, 5), None).iter(), vec![addr(4, 5)]);
}

#[test]
fn contains_is_inclusive() {
    let r = Range::new(addr(0, 0), Some(addr(1, 0)));
    assert!(r.contains(&addr(0, 0)));
    assert!(r.contains(&addr(1, 0)));
    assert!(!r.contains(&addr(2, 0)));
    assert!(!r.contains(&addr(0, 1)));
}

#[test]
fn contains_reads_the_range_as_it_stands() {
    let r = Range::new(addr(2, 2), Some(addr(0, 0)));
    assert!(!r.contains(&addr(1, 1)));
    assert!(r.normalize().contains(&addr(1, 1)));
}
