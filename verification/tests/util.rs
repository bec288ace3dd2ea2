use wheatley::point::Point;
use wheatley::util::insert_at_zero;
use wheatley::util::Grid;

#[test]
fn insert_zero_basic() {
    let mut v = vec![1, 2, 3];
    insert_at_zero(&mut v, 4);
    assert_eq!(v, vec![4, 2, 3, 1]);
}

#[test]
fn insert_zero_multiple() {
    let mut v = vec!['a', 'b', 'c'];
    insert_at_zero(&mut v, 'd');
    assert_eq!(v, vec!['d', 'b', 'c', 'a']);
    insert_at_zero(&mut v, 'e');
    assert_eq!(v, vec!['e', 'b', 'c', 'a', 'd']);
    insert_at_zero(&mut v, 'f');
    assert_eq!(v, vec!['f', 'b', 'c', 'a', 'd', 'e']);
}

#[test]
fn insert_zero_empty() {
    let mut v = vec![];
    insert_at_zero(&mut v, true);
    assert_eq!(v, vec![true])
}

#[test]
fn grid_basic() {
    let g = Grid::new(0, 14, 10);
    assert_eq!(g.get(3, 4), 0);
}

#[test]
fn grid_mut() {
    let mut g = Grid::new(0, 14, 10);
    g.set(3, 4, 2);
    assert_eq!(g.get(3, 4), 2);
}

#[test]
fn grid_step() {
    let g = Grid::new(true, 2, 20);
    assert!(g.get(1, 19));
}

#[test]
fn grid_set_keeps_others() {
    let mut g = Grid::new(7u8, 4, 4);
    g.set(2, 2, 9);
    assert_eq!(g.get(2, 2), 9);
    assert_eq!(g.get(1, 2), 7);
    assert_eq!(g.get(2, 1), 7);
    assert_eq!(g.get(3, 3), 7);
}

#[test]
fn point_arithmetic() {
    let p = Point(3, -2);
    let q = Point(1, 5);
    let s = p.add(q);
    assert_eq!((s.0, s.1), (4, 3));
    let d = p.sub(q);
    assert_eq!((d.0, d.1), (2, -7));
    let m = q.mul(3);
    assert_eq!((m.0, m.1), (3, 15));
    let h = Point(9, 5).div(2);
    assert_eq!((h.0, h.1), (4, 2));
}
