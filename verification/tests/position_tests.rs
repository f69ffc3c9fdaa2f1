use otway::geom::{Point, Rect, Size, COORD_MAX, COORD_MIN};
use otway::node::Id;
use otway::tree::Tree;

fn place(tree: &mut Tree, id: u64, x: i64, y: i64) {
    tree.with(id, |mut c| {
        c.set_position(Point::new(x, y));
        (c, ())
    })
    .unwrap();
}

#[test]
fn absolute_position_sums_offsets_up_the_chain() {
    let mut tree = Tree::new();
    let root = tree.create(None);
    let a = tree.create(Some(root));
    let aa = tree.create(Some(a));
    place(&mut tree, root.id(), 10, 20);
    place(&mut tree, a.id(), 1, 2);
    place(&mut tree, aa.id(), 100, 200);
    assert_eq!(tree.absolute_position(root.id()), Point::new(10, 20));
    assert_eq!(tree.absolute_position(a.id()), Point::new(11, 22));
    assert_eq!(tree.absolute_position(aa.id()), Point::new(111, 222));
    // always recomputed: a mutation between reads is observed
    place(&mut tree, root.id(), 0, 0);
    assert_eq!(tree.absolute_position(aa.id()), Point::new(101, 202));
}

#[test]
fn absolute_rect_pairs_absolute_position_with_own_size() {
    let mut tree = Tree::new();
    let root = tree.create(None);
    let a = tree.create(Some(root));
    place(&mut tree, root.id(), 5, 6);
    tree.with(a.id(), |mut c| {
        c.set_rect(Rect::new(Point::new(1, 1), Size::new(30, 40)));
        (c, ())
    })
    .unwrap();
    assert_eq!(
        tree.absolute_rect(a.id()),
        Rect::new(Point::new(6, 7), Size::new(30, 40))
    );
}

#[test]
fn set_absolute_position_stores_the_parent_relative_offset() {
    let mut tree = Tree::new();
    let root = tree.create(None);
    let a = tree.create(Some(root));
    place(&mut tree, root.id(), 10, 10);
    tree.set_absolute_position(a.id(), Point::new(25, 40));
    assert_eq!(tree.absolute_position(a.id()), Point::new(25, 40));
    let rel = tree.with(a.id(), |c| {
        let p = c.position();
        (c, p)
    })
    .unwrap();
    assert_eq!(rel, Point::new(15, 30));
    // on a root the absolute point is stored as is
    tree.set_absolute_position(root.id(), Point::new(-3, -4));
    assert_eq!(tree.absolute_position(root.id()), Point::new(-3, -4));
}

#[test]
fn coordinate_sums_clamp_at_the_representable_range() {
    let mut tree = Tree::new();
    let root = tree.create(None);
    let a = tree.create(Some(root));
    place(&mut tree, root.id(), COORD_MAX, COORD_MIN);
    place(&mut tree, a.id(), 1, -1);
    assert_eq!(
        tree.absolute_position(a.id()),
        Point::new(COORD_MAX, COORD_MIN)
    );
}

#[test]
fn rect_contains_is_a_half_open_box() {
    let r = Rect::new(Point::new(10, 10), Size::new(5, 5));
    assert!(r.contains(Point::new(10, 10)));
    assert!(r.contains(Point::new(14, 14)));
    assert!(!r.contains(Point::new(15, 10)));
    assert!(!r.contains(Point::new(10, 15)));
    assert!(!r.contains(Point::new(9, 10)));
}

#[test]
fn find_parent_walks_ancestors_up_to_the_distance() {
    let mut tree = Tree::new();
    let root = tree.create(None);
    let a = tree.create(Some(root));
    let aa = tree.create(Some(a));
    let aaa = tree.create(Some(aa));
    tree.with(root.id(), |mut c| {
        c.set_updates(false);
        (c, ())
    })
    .unwrap();
    // the search never considers the node itself and returns the first match
    let hit = tree.find_parent(aaa.id(), |c: &otway::node::Common| !c.updates(), None);
    assert_eq!(hit.unwrap().id(), root.id());
    // a bounded search exhausts max_distance ancestors and gives up
    let miss = tree.find_parent(aaa.id(), |c: &otway::node::Common| !c.updates(), Some(2));
    assert!(miss.is_none());
    let hit = tree.find_parent(aaa.id(), |c: &otway::node::Common| !c.updates(), Some(3));
    assert_eq!(hit.unwrap().id(), root.id());
    // no match anywhere
    let none = tree.find_parent(aaa.id(), |_c: &otway::node::Common| false, None);
    assert!(none.is_none());
    // max_distance of zero searches nothing
    let none = tree.find_parent(aaa.id(), |_c: &otway::node::Common| true, Some(0));
    assert!(none.is_none());
}
