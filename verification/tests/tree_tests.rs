use otway::geom::{Point, Rect, Size};
use otway::node::{Id, LayoutMode, LayoutSlot, Visibility};
use otway::tree::{ReentrancyError, Tree};

#[test]
fn node_ids_are_pairwise_distinct() {
    let mut tree = Tree::new();
    let root = tree.create(None);
    let a = tree.create(Some(root));
    let b = tree.create(Some(root));
    let c = tree.create(Some(a));
    let ids = vec![root.id(), a.id(), b.id(), c.id()];
    for i in 0..ids.len() {
        for j in 0..ids.len() {
            if i != j {
                assert_ne!(ids[i], ids[j]);
            }
        }
    }
    // identities are monotonically increasing, never reused
    assert_eq!(ids, vec![0, 1, 2, 3]);
}

#[test]
fn node_record_carries_its_identity() {
    let mut tree = Tree::new();
    let root = tree.create(None);
    let a = tree.create(Some(root));
    let rec = tree.checkout(a.id()).unwrap();
    assert_eq!(rec.id(), a.id());
    tree.checkin(a.id(), rec);
}

#[test]
fn nested_access_fails_with_reentrancy_error() {
    let mut tree = Tree::new();
    let a = tree.create(None);
    // first access succeeds
    let rec = tree.checkout(a.id()).unwrap();
    // a nested access attempt on the same node always fails
    assert!(matches!(tree.checkout(a.id()), Err(ReentrancyError)));
    assert!(matches!(tree.checkout(a.id()), Err(ReentrancyError)));
    tree.checkin(a.id(), rec);
    // sequential accesses always succeed
    let rec = tree.checkout(a.id()).unwrap();
    tree.checkin(a.id(), rec);
    let r = tree.with(a.id(), |c| (c, 42u32));
    assert_eq!(r.unwrap(), 42);
}

#[test]
fn with_runs_the_closure_exactly_on_the_record() {
    let mut tree = Tree::new();
    let a = tree.create(None);
    tree.with(a.id(), |mut c| {
        c.set_visible(Visibility::NoChildren);
        (c, ())
    })
    .unwrap();
    let v = tree.with(a.id(), |c| {
        let v = c.visible();
        (c, v)
    })
    .unwrap();
    assert_eq!(v, Visibility::NoChildren);
}

#[test]
fn releasing_last_handle_marks_but_does_not_unlink() {
    let mut tree = Tree::new();
    let root = tree.create(None);
    let a = tree.create(Some(root));
    let b = tree.create(Some(root));
    assert_eq!(tree.strong_count(a.id()), 1);
    tree.clone_handle(a.id());
    assert_eq!(tree.strong_count(a.id()), 2);
    tree.release_handle(a.id());
    assert!(!tree.is_marked_for_detach(a.id()));
    // a traversal is under way: compute the order, drop the last handle
    let before = tree.update_order(root.id());
    tree.release_handle(a.id());
    // the node is marked, still live, and still in its parent's child list
    assert!(tree.is_marked_for_detach(a.id()));
    assert!(tree.live(a.id()));
    assert_eq!(tree.children(root.id()), vec![a.id(), b.id()]);
    // the traversal order is undisturbed
    let after = tree.update_order(root.id());
    assert_eq!(before, after);
    // removal is observed only after the sweep at a safe point
    tree.sweep();
    assert!(!tree.live(a.id()));
    assert_eq!(tree.children(root.id()), vec![b.id()]);
}

#[test]
fn sweep_unlinks_whole_marked_subtrees() {
    let mut tree = Tree::new();
    let root = tree.create(None);
    let a = tree.create(Some(root));
    let aa = tree.create(Some(a));
    let b = tree.create(Some(root));
    // the widget owning `a` goes away and releases its handles
    tree.release_handle(aa.id());
    tree.release_handle(a.id());
    tree.sweep();
    assert!(!tree.live(a.id()));
    assert!(!tree.live(aa.id()));
    assert!(tree.live(b.id()));
    assert_eq!(tree.children(root.id()), vec![b.id()]);
    // the dangling parent link of a removed node resolves to nothing
    assert_eq!(tree.node_count(), 4);
}

#[test]
fn parent_link_is_non_owning_and_liveness_checked() {
    let mut tree = Tree::new();
    let root = tree.create(None);
    let a = tree.create(Some(root));
    let aa = tree.create(Some(a));
    assert_eq!(tree.parent_of(aa.id()).unwrap().id(), a.id());
    assert_eq!(tree.parent_of(a.id()).unwrap().id(), root.id());
    assert!(tree.parent_of(root.id()).is_none());
    // after the parent is removed, the child's link fails to resolve
    tree.mark_for_detach(a.id());
    tree.sweep();
    assert!(tree.parent_of(aa.id()).is_none());
}

#[test]
fn geometry_mutators_flag_repaint_and_follow_layout_mode() {
    let mut tree = Tree::new();
    let a = tree.create(None);
    tree.with(a.id(), |mut c| {
        c.mark_painted();
        assert!(!c.will_repaint());
        c.set_rect(Rect::new(Point::new(3, 4), Size::new(10, 20)));
        assert!(c.will_repaint());
        assert_eq!(c.rect(), Rect::new(Point::new(3, 4), Size::new(10, 20)));
        // fill pushes the node's size into the layout slot
        c.set_layout(Some(LayoutSlot::new(Rect::new(
            Point::new(0, 0),
            Size::new(1, 1),
        ))));
        c.set_layout_mode(LayoutMode::Fill);
        assert_eq!(c.layout_mut().unwrap().rect().size, Size::new(10, 20));
        // under fill, moving the node keeps pushing the node's size
        c.set_position(Point::new(100, 200));
        assert_eq!(c.position(), Point::new(100, 200));
        assert_eq!(c.layout_mut().unwrap().rect().size, Size::new(10, 20));
        // shrink pulls the layout slot's size back into the node
        c.set_layout(Some(LayoutSlot::new(Rect::new(
            Point::new(0, 0),
            Size::new(7, 8),
        ))));
        c.set_layout_mode(LayoutMode::Shrink);
        assert_eq!(c.size(), Size::new(7, 8));
        // every geometry mutator recomputes the layout-driven size, a move
        // included: a changed slot size is pulled in on the next move
        c.layout_mut().as_mut().unwrap().set_size(Some(Size::new(50, 60)));
        c.set_position(Point::new(1, 2));
        assert_eq!(c.position(), Point::new(1, 2));
        assert_eq!(c.size(), Size::new(50, 60));
        (c, ())
    })
    .unwrap();
}

#[test]
fn a_new_node_starts_with_the_documented_defaults() {
    let mut tree = Tree::new();
    let root = tree.create(None);
    let a = tree.create(Some(root));
    tree.with(a.id(), |mut c| {
        assert_eq!(c.visible(), Visibility::All);
        assert!(c.updates());
        assert_eq!(c.rect(), Rect::new(Point::new(0, 0), Size::new(0, 0)));
        assert_eq!(c.layout_mode(), LayoutMode::IndependentSize);
        assert!(c.layout_mut().is_none());
        assert!(c.will_repaint());
        assert!(!c.interaction().pressed);
        assert!(!c.interaction().hovered);
        assert!(!c.info_is_type(0));
        (c, ())
    })
    .unwrap();
    assert!(!tree.is_marked_for_detach(a.id()));
    assert_eq!(tree.strong_count(a.id()), 1);
    assert_eq!(tree.parent_of(a.id()).unwrap().id(), root.id());
    assert!(tree.parent_of(root.id()).is_none());
}

#[test]
fn info_is_type_tagged_and_readable_only_under_its_tag() {
    let mut tree = Tree::new();
    let a = tree.create_with_info(None, Some(otway::node::Info { tag: 7, data: 99 }), 0);
    let b = tree.create(None);
    tree.with(a.id(), |c| {
        assert_eq!(c.info(7), Some(99));
        assert_eq!(c.info(8), None);
        assert!(c.info_is_type(7));
        assert!(!c.info_is_type(8));
        (c, ())
    })
    .unwrap();
    tree.with(b.id(), |c| {
        assert_eq!(c.info(7), None);
        assert!(!c.info_is_type(7));
        (c, ())
    })
    .unwrap();
}

#[test]
fn handles_compare_by_identity() {
    let mut tree = Tree::new();
    let a = tree.create(None);
    let b = tree.create(None);
    let a2 = a;
    assert_eq!(a, a2);
    assert_ne!(a, b);
}
