use otway::node::{Id, Visibility};
use otway::traverse::VisitorBreakpoint;
use otway::tree::Tree;

fn set_visible(tree: &mut Tree, id: u64, v: Visibility) {
    tree.with(id, |mut c| {
        c.set_visible(v);
        (c, ())
    })
    .unwrap();
}

fn visible_of(tree: &mut Tree, id: u64) -> Visibility {
    tree.with(id, |c| {
        let v = c.visible();
        (c, v)
    })
    .unwrap()
}

#[test]
fn update_order_visits_children_before_parent_in_reverse_order() {
    let mut tree = Tree::new();
    let root = tree.create(None);
    let a = tree.create(Some(root));
    let b = tree.create(Some(root));
    let aa = tree.create(Some(a));
    // children of root: [a, b]; reverse child order, children first
    assert_eq!(
        tree.update_order(root.id()),
        vec![b.id(), aa.id(), a.id(), root.id()]
    );
}

#[test]
fn draw_order_visits_parent_first_in_forward_order() {
    let mut tree = Tree::new();
    let root = tree.create(None);
    let a = tree.create(Some(root));
    let b = tree.create(Some(root));
    let aa = tree.create(Some(a));
    assert_eq!(
        tree.draw_order(root.id()),
        vec![root.id(), a.id(), aa.id(), b.id()]
    );
}

#[test]
fn draw_order_honours_visibility_modes() {
    let mut tree = Tree::new();
    let root = tree.create(None);
    let a = tree.create(Some(root));
    let aa = tree.create(Some(a));
    let b = tree.create(Some(root));
    // NoSelf suppresses the node's own draw, not the children
    set_visible(&mut tree, a.id(), Visibility::NoSelf);
    assert_eq!(tree.draw_order(root.id()), vec![root.id(), aa.id(), b.id()]);
    // NoChildren suppresses the descent, not the node
    set_visible(&mut tree, a.id(), Visibility::NoChildren);
    assert_eq!(tree.draw_order(root.id()), vec![root.id(), a.id(), b.id()]);
    // Invisible suppresses both
    set_visible(&mut tree, a.id(), Visibility::Invisible);
    assert_eq!(tree.draw_order(root.id()), vec![root.id(), b.id()]);
    // Gone suppresses both as well
    set_visible(&mut tree, a.id(), Visibility::Gone);
    assert_eq!(tree.draw_order(root.id()), vec![root.id(), b.id()]);
    // NoLayout affects only layout participation, not draw
    set_visible(&mut tree, a.id(), Visibility::NoLayout);
    assert_eq!(
        tree.draw_order(root.id()),
        vec![root.id(), a.id(), aa.id(), b.id()]
    );
}

#[test]
fn visibility_propagation_overwrites_every_descendant() {
    let mut tree = Tree::new();
    let root = tree.create(None);
    let a = tree.create(Some(root));
    let aa = tree.create(Some(a));
    let b = tree.create(Some(root));
    let outside = tree.create(None);
    set_visible(&mut tree, a.id(), Visibility::NoChildren);
    set_visible(&mut tree, aa.id(), Visibility::NoLayout);
    set_visible(&mut tree, root.id(), Visibility::Invisible);
    tree.propagate_visibility(root.id());
    // every descendant holds the propagated mode, prior distinct values
    // overwritten
    assert_eq!(visible_of(&mut tree, a.id()), Visibility::Invisible);
    assert_eq!(visible_of(&mut tree, aa.id()), Visibility::Invisible);
    assert_eq!(visible_of(&mut tree, b.id()), Visibility::Invisible);
    // the node itself and nodes outside the subtree keep their modes
    assert_eq!(visible_of(&mut tree, root.id()), Visibility::Invisible);
    assert_eq!(visible_of(&mut tree, outside.id()), Visibility::All);
}

#[test]
fn repaint_propagates_to_direct_children_only() {
    let mut tree = Tree::new();
    let root = tree.create(None);
    let a = tree.create(Some(root));
    let aa = tree.create(Some(a));
    for id in [root.id(), a.id(), aa.id()] {
        tree.with(id, |mut c| {
            c.mark_painted();
            (c, ())
        })
        .unwrap();
    }
    // no pending repaint: nothing happens
    tree.propagate_repaint(root.id());
    let pending = |tree: &mut Tree, id: u64| {
        tree.with(id, |c| {
            let p = c.will_repaint();
            (c, p)
        })
        .unwrap()
    };
    assert!(!pending(&mut tree, a.id()));
    // pending repaint: pushed to children only, never further down
    tree.with(root.id(), |mut c| {
        c.repaint();
        (c, ())
    })
    .unwrap();
    tree.propagate_repaint(root.id());
    assert!(pending(&mut tree, a.id()));
    assert!(!pending(&mut tree, aa.id()));
}

#[test]
fn visitor_matches_by_kind_and_honours_breakpoints() {
    let mut tree = Tree::new();
    let root = tree.create(None);
    let a = tree.create_with_info(Some(root), None, 5);
    let aa = tree.create_with_info(Some(a), None, 5);
    let b = tree.create_with_info(Some(root), None, 5);
    let c = tree.create_with_info(Some(root), None, 6);
    assert_eq!(tree.kind(c.id()), 6);
    // full traversal: all matches, depth-first, matched node before its
    // children
    assert_eq!(
        tree.visit(root.id(), 5, VisitorBreakpoint::Never),
        vec![a.id(), aa.id(), b.id()]
    );
    // stop entirely after the first match
    assert_eq!(
        tree.visit(root.id(), 5, VisitorBreakpoint::FirstVisit),
        vec![a.id()]
    );
    // skip the children of matched nodes, continue the sibling search
    assert_eq!(
        tree.visit(root.id(), 5, VisitorBreakpoint::EachVisit),
        vec![a.id(), b.id()]
    );
    // kinds can be retagged
    let mut tree2 = Tree::new();
    let r2 = tree2.create(None);
    let x = tree2.create(Some(r2));
    tree2.set_kind(x.id(), 9);
    assert_eq!(
        tree2.visit(r2.id(), 9, VisitorBreakpoint::Never),
        vec![x.id()]
    );
}
