use crix::{Container, NodeId, Rect, UiTree, Widget};

fn boxw() -> Widget {
    Widget::Container(Container::new(0, 0))
}

fn scene() -> (UiTree, NodeId, NodeId, NodeId) {
    let mut tree = UiTree::new();
    let root = tree.add(boxw(), None);
    tree.set_bounds(root, Rect::new(0, 0, 100, 100));
    let a = tree.add(boxw(), Some(root));
    tree.set_bounds(a, Rect::new(10, 10, 20, 20));
    let b = tree.add(boxw(), Some(root));
    tree.set_bounds(b, Rect::new(15, 15, 20, 20));
    (tree, root, a, b)
}

#[test]
fn later_sibling_wins_hit_test() {
    let (tree, root, a, b) = scene();
    assert_eq!(tree.hit_test(20, 20), Some(b));
    assert_eq!(tree.hit_test(12, 12), Some(a));
    assert_eq!(tree.hit_test(90, 90), Some(root));
    assert_eq!(tree.hit_test(100, 100), None);
    assert_eq!(tree.hit_test(-1, 5), None);
}

#[test]
fn hit_test_without_root_finds_nothing() {
    let tree = UiTree::new();
    assert_eq!(tree.hit_test(0, 0), None);
}

#[test]
fn first_node_becomes_root_and_children_are_linked() {
    let (tree, root, a, b) = scene();
    assert_eq!(tree.root(), Some(root));
    assert_eq!(tree.get(root).unwrap().children(), &[a, b]);
    assert_eq!(tree.get(a).unwrap().parent(), Some(root));
    assert_eq!(*tree.get(b).unwrap().bounds(), Rect::new(15, 15, 20, 20));
}

#[test]
fn remove_drops_node_and_descendants() {
    let (mut tree, root, a, b) = scene();
    let c = tree.add(boxw(), Some(a));
    let d = tree.add(boxw(), Some(c));
    tree.remove(a);
    assert!(tree.get(a).is_none());
    assert!(tree.get(c).is_none());
    assert!(tree.get(d).is_none());
    assert!(tree.get(b).is_some());
    assert_eq!(tree.get(root).unwrap().children(), &[b]);
}

#[test]
fn remove_clears_only_related_singletons() {
    let (mut tree, root, a, b) = scene();
    let c = tree.add(boxw(), Some(a));
    tree.set_hovered(Some(c));
    tree.set_pressed(Some(a));
    tree.set_focused(Some(b));
    tree.set_captured(Some(root));
    tree.remove(a);
    assert_eq!(tree.hovered(), None);
    assert_eq!(tree.pressed(), None);
    assert_eq!(tree.focused(), Some(b));
    assert_eq!(tree.captured(), Some(root));
    assert_eq!(tree.root(), Some(root));
}

#[test]
fn removing_root_clears_root() {
    let (mut tree, root, a, _b) = scene();
    tree.set_focused(Some(a));
    tree.remove(root);
    assert_eq!(tree.root(), None);
    assert_eq!(tree.focused(), None);
    assert!(tree.get(root).is_none());
}

#[test]
fn removing_stale_id_changes_nothing() {
    let (mut tree, root, a, b) = scene();
    tree.remove(b);
    tree.set_hovered(Some(a));
    tree.remove(b);
    assert_eq!(tree.hovered(), Some(a));
    assert_eq!(tree.get(root).unwrap().children(), &[a]);
    tree.remove(NodeId(999));
    assert!(tree.get(a).is_some());
}

#[test]
fn freed_slot_is_reused() {
    let (mut tree, root, _a, b) = scene();
    tree.remove(b);
    let e = tree.add(boxw(), Some(root));
    assert_eq!(e, b);
    assert!(tree.get(e).is_some());
}

#[test]
fn setting_a_stale_singleton_records_nothing() {
    let (mut tree, _root, a, _b) = scene();
    tree.remove(a);
    tree.set_hovered(Some(a));
    assert_eq!(tree.hovered(), None);
    tree.set_focused(Some(NodeId(57)));
    assert_eq!(tree.focused(), None);
}

#[test]
fn stale_parent_leaves_node_detached() {
    let (mut tree, root, a, _b) = scene();
    tree.remove(a);
    let x = tree.add(boxw(), Some(NodeId(40)));
    assert_eq!(tree.get(x).unwrap().parent(), None);
    assert_eq!(tree.root(), Some(root));
}

#[test]
fn state_follows_singletons() {
    let (mut tree, _root, a, b) = scene();
    tree.set_hovered(Some(a));
    tree.set_pressed(Some(a));
    tree.set_focused(Some(b));
    let sa = tree.state_of(a);
    assert!(sa.hovered && sa.pressed && !sa.focused);
    let sb = tree.state_of(b);
    assert!(!sb.hovered && !sb.pressed && sb.focused);
}

#[test]
fn node_ids_lists_live_slots() {
    let (mut tree, root, a, b) = scene();
    tree.remove(a);
    assert_eq!(tree.node_ids(), vec![root, b]);
    assert_eq!(tree.size(), (100, 100));
}

#[test]
fn rect_contains_is_half_open() {
    let r = Rect::new(10, 10, 20, 20);
    assert!(r.contains(10, 10));
    assert!(r.contains(29, 29));
    assert!(!r.contains(30, 10));
    assert!(!r.contains(10, 30));
    assert_eq!(r.right(), 30);
    assert_eq!(r.bottom(), 30);
    assert_eq!(Rect::from_size(3, 4), Rect::new(0, 0, 3, 4));
}
