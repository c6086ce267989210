use bulletml::run::zipper::{Node, ParentStatus, Zipper};

#[test]
fn test_zipper_iter() {
    let tree = Node::new(0);
    let zipper = tree.zipper();
    let mut iter = zipper.iter();
    assert_eq!(iter.next(), Some(&0));
    assert!(!iter.is_done());
    assert_eq!(iter.next(), None);
    assert!(iter.is_done());
}

#[test]
fn test_zipper_children() {
    let mut tree = Node::new(0);
    tree.add_child(Node::new(1));
    tree.add_child(Node::new(2));
    tree.add_child(Node::new(3));
    let zipper = tree.zipper();
    let mut iter = zipper.iter();
    assert_eq!(iter.next(), Some(&0));
    assert!(!iter.is_done());
    assert_eq!(iter.next(), Some(&1));
    assert!(!iter.is_done());
    assert_eq!(iter.next(), Some(&2));
    assert!(!iter.is_done());
    assert_eq!(iter.next(), Some(&3));
    assert!(!iter.is_done());
    assert_eq!(iter.next(), None);
    assert!(iter.is_done());
}

#[test]
fn test_zipper_siblings() {
    let mut tree = Node::new(0);
    let mut child = Node::new(1);
    child.add_child(Node::new(2));
    child.add_child(Node::new(3));
    tree.add_child(child);
    let zipper = tree.zipper();
    let mut iter = zipper.iter();
    assert_eq!(iter.next(), Some(&0));
    assert!(!iter.is_done());
    assert_eq!(iter.next(), Some(&1));
    assert!(!iter.is_done());
    assert_eq!(iter.next(), Some(&2));
    assert!(!iter.is_done());
    assert_eq!(iter.next(), Some(&3));
    assert!(!iter.is_done());
    assert_eq!(iter.next(), None);
    assert!(iter.is_done());
}

#[test]
fn preorder_walk_visits_later_siblings_of_inner_nodes() {
    let mut tree = Node::new(0);
    tree.add_child(Node::new(1));
    let mut inner = Node::new(2);
    inner.add_child(Node::new(3));
    inner.add_child(Node::new(4));
    tree.add_child(inner);
    tree.add_child(Node::new(5));
    let mut iter = tree.zipper().iter();
    for expected in 0..6 {
        assert_eq!(iter.next(), Some(&expected));
    }
    assert_eq!(iter.next(), None);
    assert_eq!(iter.next(), None);
    assert!(iter.is_done());
}

fn sample() -> Node<i32> {
    let mut tree = Node::new(0);
    tree.add_child(Node::new(1));
    let mut inner = Node::new(2);
    inner.add_child(Node::new(3));
    inner.add_child(Node::new(4));
    tree.add_child(inner);
    tree.add_child(Node::new(5));
    tree
}

fn walk(zipper: Zipper<i32>) -> Vec<i32> {
    let mut seen = Vec::new();
    let mut iter = zipper.iter();
    while let Some(value) = iter.next() {
        seen.push(*value);
    }
    seen
}

#[test]
fn child_then_parent_restores_the_tree() {
    for idx in 0..3 {
        let mut zipper = sample().zipper();
        assert_eq!(zipper.parent(), ParentStatus::AtRoot);
        zipper.child(idx);
        assert_eq!(*zipper.as_ref(), [1, 2, 5][idx]);
        assert_eq!(zipper.parent(), ParentStatus::Relocated);
        assert_eq!(*zipper.as_ref(), 0);
        assert_eq!(zipper.parent(), ParentStatus::AtRoot);
        assert_eq!(walk(zipper), vec![0, 1, 2, 3, 4, 5]);
    }
}

#[test]
fn nested_moves_restore_the_tree() {
    let mut zipper = sample().zipper();
    zipper.child(1);
    zipper.child(0);
    assert_eq!(*zipper.as_ref(), 3);
    assert_eq!(zipper.parent(), ParentStatus::Relocated);
    zipper.child(1);
    assert_eq!(*zipper.as_ref(), 4);
    assert_eq!(zipper.parent(), ParentStatus::Relocated);
    assert_eq!(zipper.parent(), ParentStatus::Relocated);
    assert_eq!(walk(zipper), vec![0, 1, 2, 3, 4, 5]);
}

#[test]
fn a_walk_from_an_inner_node_goes_on_to_the_end() {
    let mut zipper = sample().zipper();
    zipper.child(1);
    assert_eq!(walk(zipper), vec![2, 3, 4, 5]);
}

#[test]
fn an_added_child_is_visited_next() {
    let mut iter = sample().zipper().iter();
    assert_eq!(iter.next(), Some(&0));
    assert_eq!(iter.next(), Some(&1));
    iter.add_child(Node::new(10));
    assert_eq!(iter.current(), Some(&1));
    assert_eq!(iter.next(), Some(&10));
    assert_eq!(iter.next(), Some(&2));
    let mut more = Node::new(20);
    more.add_child(Node::new(21));
    iter.current_mut().unwrap().add_child(more);
    assert_eq!(iter.next(), Some(&3));
    assert_eq!(iter.next(), Some(&4));
    iter.current_mut()
        .unwrap()
        .add_children(vec![Node::new(30), Node::new(31)]);
    assert_eq!(iter.next(), Some(&30));
    assert_eq!(iter.next(), Some(&31));
    assert_eq!(iter.next(), Some(&20));
    assert_eq!(iter.next(), Some(&21));
    assert_eq!(iter.next(), Some(&5));
    assert_eq!(iter.next(), None);
    assert_eq!(iter.current(), None);
    assert!(iter.current_mut().is_none());
    iter.add_child(Node::new(40));
    assert_eq!(iter.next(), None);
}

#[test]
fn node_accessors() {
    let mut node = Node::new(7);
    assert!(node.is_empty());
    assert_eq!(node.len(), 0);
    node.add_child(Node::new(8));
    assert!(!node.is_empty());
    assert_eq!(node.len(), 1);
    assert_eq!(*node.as_ref(), 7);
    let zipper = Zipper::new(node);
    assert_eq!(*zipper.as_ref(), 7);
}
