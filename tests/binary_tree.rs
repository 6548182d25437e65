use factorio::binary_tree::BinaryTree;

#[test]
fn size_empty() {
    assert_eq!(leaf::<usize>().size(), 0);
}

#[test]
fn size_single() {
    assert_eq!(node_leaf(0).size(), 1);
}

#[test]
fn size_more() {
    assert_eq!(node(0, node_leaf(1), node_leaf(2)).size(), 3);
}

#[test]
fn size_large() {
    assert_eq!(
        node(
            4,
            node(2, node_leaf(1), node_leaf(3)),
            node(6, node_leaf(5), node_leaf(7))
        )
        .size(),
        7
    );
}

#[test]
fn insert_1() {
    assert_eq!(
        node(5, node(4, node_leaf(3), leaf()), leaf()),
        leaf().insert(5).insert(4).insert(3)
    );
}

#[test]
fn insert_2() {
    assert_eq!(
        node(5, node_leaf(4), node_leaf(52)),
        leaf().insert(5).insert(4).insert(5).insert(52)
    );
}

#[test]
fn insert_3() {
    assert_eq!(
        node(
            10,
            node(4, node_leaf(3), node_leaf(5)),
            node(12, node_leaf(11), leaf())
        ),
        leaf()
            .insert(10)
            .insert(4)
            .insert(12)
            .insert(11)
            .insert(5)
            .insert(3)
    )
}

#[test]
fn contains_0() {
    assert!(!leaf().contains(&3))
}

#[test]
fn contains_1() {
    assert!(leaf().insert(3).insert(1).insert(9).insert(5).contains(&3));
}

#[test]
fn contains_2() {
    assert!(!leaf().insert(3).insert(1).insert(9).insert(5).contains(&7));
}

#[test]
fn height() {
    assert_eq!(
        node(
            10,
            node(4, node(3, node_leaf(5), leaf()), node_leaf(5)),
            node(12, node_leaf(11), leaf())
        )
        .height(),
        4
    )
}

#[test]
fn contains_different_type() {
    assert!(leaf()
        .insert("abc")
        .insert("por")
        .insert("fei")
        .insert("das")
        .contains(&"das"));
}

// Bonus tests

#[test]
fn tree_iter_empty() {
    assert_eq!(leaf::<u32>().iter().next(), None);
}

#[test]
fn tree_iter_single() {
    assert_eq!(node_leaf(1).iter().collect::<Vec<_>>(), vec![&1]);
}

#[test]
fn iter_left_heavy() {
    assert_eq!(
        build_tree(&[5, 4, 3, 2, 1]).iter().collect::<Vec<_>>(),
        vec![&1, &2, &3, &4, &5]
    );
}

#[test]
fn iter_right_heavy() {
    assert_eq!(
        build_tree(&[1, 2, 3, 4, 5]).iter().collect::<Vec<_>>(),
        vec![&1, &2, &3, &4, &5]
    );
}

#[test]
fn iter_backtrack_at_leaf() {
    assert_eq!(
        build_tree(&[5, 2, 4, 3]).iter().collect::<Vec<_>>(),
        vec![&2, &3, &4, &5]
    );
}

#[test]
fn iter_backtrack() {
    assert_eq!(
        build_tree(&[5, 2, 1, 4, 3]).iter().collect::<Vec<_>>(),
        vec![&1, &2, &3, &4, &5]
    );
}

#[test]
fn iter_backtrack_right() {
    assert_eq!(
        build_tree(&[5, 2, 1, 3, 4]).iter().collect::<Vec<_>>(),
        vec![&1, &2, &3, &4, &5]
    );
}

#[test]
fn iter_backtrack_through_root() {
    assert_eq!(
        build_tree(&[5, 2, 8, 6, 7]).iter().collect::<Vec<_>>(),
        vec![&2, &5, &6, &7, &8]
    );
}

fn leaf<T>() -> BinaryTree<T> {
    BinaryTree::Leaf
}

fn node<T>(t: T, s: BinaryTree<T>, l: BinaryTree<T>) -> BinaryTree<T> {
    BinaryTree::Node {
        value: t,
        left: Box::new(s),
        right: Box::new(l),
    }
}

fn node_leaf<T>(t: T) -> BinaryTree<T> {
    BinaryTree::Node {
        value: t,
        left: Box::new(leaf()),
        right: Box::new(leaf()),
    }
}

fn build_tree(items: &[u32]) -> BinaryTree<u32> {
    let mut tree = leaf();
    for item in items {
        tree = tree.insert(*item);
    }
    tree
}
