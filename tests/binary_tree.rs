use linked_stacks::binary_tree::{BinaryTree, Node};

fn values(views: Vec<&i32>) -> Vec<i32> {
    views.into_iter().copied().collect()
}

#[test]
fn tree_test() {
    let mut tree = BinaryTree::new();

    tree.insert(3);
    tree.insert(2);
    tree.insert(6);
    tree.insert(4);
    tree.insert(1);
    tree.insert(7);
    tree.insert(8);
    tree.insert(5);

    assert_eq!(values(tree.preorder()), vec![3, 6, 7, 8, 4, 5, 2, 1]);
    assert_eq!(values(tree.inorder()), vec![8, 7, 6, 5, 4, 3, 2, 1]);
    assert_eq!(values(tree.postorder()), vec![8, 7, 5, 4, 6, 1, 2, 3]);
}

#[test]
fn empty_tree_has_no_values() {
    let tree: BinaryTree<i32> = BinaryTree::new();
    assert!(tree.preorder().is_empty());
    assert!(tree.inorder().is_empty());
    assert!(tree.postorder().is_empty());
}

#[test]
fn equal_values_go_left() {
    let mut tree = BinaryTree::new();
    tree.insert(5);
    tree.insert(5);
    tree.insert(9);
    tree.insert(1);
    assert_eq!(values(tree.preorder()), vec![5, 5, 9, 1]);
    assert_eq!(values(tree.inorder()), vec![9, 5, 5, 1]);
    assert_eq!(values(tree.postorder()), vec![9, 5, 1, 5]);
}

#[test]
fn node_insert_places_leaves() {
    let mut node = Node::new(10);
    node.insert(20);
    node.insert(5);
    node.insert(15);
    assert_eq!(values(node.preorder()), vec![10, 20, 15, 5]);
    assert_eq!(values(node.inorder()), vec![20, 15, 10, 5]);
    assert_eq!(values(node.postorder()), vec![15, 20, 5, 10]);
}
