//! An unbalanced binary search tree. A value that the node's value exceeds
//! goes to the right; a value that is greater than or equal to it goes to the
//! left, so that an in-order walk reads the values from the largest down.
use vstd::prelude::*;
use core::cmp::Ordering;
use vstd::std_specs::cmp::OrdSpec;

verus! {

/// A binary search tree that owns its nodes from the root down.
pub struct BinaryTree<T> {
    root: Link<T>,
}

type Link<T> = Option<Box<Node<T>>>;

/// A tree node: a value and the two subtrees that it owns.
pub struct Node<T> {
    elem: T,
    left: Link<T>,
    right: Link<T>,
}

/// The shape of a tree and the values at its nodes, as a plain datatype.
pub enum Tree<T> {
    Empty,
    Branch { value: T, left: Box<Tree<T>>, right: Box<Tree<T>> },
}

impl<T> Tree<T> {
    /// A tree of one node, holding `v`.
    pub open spec fn leaf(v: T) -> Tree<T> {
        Tree::Branch { value: v, left: Box::new(Tree::Empty), right: Box::new(Tree::Empty) }
    }

    /// The values of the tree: each node, then its left subtree, then its
    /// right subtree.
    pub open spec fn preorder(self) -> Seq<T>
        decreases self,
    {
        match self {
            Tree::Empty => Seq::empty(),
            Tree::Branch { value, left, right } => seq![value] + left.preorder() + right.preorder(),
        }
    }

    /// The values of the tree: each node's left subtree, then the node, then
    /// its right subtree.
    pub open spec fn inorder(self) -> Seq<T>
        decreases self,
    {
        match self {
            Tree::Empty => Seq::empty(),
            Tree::Branch { value, left, right } => left.inorder() + seq![value] + right.inorder(),
        }
    }

    /// The values of the tree: each node's left subtree, then its right
    /// subtree, then the node.
    pub open spec fn postorder(self) -> Seq<T>
        decreases self,
    {
        match self {
            Tree::Empty => Seq::empty(),
            Tree::Branch { value, left, right } => left.postorder() + right.postorder() + seq![value],
        }
    }
}

impl<T: Ord> Tree<T> {
    /// The tree with `v` added as a new leaf: from the root down, into the
    /// right subtree where the node's value is greater than `v`, else into the
    /// left one.
    pub open spec fn inserted(self, v: T) -> Tree<T>
        decreases self,
    {
        match self {
            Tree::Empty => Tree::leaf(v),
            Tree::Branch { value, left, right } => if value.cmp_spec(&v) == Ordering::Greater {
                Tree::Branch { value, left, right: Box::new(right.inserted(v)) }
            } else {
                Tree::Branch { value, left: Box::new(left.inserted(v)), right }
            },
        }
    }
}

impl<T: Ord> Tree<T> {
    /// At every node, each value of the left subtree is greater than or equal
    /// to the node's value, and the node's value is greater than each value of
    /// the right subtree.
    pub open spec fn is_search_tree(self) -> bool
        decreases self,
    {
        match self {
            Tree::Empty => true,
            Tree::Branch { value, left, right } => {
                &&& forall|x: T| #[trigger] left.preorder().contains(x) ==> value.cmp_spec(&x) != Ordering::Greater
                &&& forall|x: T| #[trigger] right.preorder().contains(x) ==> value.cmp_spec(&x) == Ordering::Greater
                &&& left.is_search_tree()
                &&& right.is_search_tree()
            },
        }
    }
}

/// Insertion keeps the search-tree order of a tree.
pub proof fn lemma_inserted_keeps_order<T: Ord>(t: Tree<T>, v: T)
    requires
        t.is_search_tree(),
    ensures
        t.inserted(v).is_search_tree(),
    decreases t,
{
    broadcast use vstd::seq_lib::group_to_multiset_ensures;

    match t {
        Tree::Empty => {
            assert(Tree::<T>::Empty.preorder() =~= Seq::<T>::empty());
        },
        Tree::Branch { value, left, right } => {
            if value.cmp_spec(&v) == Ordering::Greater {
                lemma_inserted_keeps_order(*right, v);
                lemma_inserted_adds_value(*right, v);
                assert forall|x: T| #[trigger] right.inserted(v).preorder().contains(x) implies value.cmp_spec(&x)
                    == Ordering::Greater by {
                    assert(right.inserted(v).preorder().to_multiset().count(x) > 0);
                    if x != v {
                        assert(right.preorder().to_multiset().count(x) > 0);
                    }
                }
            } else {
                lemma_inserted_keeps_order(*left, v);
                lemma_inserted_adds_value(*left, v);
                assert forall|x: T| #[trigger] left.inserted(v).preorder().contains(x) implies value.cmp_spec(&x)
                    != Ordering::Greater by {
                    assert(left.inserted(v).preorder().to_multiset().count(x) > 0);
                    if x != v {
                        assert(left.preorder().to_multiset().count(x) > 0);
                    }
                }
            }
        },
    }
}

/// Inserting `v` into a tree adds `v`, and nothing else, to the values that
/// the tree holds.
pub proof fn lemma_inserted_adds_value<T: Ord>(t: Tree<T>, v: T)
    ensures
        t.inserted(v).preorder().to_multiset() =~= t.preorder().to_multiset().insert(v),
    decreases t,
{
    broadcast use vstd::seq_lib::lemma_multiset_commutative, vstd::seq_lib::group_to_multiset_ensures;

    match t {
        Tree::Empty => {
            assert(t.inserted(v).preorder() =~= Seq::<T>::empty().push(v));
        },
        Tree::Branch { value, left, right } => {
            let e = seq![value];
            if value.cmp_spec(&v) == Ordering::Greater {
                lemma_inserted_adds_value(*right, v);
                assert(t.inserted(v).preorder() =~= e + left.preorder() + right.inserted(v).preorder());
            } else {
                lemma_inserted_adds_value(*left, v);
                assert(t.inserted(v).preorder() =~= e + left.inserted(v).preorder() + right.preorder());
            }
        },
    }
}

/// The tree that a chain of nodes forms.
spec fn link_model<T>(link: Link<T>) -> Tree<T>
    decreases link,
{
    match link {
        None => Tree::Empty,
        Some(node) => node_model(*node),
    }
}

/// The tree rooted at `node`.
spec fn node_model<T>(node: Node<T>) -> Tree<T>
    decreases node,
{
    Tree::Branch {
        value: node.elem,
        left: Box::new(link_model(node.left)),
        right: Box::new(link_model(node.right)),
    }
}

/// How the walks of a node's subtree are made of its value and the walks of
/// its two children.
proof fn lemma_node_walks<T>(node: Node<T>)
    ensures
        node_model(node) == (Tree::Branch {
            value: node.elem,
            left: Box::new(link_model(node.left)),
            right: Box::new(link_model(node.right)),
        }),
        node_model(node).preorder() == seq![node.elem] + link_model(node.left).preorder()
            + link_model(node.right).preorder(),
        node_model(node).inorder() == link_model(node.left).inorder() + seq![node.elem]
            + link_model(node.right).inorder(),
        node_model(node).postorder() == link_model(node.left).postorder()
            + link_model(node.right).postorder() + seq![node.elem],
        node.left is None ==> link_model(node.left) == Tree::<T>::Empty,
        node.right is None ==> link_model(node.right) == Tree::<T>::Empty,
        node.left is Some ==> link_model(node.left) == node_model(*node.left->0),
        node.right is Some ==> link_model(node.right) == node_model(*node.right->0),
{
    let m = node_model(node);
    assert(m == Tree::Branch {
        value: node.elem,
        left: Box::new(link_model(node.left)),
        right: Box::new(link_model(node.right)),
    });
}

impl<T> View for Node<T> {
    type V = Tree<T>;

    /// The subtree rooted at this node.
    closed spec fn view(&self) -> Tree<T> {
        node_model(*self)
    }
}

impl<T> View for BinaryTree<T> {
    type V = Tree<T>;

    /// The whole tree; `Tree::Empty` when it holds nothing.
    closed spec fn view(&self) -> Tree<T> {
        link_model(self.root)
    }
}

/// The values that a sequence of views points at.
pub open spec fn targets<T>(s: Seq<&T>) -> Seq<T> {
    s.map_values(|r: &T| *r)
}

impl<T: Ord> Node<T> {
    /// A node holding `value`, with no children.
    pub fn new(value: T) -> (r: Self)
        ensures
            r@ == Tree::leaf(value),
            r@.is_search_tree(),
    {
        let r = Node { elem: value, left: None, right: None };
        proof {
            lemma_node_walks(r);
            let e = Tree::<T>::Empty;
            assert(e.preorder() =~= Seq::<T>::empty());
            assert forall|x: T| !(#[trigger] e.preorder().contains(x)) by {}
            assert(e.is_search_tree());
            assert(r@.is_search_tree());
        }
        r
    }

    /// Adds `value` as a new leaf of this subtree, where the descent rule leads.
    pub fn insert(&mut self, value: T)
        requires
            T::obeys_cmp_spec(),
        ensures
            final(self)@ == old(self)@.inserted(value),
            final(self)@.preorder().to_multiset() =~= old(self)@.preorder().to_multiset().insert(value),
            old(self)@.is_search_tree() ==> final(self)@.is_search_tree(),
        decreases *old(self),
    {
        proof {
            lemma_inserted_adds_value(self@, value);
            if self@.is_search_tree() {
                lemma_inserted_keeps_order(self@, value);
            }
            lemma_node_walks(*self);
        }
        match self.elem.cmp(&value) {
            Ordering::Greater => {
                match &mut self.right {
                    None => self.right = Some(Box::new(Node::new(value))),
                    Some(node) => (*node).insert(value),
                }
                proof {
                    assert(link_model(self.right) == link_model(old(self).right).inserted(value));
                    lemma_node_walks(*old(self));
                }
            },
            Ordering::Less | Ordering::Equal => {
                match &mut self.left {
                    None => self.left = Some(Box::new(Node::new(value))),
                    Some(node) => (*node).insert(value),
                }
                proof {
                    assert(link_model(self.left) == link_model(old(self).left).inserted(value));
                    lemma_node_walks(*old(self));
                }
            },
        }
        proof {
            lemma_node_walks(*self);
        }
    }
}

impl<T> Node<T> {
    /// Appends views of this subtree's values to `out`, in pre-order.
    fn push_preorder<'a>(&'a self, out: &mut Vec<&'a T>)
        ensures
            targets(final(out)@) == targets(old(out)@) + self@.preorder(),
        decreases *self,
    {
        proof {
            lemma_node_walks(*self);
        }
        out.push(&self.elem);
        proof {
            assert(targets(out@) =~= targets(old(out)@) + seq![self.elem]);
        }
        match &self.left {
            None => {},
            Some(node) => node.push_preorder(out),
        }
        match &self.right {
            None => {},
            Some(node) => node.push_preorder(out),
        }
        proof {
            assert(targets(out@) =~= targets(old(out)@) + self@.preorder());
        }
    }

    /// Appends views of this subtree's values to `out`, in in-order.
    fn push_inorder<'a>(&'a self, out: &mut Vec<&'a T>)
        ensures
            targets(final(out)@) == targets(old(out)@) + self@.inorder(),
        decreases *self,
    {
        proof {
            lemma_node_walks(*self);
        }
        let ghost before = targets(out@);
        match &self.left {
            None => {},
            Some(node) => node.push_inorder(out),
        }
        let ghost mid = targets(out@);
        out.push(&self.elem);
        proof {
            assert(targets(out@) =~= mid + seq![self.elem]);
        }
        match &self.right {
            None => {},
            Some(node) => node.push_inorder(out),
        }
        proof {
            assert(targets(out@) =~= before + self@.inorder());
        }
    }

    /// Appends views of this subtree's values to `out`, in post-order.
    fn push_postorder<'a>(&'a self, out: &mut Vec<&'a T>)
        ensures
            targets(final(out)@) == targets(old(out)@) + self@.postorder(),
        decreases *self,
    {
        proof {
            lemma_node_walks(*self);
        }
        let ghost before = targets(out@);
        match &self.left {
            None => {},
            Some(node) => node.push_postorder(out),
        }
        match &self.right {
            None => {},
            Some(node) => node.push_postorder(out),
        }
        let ghost mid = targets(out@);
        out.push(&self.elem);
        proof {
            assert(targets(out@) =~= mid + seq![self.elem]);
            assert(targets(out@) =~= before + self@.postorder());
        }
    }

    /// Views of this subtree's values: the node, then its left subtree, then
    /// its right subtree.
    pub fn preorder(&self) -> (r: Vec<&T>)
        ensures
            targets(r@) == self@.preorder(),
    {
        let mut out: Vec<&T> = Vec::new();
        self.push_preorder(&mut out);
        proof {
            assert(targets(Seq::<&T>::empty()) =~= Seq::<T>::empty());
        }
        out
    }

    /// Views of this subtree's values: its left subtree, the node, then its
    /// right subtree.
    pub fn inorder(&self) -> (r: Vec<&T>)
        ensures
            targets(r@) == self@.inorder(),
    {
        let mut out: Vec<&T> = Vec::new();
        self.push_inorder(&mut out);
        proof {
            assert(targets(Seq::<&T>::empty()) =~= Seq::<T>::empty());
        }
        out
    }

    /// Views of this subtree's values: its left subtree, its right subtree,
    /// then the node.
    pub fn postorder(&self) -> (r: Vec<&T>)
        ensures
            targets(r@) == self@.postorder(),
    {
        let mut out: Vec<&T> = Vec::new();
        self.push_postorder(&mut out);
        proof {
            assert(targets(Seq::<&T>::empty()) =~= Seq::<T>::empty());
        }
        out
    }
}

impl<T: Ord> BinaryTree<T> {
    /// An empty tree.
    pub fn new() -> (r: Self)
        ensures
            r@ == Tree::<T>::Empty,
            r@.is_search_tree(),
    {
        Self { root: None }
    }

    /// Adds `elem` as a new leaf, where the descent rule leads from the root;
    /// into an empty tree, as its root.
    pub fn insert(&mut self, elem: T)
        requires
            T::obeys_cmp_spec(),
        ensures
            final(self)@ == old(self)@.inserted(elem),
            final(self)@.preorder().to_multiset() =~= old(self)@.preorder().to_multiset().insert(elem),
            old(self)@.is_search_tree() ==> final(self)@.is_search_tree(),
    {
        proof {
            lemma_inserted_adds_value(self@, elem);
            if self@.is_search_tree() {
                lemma_inserted_keeps_order(self@, elem);
            }
        }
        match &mut self.root {
            None => {
                let new_node = Box::new(Node { elem: elem, left: None, right: None });
                self.root = Some(new_node);
            },
            Some(node) => {
                node.insert(elem);
            },
        }
    }
}

impl<T> BinaryTree<T> {
    /// Views of the tree's values in pre-order: each node before its left
    /// subtree, and that before its right subtree.
    pub fn preorder(&self) -> (r: Vec<&T>)
        ensures
            targets(r@) == self@.preorder(),
    {
        match &self.root {
            None => {
                let out: Vec<&T> = Vec::new();
                proof {
                    assert(targets(out@) =~= Seq::<T>::empty());
                }
                out
            },
            Some(node) => node.preorder(),
        }
    }

    /// Views of the tree's values in in-order: each node's left subtree, then
    /// the node, then its right subtree.
    pub fn inorder(&self) -> (r: Vec<&T>)
        ensures
            targets(r@) == self@.inorder(),
    {
        match &self.root {
            None => {
                let out: Vec<&T> = Vec::new();
                proof {
                    assert(targets(out@) =~= Seq::<T>::empty());
                }
                out
            },
            Some(node) => node.inorder(),
        }
    }

    /// Views of the tree's values in post-order: each node's left subtree,
    /// then its right subtree, then the node.
    pub fn postorder(&self) -> (r: Vec<&T>)
        ensures
            targets(r@) == self@.postorder(),
    {
        match &self.root {
            None => {
                let out: Vec<&T> = Vec::new();
                proof {
                    assert(targets(out@) =~= Seq::<T>::empty());
                }
                out
            },
            Some(node) => node.postorder(),
        }
    }
}

} // verus!
