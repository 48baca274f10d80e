use vstd::prelude::*;

verus! {

/// A node of a binary search tree over `i32` values.
///
/// `metadata` holds the heights of the left and right subtrees: an absent
/// child counts 0, a present one counts one more than the larger of its own
/// two recorded heights.
#[derive(Debug, PartialEq, Eq)]
pub struct BinaryTree {
    pub metadata: (i8, i8),
    pub value: i32,
    pub left: Option<Box<BinaryTree>>,
    pub right: Option<Box<BinaryTree>>,
}

/// A binary tree whose nodes are kept height-balanced on insertion.
pub type AvlTree = BinaryTree;

pub open spec fn larger(a: int, b: int) -> int {
    if a >= b {
        a
    } else {
        b
    }
}

/// The height a parent records for a child link, read off the child's own
/// metadata: 0 when absent, else one more than the child's larger side.
pub open spec fn link_meta(t: Option<Box<BinaryTree>>) -> int {
    match t {
        None => 0,
        Some(n) => larger(n.metadata.0 as int, n.metadata.1 as int) + 1,
    }
}

/// The true height of a child link, counting the link itself.
pub open spec fn link_height(t: Option<Box<BinaryTree>>) -> int
    decreases t,
{
    match t {
        None => 0,
        Some(n) => n.height() + 1,
    }
}

pub open spec fn link_values(t: Option<Box<BinaryTree>>) -> Set<i32>
    decreases t,
{
    match t {
        None => Set::empty(),
        Some(n) => n.values(),
    }
}

pub open spec fn link_ordered(t: Option<Box<BinaryTree>>) -> bool
    decreases t,
{
    match t {
        None => true,
        Some(n) => n.ordered(),
    }
}

pub open spec fn link_meta_ok(t: Option<Box<BinaryTree>>) -> bool
    decreases t,
{
    match t {
        None => true,
        Some(n) => n.meta_ok(),
    }
}

pub open spec fn link_balanced(t: Option<Box<BinaryTree>>) -> bool
    decreases t,
{
    match t {
        None => true,
        Some(n) => n.balanced(),
    }
}

pub open spec fn link_nodes(t: Option<Box<BinaryTree>>) -> Seq<BinaryTree>
    decreases t,
{
    match t {
        None => Seq::empty(),
        Some(n) => n.nodes(),
    }
}

/// A tree of one node.
pub open spec fn leaf(v: i32) -> BinaryTree {
    BinaryTree { metadata: (0, 0), value: v, left: None, right: None }
}

impl BinaryTree {
    /// Number of edges on the longest downward path from this node.
    pub open spec fn height(self) -> int
        decreases self,
    {
        larger(link_height(self.left), link_height(self.right))
    }

    /// The set of values stored in this tree.
    pub open spec fn values(self) -> Set<i32>
        decreases self,
    {
        link_values(self.left).union(link_values(self.right)).insert(self.value)
    }

    /// Every value to the left of a node is smaller than it, every value to
    /// the right greater, at every node.
    pub open spec fn ordered(self) -> bool
        decreases self,
    {
        &&& forall|x: i32| #[trigger] link_values(self.left).contains(x) ==> x < self.value
        &&& forall|x: i32| #[trigger] link_values(self.right).contains(x) ==> x > self.value
        &&& link_ordered(self.left)
        &&& link_ordered(self.right)
    }

    /// At every node the metadata is what `fix_metadata` computes from the
    /// children.
    pub open spec fn meta_ok(self) -> bool
        decreases self,
    {
        &&& self.metadata.0 as int == link_meta(self.left)
        &&& self.metadata.1 as int == link_meta(self.right)
        &&& link_meta_ok(self.left)
        &&& link_meta_ok(self.right)
    }

    /// The two recorded heights differ by at most one.
    pub open spec fn balanced_here(self) -> bool {
        -1 <= self.metadata.0 - self.metadata.1 <= 1
    }

    /// At every node the two recorded heights differ by at most one.
    pub open spec fn balanced(self) -> bool
        decreases self,
    {
        &&& self.balanced_here()
        &&& link_balanced(self.left)
        &&& link_balanced(self.right)
    }

    /// A well-formed AVL tree: ordered, with exact metadata, balanced.
    pub open spec fn wf(self) -> bool {
        self.ordered() && self.meta_ok() && self.balanced()
    }

    /// The nodes in depth-first order: the node itself, then its right
    /// subtree, then its left subtree.
    pub open spec fn nodes(self) -> Seq<BinaryTree>
        decreases self,
    {
        seq![self].add(link_nodes(self.right)).add(link_nodes(self.left))
    }

    /// `fix_metadata` stays within `i8`.
    pub open spec fn fix_ok(self) -> bool {
        link_meta(self.left) <= 127 && link_meta(self.right) <= 127
    }

    /// This node with its metadata recomputed from its children.
    pub open spec fn fixed(self) -> BinaryTree {
        BinaryTree {
            metadata: (link_meta(self.left) as i8, link_meta(self.right) as i8),
            value: self.value,
            left: self.left,
            right: self.right,
        }
    }

    /// A tree holding `v` alone.
    pub fn new(v: i32) -> (r: BinaryTree)
        ensures
            r == leaf(v),
            r.wf(),
            r.values() == set![v],
    {
        BinaryTree { metadata: (0, 0), value: v, left: None, right: None }
    }

    fn collect<'a>(&'a self, out: &mut Vec<&'a BinaryTree>)
        ensures
            final(out)@.map_values(|n: &BinaryTree| *n) == old(out)@.map_values(
                |n: &BinaryTree| *n,
            ) + self.nodes(),
        decreases self,
    {
        out.push(self);
        if let Some(r) = &self.right {
            r.collect(out);
        }
        if let Some(l) = &self.left {
            l.collect(out);
        }
    }

    /// Every node of the tree, depth first, each exactly once.
    pub fn iter(&self) -> (r: Vec<&BinaryTree>)
        ensures
            r@.map_values(|n: &BinaryTree| *n) == self.nodes(),
    {
        let mut out: Vec<&BinaryTree> = Vec::new();
        self.collect(&mut out);
        out
    }
}

impl AvlTree {
    /// Recomputes this node's metadata from its children's metadata.
    pub fn fix_metadata(&mut self)
        requires
            old(self).fix_ok(),
        ensures
            *final(self) == old(self).fixed(),
    {
        let l: i8 = match &self.left {
            Some(n) => {
                if n.metadata.0 >= n.metadata.1 {
                    n.metadata.0 + 1
                } else {
                    n.metadata.1 + 1
                }
            },
            None => 0,
        };
        let r: i8 = match &self.right {
            Some(n) => {
                if n.metadata.0 >= n.metadata.1 {
                    n.metadata.0 + 1
                } else {
                    n.metadata.1 + 1
                }
            },
            None => 0,
        };
        self.metadata = (l, r);
    }
}

} // verus!
