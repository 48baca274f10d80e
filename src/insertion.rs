use vstd::prelude::*;
use crate::proofs::{lemma_left_heavy, lemma_meta_height, lemma_right_heavy};
use crate::tree::{
    AvlTree, BinaryTree, larger, leaf, link_balanced, link_height, link_meta, link_meta_ok, link_ordered,
    link_values,
};

verus! {

/// The tree that a child link leads to once `v` is inserted there: a new
/// leaf where the link is absent.
pub open spec fn link_inserted(t: Option<Box<BinaryTree>>, v: i32) -> BinaryTree
    decreases t,
{
    match t {
        None => leaf(v),
        Some(n) => n.inserted(v),
    }
}

impl BinaryTree {
    /// This node once `v` has gone down into the subtree on its side, before
    /// this node's own metadata is brought up to date.
    pub open spec fn descended(self, v: i32) -> BinaryTree
        decreases self, 0int,
    {
        if v < self.value {
            self.with_left(link_inserted(self.left, v))
        } else {
            self.with_right(link_inserted(self.right, v))
        }
    }

    /// The tree after inserting `v`: unchanged when `v` is already at this
    /// node; otherwise `v` goes down on its side, then this node's metadata
    /// is updated, its balance repaired, and its metadata fixed again.
    pub open spec fn inserted(self, v: i32) -> BinaryTree
        decreases self, 1int,
    {
        if v == self.value {
            self
        } else {
            self.descended(v).fixed().rebalanced().fixed()
        }
    }
}

impl AvlTree {
    fn recorded_height(&self) -> (r: i8)
        ensures
            r as int == larger(self.metadata.0 as int, self.metadata.1 as int),
    {
        if self.metadata.0 >= self.metadata.1 {
            self.metadata.0
        } else {
            self.metadata.1
        }
    }

    /// Inserts `new_value`, keeping the tree ordered, its metadata exact and
    /// every node balanced. A value already present leaves the tree exactly
    /// as it was. Returns by how much the height of the tree grew: 0 or 1.
    ///
    /// The recorded heights are `i8`, so the tree must be below height 127;
    /// by `lemma_height_logarithmic` that takes more than 2^63 values.
    pub fn insert(&mut self, new_value: i32) -> (r: i8)
        requires
            old(self).wf(),
            old(self).height() < 127,
        ensures
            *final(self) == old(self).inserted(new_value),
            final(self).ordered(),
            final(self).meta_ok(),
            final(self).balanced(),
            final(self).values() == old(self).values().insert(new_value),
            old(self).values().contains(new_value) ==> *final(self) == *old(self),
            r as int == final(self).height() - old(self).height(),
            0 <= r <= 1,
        decreases *old(self),
    {
        let ghost t = *self;
        proof {
            lemma_inserted(t, new_value);
            lemma_meta_height(t);
            lemma_meta_height(t.inserted(new_value));
        }
        if new_value == self.value {
            return 0;
        }
        let before = self.recorded_height();
        if new_value < self.value {
            match self.left.take() {
                Some(mut l) => {
                    proof {
                        assert(l.wf());
                        lemma_meta_height(*l);
                    }
                    let incr = (&mut *l).insert(new_value);
                    proof {
                        lemma_meta_height(*l);
                    }
                    self.left = Some(l);
                    self.metadata.0 = self.metadata.0 + incr;
                },
                None => {
                    self.left = Some(Box::new(BinaryTree::new(new_value)));
                    self.metadata.0 = self.metadata.0 + 1;
                },
            }
        } else {
            match self.right.take() {
                Some(mut r) => {
                    proof {
                        assert(r.wf());
                        lemma_meta_height(*r);
                    }
                    let incr = (&mut *r).insert(new_value);
                    proof {
                        lemma_meta_height(*r);
                    }
                    self.right = Some(r);
                    self.metadata.1 = self.metadata.1 + incr;
                },
                None => {
                    self.right = Some(Box::new(BinaryTree::new(new_value)));
                    self.metadata.1 = self.metadata.1 + 1;
                },
            }
        }
        assert(*self == t.descended(new_value).fixed());
        self.balance();
        self.fix_metadata();
        let after = self.recorded_height();
        after - before
    }
}

/// Inserting into a well-formed tree of height below 127 gives a well-formed
/// tree holding one more value (or the same tree, when the value was there),
/// at most one level taller, and unevenly balanced at the root when it grew.
pub proof fn lemma_inserted(t: BinaryTree, v: i32)
    requires
        t.wf(),
        t.height() < 127,
    ensures
        t.inserted(v).wf(),
        t.inserted(v).values() == t.values().insert(v),
        t.height() <= t.inserted(v).height() <= t.height() + 1,
        t.inserted(v).height() > t.height() ==> t.inserted(v).metadata.0
            != t.inserted(v).metadata.1,
        t.values().contains(v) ==> t.inserted(v) == t,
        v != t.value ==> {
            &&& t.descended(v).fix_ok()
            &&& t.descended(v).fixed().can_rebalance()
            &&& t.descended(v).fixed().rebalanced().fix_ok()
        },
    decreases t,
{
    if v < t.value {
        match t.left {
            None => {
                assert(leaf(v).values() =~= link_values(t.left).insert(v));
            },
            Some(n) => {
                assert(n.wf());
                lemma_meta_height(t);
                lemma_inserted(*n, v);
            },
        }
        lemma_step_left(t, v);
    } else if v > t.value {
        match t.right {
            None => {
                assert(leaf(v).values() =~= link_values(t.right).insert(v));
            },
            Some(n) => {
                assert(n.wf());
                lemma_meta_height(t);
                lemma_inserted(*n, v);
            },
        }
        lemma_step_right(t, v);
    }
}

/// One step of insertion on the left side, given what insertion did below.
proof fn lemma_step_left(t: BinaryTree, v: i32)
    requires
        t.wf(),
        t.height() < 127,
        v < t.value,
        link_inserted(t.left, v).wf(),
        link_inserted(t.left, v).values() == link_values(t.left).insert(v),
        link_height(t.left) <= link_inserted(t.left, v).height() + 1 <= link_height(t.left) + 1,
        link_inserted(t.left, v).height() + 1 > link_height(t.left) && link_inserted(t.left, v).height()
            > 0 ==> link_inserted(t.left, v).metadata.0 != link_inserted(t.left, v).metadata.1,
        link_values(t.left).contains(v) ==> t.left == Some(Box::new(link_inserted(t.left, v))),
    ensures
        t.inserted(v).wf(),
        t.inserted(v).values() == t.values().insert(v),
        t.height() <= t.inserted(v).height() <= t.height() + 1,
        t.inserted(v).height() > t.height() ==> t.inserted(v).metadata.0
            != t.inserted(v).metadata.1,
        t.values().contains(v) ==> t.inserted(v) == t,
        v != t.value ==> {
            &&& t.descended(v).fix_ok()
            &&& t.descended(v).fixed().can_rebalance()
            &&& t.descended(v).fixed().rebalanced().fix_ok()
        },
{
    lemma_meta_height(t);
    assert(link_ordered(t.left) && link_ordered(t.right));
    assert(link_meta_ok(t.left) && link_meta_ok(t.right));
    assert(link_balanced(t.left) && link_balanced(t.right));
    let c = link_inserted(t.left, v);
    lemma_meta_height(c);
    if link_values(t.right).contains(v) {
        assert(v > t.value);
    }
    if t.values().contains(v) {
        assert(link_values(t.left).contains(v));
        assert(t.descended(v) == t.with_left(c));
        assert(t.descended(v).fixed() == t);
    }
    let d = t.descended(v);
    let s = d.fixed();
    assert(link_values(d.left) == c.values());
    assert forall|x: i32| #[trigger] link_values(s.left).contains(x) implies x < s.value by {
        if x != v {
            assert(link_values(t.left).contains(x));
        }
    }
    assert(s.ordered());
    assert(s.values() =~= t.values().insert(v));
    if s.difference() == 2 {
        lemma_left_heavy(s);
    } else {
        assert(s.wf());
    }
}

/// One step of insertion on the right side, given what insertion did below.
proof fn lemma_step_right(t: BinaryTree, v: i32)
    requires
        t.wf(),
        t.height() < 127,
        v > t.value,
        link_inserted(t.right, v).wf(),
        link_inserted(t.right, v).values() == link_values(t.right).insert(v),
        link_height(t.right) <= link_inserted(t.right, v).height() + 1 <= link_height(t.right) + 1,
        link_inserted(t.right, v).height() + 1 > link_height(t.right) && link_inserted(t.right, v).height()
            > 0 ==> link_inserted(t.right, v).metadata.0 != link_inserted(t.right, v).metadata.1,
        link_values(t.right).contains(v) ==> t.right == Some(Box::new(link_inserted(t.right, v))),
    ensures
        t.inserted(v).wf(),
        t.inserted(v).values() == t.values().insert(v),
        t.height() <= t.inserted(v).height() <= t.height() + 1,
        t.inserted(v).height() > t.height() ==> t.inserted(v).metadata.0
            != t.inserted(v).metadata.1,
        t.values().contains(v) ==> t.inserted(v) == t,
        v != t.value ==> {
            &&& t.descended(v).fix_ok()
            &&& t.descended(v).fixed().can_rebalance()
            &&& t.descended(v).fixed().rebalanced().fix_ok()
        },
{
    lemma_meta_height(t);
    assert(link_ordered(t.left) && link_ordered(t.right));
    assert(link_meta_ok(t.left) && link_meta_ok(t.right));
    assert(link_balanced(t.left) && link_balanced(t.right));
    let c = link_inserted(t.right, v);
    lemma_meta_height(c);
    if link_values(t.left).contains(v) {
        assert(v < t.value);
    }
    if t.values().contains(v) {
        assert(link_values(t.right).contains(v));
        assert(t.descended(v) == t.with_right(c));
        assert(t.descended(v).fixed() == t);
    }
    let d = t.descended(v);
    let s = d.fixed();
    assert(link_values(d.right) == c.values());
    assert forall|x: i32| #[trigger] link_values(s.right).contains(x) implies x > s.value by {
        if x != v {
            assert(link_values(t.right).contains(x));
        }
    }
    assert(s.ordered());
    assert(s.values() =~= t.values().insert(v));
    if s.difference() == -2 {
        lemma_right_heavy(s);
    } else {
        assert(s.wf());
    }
}

} // verus!
