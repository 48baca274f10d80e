use vstd::prelude::*;
use crate::tree::{
    BinaryTree, larger, link_balanced, link_height, link_meta, link_meta_ok, link_ordered,
    link_values,
};

verus! {

/// With exact metadata, the recorded heights are the true heights.
pub proof fn lemma_meta_height(t: BinaryTree)
    requires
        t.meta_ok(),
    ensures
        t.metadata.0 as int == link_height(t.left),
        t.metadata.1 as int == link_height(t.right),
        t.height() == larger(t.metadata.0 as int, t.metadata.1 as int),
        t.height() >= 0,
        link_height(t.left) >= 0,
        link_height(t.right) >= 0,
    decreases t,
{
    if let Some(l) = t.left {
        lemma_meta_height(*l);
    }
    if let Some(r) = t.right {
        lemma_meta_height(*r);
    }
}

/// A right rotation keeps the values and the ordering, and leaves exact
/// metadata where the three subtrees it moves had them.
pub proof fn lemma_rotate_right(t: BinaryTree)
    requires
        t.can_rotate_right(),
        t.ordered(),
        link_meta_ok(t.left.unwrap().left),
        link_meta_ok(t.left.unwrap().right),
        link_meta_ok(t.right),
    ensures
        t.rotated_right().values() == t.values(),
        t.rotated_right().ordered(),
        t.rotated_right().meta_ok(),
{
    let l = *t.left.unwrap();
    let lowered = t.right_rotation_lowered().fixed();
    let r = t.rotated_right();
    assert(link_values(t.left) == l.values());
    assert(link_ordered(t.left));
    assert(l.ordered());
    assert(lowered.values() =~= link_values(l.right).union(link_values(t.right)).insert(t.value));
    assert(r.values() =~= t.values());
    assert(link_ordered(l.left) && link_ordered(l.right));
    assert forall|x: i32| #[trigger] link_values(lowered.left).contains(x) implies x < lowered.value by {
        assert(l.values().contains(x));
    }
    assert(lowered.ordered());
    assert(lowered.meta_ok());
    assert forall|x: i32| #[trigger] link_values(r.right).contains(x) implies x > r.value by {
        assert(link_values(r.right) == lowered.values());
        assert(l.values().contains(l.value));
    }
}

/// A left rotation keeps the values and the ordering, and leaves exact
/// metadata where the three subtrees it moves had them.
pub proof fn lemma_rotate_left(t: BinaryTree)
    requires
        t.can_rotate_left(),
        t.ordered(),
        link_meta_ok(t.right.unwrap().left),
        link_meta_ok(t.right.unwrap().right),
        link_meta_ok(t.left),
    ensures
        t.rotated_left().values() == t.values(),
        t.rotated_left().ordered(),
        t.rotated_left().meta_ok(),
{
    let rc = *t.right.unwrap();
    let lowered = t.left_rotation_lowered().fixed();
    let r = t.rotated_left();
    assert(link_values(t.right) == rc.values());
    assert(link_ordered(t.right));
    assert(rc.ordered());
    assert(lowered.values() =~= link_values(t.left).union(link_values(rc.left)).insert(t.value));
    assert(r.values() =~= t.values());
    assert(link_ordered(rc.left) && link_ordered(rc.right));
    assert forall|x: i32| #[trigger] link_values(lowered.right).contains(x) implies x > lowered.value by {
        assert(rc.values().contains(x));
    }
    assert(lowered.ordered());
    assert(lowered.meta_ok());
    assert forall|x: i32| #[trigger] link_values(r.left).contains(x) implies x < r.value by {
        assert(link_values(r.left) == lowered.values());
        assert(rc.values().contains(rc.value));
    }
}

/// A node whose left side records two more than its right, just after its
/// left subtree grew by one through an insertion (so that subtree is not
/// evenly balanced), is repaired by `balance` into a well-formed tree one
/// level lower, with the same values.
pub proof fn lemma_left_heavy(s: BinaryTree)
    requires
        s.left is Some,
        s.ordered(),
        link_meta_ok(s.left),
        link_meta_ok(s.right),
        link_balanced(s.left),
        link_balanced(s.right),
        s.metadata.0 as int == link_meta(s.left),
        s.metadata.1 as int == link_meta(s.right),
        s.difference() == 2,
        s.left.unwrap().metadata.0 != s.left.unwrap().metadata.1,
        link_meta(s.left) <= 127,
    ensures
        s.can_rebalance(),
        s.rebalanced().wf(),
        s.rebalanced().values() == s.values(),
        s.rebalanced().height() == s.height() - 1,
        s.rebalanced().fixed() == s.rebalanced(),
{
    let h = *s.left.unwrap();
    assert(h.meta_ok() && h.balanced());
    lemma_meta_height(h);
    assert(link_meta_ok(h.left) && link_meta_ok(h.right));
    if let Some(c) = s.right {
        lemma_meta_height(*c);
    }
    if let Some(a) = h.left {
        lemma_meta_height(*a);
    }
    if h.leans_right() {
        let b = *h.right.unwrap();
        lemma_meta_height(b);
        assert(b.balanced());
        assert(b.meta_ok());
        if let Some(b1) = b.left {
            lemma_meta_height(*b1);
        }
        if let Some(b2) = b.right {
            lemma_meta_height(*b2);
        }
        assert(link_ordered(s.left));
        lemma_rotate_left(h);
        let h2 = h.rotated_left();
        let p = s.with_left(h2);
        assert(link_values(p.left) == h2.values());
        assert(link_values(s.left) == h.values());
        assert(link_ordered(p.right));
        assert forall|x: i32| #[trigger] link_values(p.left).contains(x) implies x < p.value by {
            assert(link_values(s.left).contains(x));
        }
        assert(p.ordered());
        let lowered = h.left_rotation_lowered().fixed();
        assert(lowered.balanced());
        lemma_rotate_right(p);
        let res = p.rotated_right();
        let lowered2 = p.right_rotation_lowered().fixed();
        assert(lowered2.balanced());
        assert(res.balanced());
        lemma_meta_height(res);
        assert(res.values() =~= s.values());
    } else {
        if let Some(b) = h.right {
            lemma_meta_height(*b);
        }
        assert(link_ordered(s.left));
        lemma_rotate_right(s);
        let res = s.rotated_right();
        let lowered = s.right_rotation_lowered().fixed();
        assert(lowered.balanced());
        assert(res.balanced());
        lemma_meta_height(res);
    }
}

/// A node whose right side records two more than its left, just after its
/// right subtree grew by one through an insertion (so that subtree is not
/// evenly balanced), is repaired by `balance` into a well-formed tree one
/// level lower, with the same values.
pub proof fn lemma_right_heavy(s: BinaryTree)
    requires
        s.right is Some,
        s.ordered(),
        link_meta_ok(s.right),
        link_meta_ok(s.left),
        link_balanced(s.right),
        link_balanced(s.left),
        s.metadata.1 as int == link_meta(s.right),
        s.metadata.0 as int == link_meta(s.left),
        s.difference() == -2,
        s.right.unwrap().metadata.1 != s.right.unwrap().metadata.0,
        link_meta(s.right) <= 127,
    ensures
        s.can_rebalance(),
        s.rebalanced().wf(),
        s.rebalanced().values() == s.values(),
        s.rebalanced().height() == s.height() - 1,
        s.rebalanced().fixed() == s.rebalanced(),
{
    let h = *s.right.unwrap();
    assert(h.meta_ok() && h.balanced());
    lemma_meta_height(h);
    assert(link_meta_ok(h.right) && link_meta_ok(h.left));
    if let Some(c) = s.left {
        lemma_meta_height(*c);
    }
    if let Some(a) = h.right {
        lemma_meta_height(*a);
    }
    if h.leans_left() {
        let b = *h.left.unwrap();
        lemma_meta_height(b);
        assert(b.balanced());
        assert(b.meta_ok());
        if let Some(b2) = b.right {
            lemma_meta_height(*b2);
        }
        if let Some(b1) = b.left {
            lemma_meta_height(*b1);
        }
        assert(link_ordered(s.right));
        lemma_rotate_right(h);
        let h2 = h.rotated_right();
        let p = s.with_right(h2);
        assert(link_values(p.right) == h2.values());
        assert(link_values(s.right) == h.values());
        assert(link_ordered(p.left));
        assert forall|x: i32| #[trigger] link_values(p.right).contains(x) implies x > p.value by {
            assert(link_values(s.right).contains(x));
        }
        assert(p.ordered());
        let lowered = h.right_rotation_lowered().fixed();
        assert(lowered.balanced());
        lemma_rotate_left(p);
        let res = p.rotated_left();
        let lowered2 = p.left_rotation_lowered().fixed();
        assert(lowered2.balanced());
        assert(res.balanced());
        lemma_meta_height(res);
        assert(res.values() =~= s.values());
    } else {
        if let Some(b) = h.left {
            lemma_meta_height(*b);
        }
        assert(link_ordered(s.right));
        lemma_rotate_left(s);
        let res = s.rotated_left();
        let lowered = s.left_rotation_lowered().fixed();
        assert(lowered.balanced());
        assert(res.balanced());
        lemma_meta_height(res);
    }
}

} // verus!
