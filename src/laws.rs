use vstd::prelude::*;
use crate::insertion::lemma_inserted;
use crate::proofs::lemma_meta_height;
use vstd::arithmetic::power2::{lemma_pow2_unfold, pow2};
use crate::tree::{BinaryTree, link_meta_ok, link_ordered, link_values, link_balanced};

verus! {

/// Inserting a value that a well-formed tree already holds changes nothing.
pub proof fn lemma_insert_present(t: BinaryTree, v: i32)
    requires
        t.wf(),
        t.values().contains(v),
    ensures
        t.inserted(v) == t,
    decreases t,
{
    assert(link_ordered(t.left) && link_ordered(t.right));
    assert(link_meta_ok(t.left) && link_meta_ok(t.right));
    assert(link_balanced(t.left) && link_balanced(t.right));
    if v < t.value {
        if link_values(t.right).contains(v) {
            assert(v > t.value);
        }
        let n = *t.left.unwrap();
        lemma_insert_present(n, v);
        assert(t.descended(v) == t);
    } else if v > t.value {
        if link_values(t.left).contains(v) {
            assert(v < t.value);
        }
        let n = *t.right.unwrap();
        lemma_insert_present(n, v);
        assert(t.descended(v) == t);
    }
}

/// Inserting the same value twice gives the same tree as inserting it once.
pub proof fn lemma_insert_idempotent(t: BinaryTree, v: i32)
    requires
        t.wf(),
        t.height() < 127,
    ensures
        t.inserted(v).inserted(v) == t.inserted(v),
{
    lemma_inserted(t, v);
    lemma_insert_present(t.inserted(v), v);
}

/// The values of a tree form a finite set.
pub proof fn lemma_values_finite(t: BinaryTree)
    ensures
        t.values().finite(),
    decreases t,
{
    if let Some(l) = t.left {
        lemma_values_finite(*l);
    }
    if let Some(r) = t.right {
        lemma_values_finite(*r);
    }
}

/// Inserting a value not yet present adds exactly one distinct value;
/// inserting one already present leaves the count as it was.
pub proof fn lemma_insert_size(t: BinaryTree, v: i32)
    requires
        t.wf(),
        t.height() < 127,
    ensures
        t.values().finite(),
        !t.values().contains(v) ==> t.inserted(v).values().len() == t.values().len() + 1,
        t.values().contains(v) ==> t.inserted(v).values().len() == t.values().len(),
{
    lemma_inserted(t, v);
    lemma_values_finite(t);
}

/// The fewest nodes a balanced tree of height `h` can have: one for a leaf,
/// two for height one, and beyond that the two smallest subtrees whose
/// heights differ by one, plus the root.
pub open spec fn min_nodes(h: nat) -> nat
    decreases h,
{
    if h == 0 {
        1
    } else if h == 1 {
        2
    } else {
        min_nodes((h - 1) as nat) + min_nodes((h - 2) as nat) + 1
    }
}

/// A well-formed tree of height `h` holds at least `min_nodes(h)` distinct
/// values, a count that grows exponentially with `h`: the height of an AVL
/// tree is logarithmic in its size.
pub proof fn lemma_min_size(t: BinaryTree)
    requires
        t.wf(),
    ensures
        t.values().finite(),
        t.values().len() >= min_nodes(t.height() as nat),
    decreases t,
{
    lemma_meta_height(t);
    assert(link_ordered(t.left) && link_ordered(t.right));
    assert(link_meta_ok(t.left) && link_meta_ok(t.right));
    assert(link_balanced(t.left) && link_balanced(t.right));
    let lv = link_values(t.left);
    let rv = link_values(t.right);
    let mut ln: nat = 0;
    let mut rn: nat = 0;
    if let Some(l) = t.left {
        lemma_min_size(*l);
        lemma_meta_height(*l);
        ln = min_nodes(l.height() as nat);
    }
    if let Some(r) = t.right {
        lemma_min_size(*r);
        lemma_meta_height(*r);
        rn = min_nodes(r.height() as nat);
    }
    assert(lv.disjoint(rv)) by {
        assert forall|x: i32| lv.contains(x) implies !rv.contains(x) by {
            assert(x < t.value);
        }
    }
    vstd::set_lib::lemma_set_disjoint_lens(lv, rv);
    assert(!(lv + rv).contains(t.value)) by {
        if lv.contains(t.value) {
            assert(t.value < t.value);
        }
        if rv.contains(t.value) {
            assert(t.value > t.value);
        }
    }
    assert(t.values() == (lv + rv).insert(t.value));
    assert(t.values().len() >= ln + rn + 1);
    let h = t.height() as nat;
    if h >= 2 {
        assert(min_nodes(h) == min_nodes((h - 1) as nat) + min_nodes((h - 2) as nat) + 1);
        if h >= 3 {
            assert(min_nodes((h - 1) as nat) >= min_nodes((h - 2) as nat));
        }
    }
}

/// `min_nodes(h) + 1` is at least two to the power of half of `h + 1`.
pub proof fn lemma_min_nodes_exponential(h: nat)
    ensures
        pow2((h + 1) / 2) <= min_nodes(h) + 1,
    decreases h,
{
    if h == 0 {
        vstd::arithmetic::power::lemma_pow0(2);
    } else if h == 1 {
        lemma_pow2_unfold(1);
        vstd::arithmetic::power::lemma_pow0(2);
    } else {
        lemma_min_nodes_exponential((h - 1) as nat);
        lemma_min_nodes_exponential((h - 2) as nat);
        lemma_pow2_unfold((h + 1) / 2);
        assert(((h + 1) / 2 - 1) as nat == (h - 1) / 2);
        if h >= 3 {
            assert(min_nodes((h - 1) as nat) >= min_nodes((h - 2) as nat));
        } else {
            vstd::arithmetic::power::lemma_pow0(2);
        }
    }
}

/// The height of a well-formed tree is logarithmic in its size: with `n`
/// distinct values and height `h`, `2^((h + 1) / 2) <= n + 1`, so `h` is at
/// most about `2 * log2(n + 1)`.
pub proof fn lemma_height_logarithmic(t: BinaryTree)
    requires
        t.wf(),
    ensures
        t.height() >= 0,
        pow2(((t.height() + 1) / 2) as nat) <= t.values().len() + 1,
{
    lemma_meta_height(t);
    lemma_min_size(t);
    lemma_min_nodes_exponential(t.height() as nat);
}

} // verus!
