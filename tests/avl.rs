use avl::tree::{AvlTree, BinaryTree};
use quickcheck::QuickCheck;
use rand::Rng;

fn leaf(v: i32) -> BinaryTree {
    BinaryTree { metadata: (0, 0), value: v, left: None, right: None }
}

fn build(values: &[i32]) -> AvlTree {
    let mut tree = AvlTree::new(values[0]);
    for &v in &values[1..] {
        tree.insert(v);
    }
    tree
}

fn height_of(t: &Option<Box<BinaryTree>>) -> i8 {
    match t {
        None => 0,
        Some(n) => std::cmp::max(height_of(&n.left), height_of(&n.right)) + 1,
    }
}

fn side_meta(t: &Option<Box<BinaryTree>>) -> i8 {
    match t {
        None => 0,
        Some(n) => std::cmp::max(n.metadata.0, n.metadata.1) + 1,
    }
}

fn is_ordered(t: &BinaryTree) -> bool {
    t.iter().iter().all(|n| {
        let left_ok = match &n.left {
            Some(l) => l.iter().iter().all(|m| m.value < n.value),
            None => true,
        };
        let right_ok = match &n.right {
            Some(r) => r.iter().iter().all(|m| m.value > n.value),
            None => true,
        };
        left_ok && right_ok
    })
}

fn heights_correct(t: &BinaryTree) -> bool {
    t.iter().iter().all(|n| {
        n.metadata == (side_meta(&n.left), side_meta(&n.right))
            && n.metadata == (height_of(&n.left), height_of(&n.right))
    })
}

fn is_balanced(t: &BinaryTree) -> bool {
    t.iter().iter().all(|n| {
        let d = n.metadata.0 as i16 - n.metadata.1 as i16;
        (-1..=1).contains(&d)
    })
}

fn count(t: &BinaryTree) -> usize {
    t.iter().len()
}

fn all_invariants(t: &BinaryTree) -> bool {
    is_ordered(t) && heights_correct(t) && is_balanced(t)
}

#[test]
fn new_is_a_leaf() {
    let t = AvlTree::new(7);
    assert_eq!(t, leaf(7));
}

#[test]
fn ascending_three_rotates_left_at_root() {
    let t = build(&[10, 20, 30]);
    assert_eq!(t.value, 20);
    assert_eq!(t.metadata, (1, 1));
    assert_eq!(t.left, Some(Box::new(leaf(10))));
    assert_eq!(t.right, Some(Box::new(leaf(30))));
}

#[test]
fn left_right_case_double_rotation() {
    let t = build(&[30, 10, 20]);
    assert_eq!(t, build(&[10, 20, 30]));
    assert_eq!(t.value, 20);
    assert_eq!(t.left.as_ref().unwrap().value, 10);
    assert_eq!(t.right.as_ref().unwrap().value, 30);
}

#[test]
fn right_left_case_double_rotation() {
    let t = build(&[10, 30, 20]);
    assert_eq!(t, build(&[10, 20, 30]));
}

#[test]
fn descending_three_rotates_right_at_root() {
    let t = build(&[30, 20, 10]);
    assert_eq!(t, build(&[10, 20, 30]));
}

#[test]
fn duplicate_insert_is_a_no_op() {
    let mut once = AvlTree::new(10);
    let mut twice = AvlTree::new(10);
    assert_eq!(once.insert(10), 0);
    assert_eq!(twice.insert(10), 0);
    assert_eq!(twice.insert(10), 0);
    assert_eq!(once, twice);
    assert_eq!(once, leaf(10));
}

#[test]
fn duplicate_deep_in_tree_is_a_no_op() {
    let mut a = build(&[50, 25, 75, 10, 30, 60, 90, 5]);
    let b = build(&[50, 25, 75, 10, 30, 60, 90, 5]);
    for v in [50, 25, 75, 10, 30, 60, 90, 5] {
        assert_eq!(a.insert(v), 0);
    }
    assert_eq!(a, b);
}

#[test]
fn insert_reports_growth() {
    let mut t = AvlTree::new(10);
    assert_eq!(t.insert(20), 1);
    assert_eq!(t.insert(5), 0);
    assert_eq!(t.insert(30), 1);
    // Rotation at 20 keeps the height: 10 -> (5, 20 -> (_, 30)) plus 40.
    assert_eq!(t.insert(40), 0);
    assert_eq!(t.metadata, (1, 2));
}

#[test]
fn thousand_ascending_values_stay_shallow() {
    let mut t = AvlTree::new(0);
    for v in 1..1000 {
        t.insert(v);
    }
    let n = count(&t);
    assert_eq!(n, 1000);
    let height = std::cmp::max(t.metadata.0, t.metadata.1) as f64;
    assert!(height <= 1.45 * ((n + 2) as f64).log2() - 1.33);
    assert!(all_invariants(&t));
}

#[test]
fn thousand_descending_values_stay_shallow() {
    let mut t = AvlTree::new(1000);
    for v in (1..1000).rev() {
        t.insert(v);
    }
    let n = count(&t);
    assert_eq!(n, 1000);
    let height = std::cmp::max(t.metadata.0, t.metadata.1) as f64;
    assert!(height <= 1.45 * ((n + 2) as f64).log2() - 1.33);
    assert!(all_invariants(&t));
}

#[test]
fn size_grows_by_one_for_new_values_only() {
    let mut t = AvlTree::new(0);
    for v in [5, -3, 8, 5, 0, 12, -3, 7] {
        let before = count(&t);
        let present = t.iter().iter().any(|n| n.value == v);
        t.insert(v);
        let after = count(&t);
        if present {
            assert_eq!(after, before);
        } else {
            assert_eq!(after, before + 1);
        }
    }
    assert_eq!(count(&t), 6);
}

#[test]
fn extreme_values() {
    let t = build(&[i32::MAX, i32::MIN, 0, -1, 1]);
    assert!(all_invariants(&t));
    assert_eq!(count(&t), 5);
}

#[test]
fn iter_visits_node_then_right_then_left() {
    let t = build(&[20, 10, 30, 5, 40]);
    let order: Vec<i32> = t.iter().iter().map(|n| n.value).collect();
    assert_eq!(order, vec![20, 30, 40, 10, 5]);
}

#[test]
fn fix_metadata_recomputes_from_children() {
    let mut t = BinaryTree {
        metadata: (9, 9),
        value: 10,
        left: Some(Box::new(BinaryTree {
            metadata: (1, 0),
            value: 5,
            left: Some(Box::new(leaf(1))),
            right: None,
        })),
        right: None,
    };
    t.fix_metadata();
    assert_eq!(t.metadata, (2, 0));
    let mut single = leaf(3);
    single.metadata = (4, 2);
    single.fix_metadata();
    assert_eq!(single.metadata, (0, 0));
}

#[test]
fn rotate_left_promotes_right_child() {
    let mut t = BinaryTree {
        metadata: (1, 2),
        value: 10,
        left: Some(Box::new(leaf(5))),
        right: Some(Box::new(BinaryTree {
            metadata: (1, 1),
            value: 20,
            left: Some(Box::new(leaf(15))),
            right: Some(Box::new(leaf(25))),
        })),
    };
    t.rotate_left();
    assert_eq!(t.value, 20);
    assert_eq!(t.metadata, (2, 1));
    let l = t.left.as_ref().unwrap();
    assert_eq!(l.value, 10);
    assert_eq!(l.metadata, (1, 1));
    assert_eq!(l.left, Some(Box::new(leaf(5))));
    assert_eq!(l.right, Some(Box::new(leaf(15))));
    assert_eq!(t.right, Some(Box::new(leaf(25))));
}

#[test]
fn rotate_right_promotes_left_child() {
    let mut t = BinaryTree {
        metadata: (2, 1),
        value: 20,
        left: Some(Box::new(BinaryTree {
            metadata: (1, 1),
            value: 10,
            left: Some(Box::new(leaf(5))),
            right: Some(Box::new(leaf(15))),
        })),
        right: Some(Box::new(leaf(25))),
    };
    t.rotate_right();
    assert_eq!(t.value, 10);
    assert_eq!(t.metadata, (1, 2));
    assert_eq!(t.left, Some(Box::new(leaf(5))));
    let r = t.right.as_ref().unwrap();
    assert_eq!(r.value, 20);
    assert_eq!(r.metadata, (1, 1));
    assert_eq!(r.left, Some(Box::new(leaf(15))));
    assert_eq!(r.right, Some(Box::new(leaf(25))));
}

#[test]
fn balance_left_heavy_chain() {
    let mut t = BinaryTree {
        metadata: (2, 0),
        value: 30,
        left: Some(Box::new(BinaryTree {
            metadata: (1, 0),
            value: 20,
            left: Some(Box::new(leaf(10))),
            right: None,
        })),
        right: None,
    };
    t.balance();
    assert_eq!(t, build(&[10, 20, 30]));
}

#[test]
fn balance_left_right_zigzag() {
    let mut t = BinaryTree {
        metadata: (2, 0),
        value: 30,
        left: Some(Box::new(BinaryTree {
            metadata: (0, 1),
            value: 10,
            left: None,
            right: Some(Box::new(leaf(20))),
        })),
        right: None,
    };
    t.balance();
    assert_eq!(t, build(&[10, 20, 30]));
}

#[test]
fn balance_leaves_balanced_node_alone() {
    let mut t = build(&[10, 20, 30]);
    t.balance();
    assert_eq!(t, build(&[10, 20, 30]));
}

fn properties_hold(values: Vec<i32>) -> bool {
    let mut t = AvlTree::new(0);
    for v in values {
        t.insert(v % 1000);
    }
    all_invariants(&t)
}

#[test]
fn ordering_property() {
    fn prop(values: Vec<i32>) -> bool {
        let mut t = AvlTree::new(0);
        for v in values {
            t.insert(v % 1000);
        }
        is_ordered(&t)
    }
    QuickCheck::new().tests(200).quickcheck(prop as fn(Vec<i32>) -> bool);
}

#[test]
fn height_is_maintained() {
    fn prop(values: Vec<i32>) -> bool {
        let mut t = AvlTree::new(0);
        for v in values {
            t.insert(v % 1000);
        }
        heights_correct(&t)
    }
    QuickCheck::new().tests(200).quickcheck(prop as fn(Vec<i32>) -> bool);
}

#[test]
fn balance_property() {
    fn prop(values: Vec<i32>) -> bool {
        let mut t = AvlTree::new(0);
        for v in values {
            t.insert(v % 1000);
        }
        is_balanced(&t)
    }
    QuickCheck::new().tests(200).quickcheck(prop as fn(Vec<i32>) -> bool);
}

#[test]
fn idempotence_property() {
    fn prop(values: Vec<i32>, v: i32) -> bool {
        let mut once = AvlTree::new(0);
        let mut twice = AvlTree::new(0);
        for x in values {
            once.insert(x);
            twice.insert(x);
        }
        once.insert(v);
        twice.insert(v);
        twice.insert(v);
        once == twice
    }
    QuickCheck::new().tests(200).quickcheck(prop as fn(Vec<i32>, i32) -> bool);
}

#[test]
fn random_insertions_keep_invariants() {
    let mut rng = rand::thread_rng();
    let values: Vec<i32> = (0..2000).map(|_| rng.gen_range(-1000..1000)).collect();
    assert!(properties_hold(values.clone()));
    let mut distinct = values.clone();
    distinct.push(0);
    distinct.sort();
    distinct.dedup();
    let mut t = AvlTree::new(0);
    for v in values {
        t.insert(v);
    }
    assert_eq!(count(&t), distinct.len());
}
