use vstd::prelude::*;
use crate::tree::{AvlTree, BinaryTree};

verus! {

impl AvlTree {
    pub open spec fn with_left(self, l: BinaryTree) -> BinaryTree {
        BinaryTree {
            metadata: self.metadata,
            value: self.value,
            left: Some(Box::new(l)),
            right: self.right,
        }
    }

    pub open spec fn with_right(self, r: BinaryTree) -> BinaryTree {
        BinaryTree {
            metadata: self.metadata,
            value: self.value,
            left: self.left,
            right: Some(Box::new(r)),
        }
    }

    /// In a left rotation, this node as it moves down: its right subtree
    /// becomes the old left subtree of its right child.
    pub open spec fn left_rotation_lowered(self) -> BinaryTree {
        BinaryTree {
            metadata: self.metadata,
            value: self.value,
            left: self.left,
            right: self.right.unwrap().left,
        }
    }

    /// In a left rotation, the right child as it takes this node's place.
    pub open spec fn left_rotation_raised(self) -> BinaryTree {
        (*self.right.unwrap()).with_left(self.left_rotation_lowered().fixed())
    }

    /// The result of a left rotation, metadata fixed bottom-up.
    pub open spec fn rotated_left(self) -> BinaryTree {
        self.left_rotation_raised().fixed()
    }

    /// A left rotation has a right child to raise and its metadata fits `i8`.
    pub open spec fn can_rotate_left(self) -> bool {
        &&& self.right is Some
        &&& self.left_rotation_lowered().fix_ok()
        &&& self.left_rotation_raised().fix_ok()
    }

    /// In a right rotation, this node as it moves down: its left subtree
    /// becomes the old right subtree of its left child.
    pub open spec fn right_rotation_lowered(self) -> BinaryTree {
        BinaryTree {
            metadata: self.metadata,
            value: self.value,
            left: self.left.unwrap().right,
            right: self.right,
        }
    }

    /// In a right rotation, the left child as it takes this node's place.
    pub open spec fn right_rotation_raised(self) -> BinaryTree {
        (*self.left.unwrap()).with_right(self.right_rotation_lowered().fixed())
    }

    /// The result of a right rotation, metadata fixed bottom-up.
    pub open spec fn rotated_right(self) -> BinaryTree {
        self.right_rotation_raised().fixed()
    }

    /// A right rotation has a left child to raise and its metadata fits `i8`.
    pub open spec fn can_rotate_right(self) -> bool {
        &&& self.left is Some
        &&& self.right_rotation_lowered().fix_ok()
        &&& self.right_rotation_raised().fix_ok()
    }

    /// Promotes the right child into this node's place; this node becomes
    /// its left child and takes over its old left subtree as right subtree.
    pub fn rotate_left(&mut self)
        requires
            old(self).can_rotate_left(),
        ensures
            *final(self) == old(self).rotated_left(),
    {
        let mut raised = self.right.take().unwrap();
        self.right = raised.left.take();
        self.fix_metadata();
        std::mem::swap(self, &mut *raised);
        self.left = Some(raised);
        self.fix_metadata();
    }

    /// Promotes the left child into this node's place; this node becomes
    /// its right child and takes over its old right subtree as left subtree.
    pub fn rotate_right(&mut self)
        requires
            old(self).can_rotate_right(),
        ensures
            *final(self) == old(self).rotated_right(),
    {
        let mut raised = self.left.take().unwrap();
        self.left = raised.right.take();
        self.fix_metadata();
        std::mem::swap(self, &mut *raised);
        self.right = Some(raised);
        self.fix_metadata();
    }

    /// As a left child of a left-heavy node: leans right, so it is first
    /// rotated left (the double rotation case).
    pub open spec fn leans_right(self) -> bool {
        match (self.left, self.right) {
            (None, Some(_)) => true,
            (Some(_), Some(_)) => self.metadata.0 - self.metadata.1 < 0,
            _ => false,
        }
    }

    /// As a right child of a right-heavy node: leans left, so it is first
    /// rotated right (the double rotation case).
    pub open spec fn leans_left(self) -> bool {
        match (self.left, self.right) {
            (Some(_), None) => true,
            (Some(_), Some(_)) => self.metadata.0 - self.metadata.1 > 0,
            _ => false,
        }
    }

    /// The difference of the recorded heights, left minus right.
    pub open spec fn difference(self) -> int {
        self.metadata.0 - self.metadata.1
    }

    /// A left-heavy node with its left child turned first where needed.
    pub open spec fn left_prepared(self) -> BinaryTree {
        let l = *self.left.unwrap();
        if l.leans_right() {
            self.with_left(l.rotated_left())
        } else {
            self
        }
    }

    /// A right-heavy node with its right child turned first where needed.
    pub open spec fn right_prepared(self) -> BinaryTree {
        let r = *self.right.unwrap();
        if r.leans_left() {
            self.with_right(r.rotated_right())
        } else {
            self
        }
    }

    /// The result of `balance`: a difference of 2 or -2 is repaired by a
    /// single or double rotation, anything else is left alone.
    pub open spec fn rebalanced(self) -> BinaryTree {
        if self.difference() == 2 {
            self.left_prepared().rotated_right()
        } else if self.difference() == -2 {
            self.right_prepared().rotated_left()
        } else {
            self
        }
    }

    /// `balance` is defined here: the difference lies in [-2, 2] and the
    /// rotations it calls for have the children they raise and fit `i8`.
    pub open spec fn can_rebalance(self) -> bool {
        &&& -2 <= self.difference() <= 2
        &&& self.difference() == 2 ==> {
            &&& self.left is Some
            &&& self.left.unwrap().leans_right() ==> self.left.unwrap().can_rotate_left()
            &&& self.left_prepared().can_rotate_right()
        }
        &&& self.difference() == -2 ==> {
            &&& self.right is Some
            &&& self.right.unwrap().leans_left() ==> self.right.unwrap().can_rotate_right()
            &&& self.right_prepared().can_rotate_left()
        }
    }

    fn is_leaning_right(&self) -> (r: bool)
        ensures
            r == self.leans_right(),
    {
        match (&self.left, &self.right) {
            (None, Some(_)) => true,
            (Some(_), Some(_)) => (self.metadata.0 as i16) - (self.metadata.1 as i16) < 0,
            _ => false,
        }
    }

    fn is_leaning_left(&self) -> (r: bool)
        ensures
            r == self.leans_left(),
    {
        match (&self.left, &self.right) {
            (Some(_), None) => true,
            (Some(_), Some(_)) => (self.metadata.0 as i16) - (self.metadata.1 as i16) > 0,
            _ => false,
        }
    }

    /// Restores balance at this node when its recorded heights differ by
    /// two, by a single rotation or, where the heavy child leans the other
    /// way, a double rotation.
    pub fn balance(&mut self)
        requires
            old(self).can_rebalance(),
        ensures
            *final(self) == old(self).rebalanced(),
    {
        let difference: i16 = (self.metadata.0 as i16) - (self.metadata.1 as i16);
        if difference == 2 {
            let mut l = self.left.take().unwrap();
            if l.is_leaning_right() {
                (&mut *l).rotate_left();
            }
            self.left = Some(l);
            self.rotate_right();
        } else if difference == -2 {
            let mut r = self.right.take().unwrap();
            if r.is_leaning_left() {
                (&mut *r).rotate_right();
            }
            self.right = Some(r);
            self.rotate_left();
        }
    }
}

} // verus!
